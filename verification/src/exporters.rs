//! Writing sessions out as an HTML table, as CSV and as JSON lines.

use crate::text::{decimal, decimal_string, join, joined, texts};
use vstd::prelude::*;
use vstd::string::StringExecFns;

verus! {

/// `serde_json::Error`, what a serialisation failed with.
#[verifier::external_type_specification]
#[verifier::external_body]
pub struct ExJsonError(serde_json::Error);

/// One session as it is exported.
#[derive(Debug, Clone)]
pub struct SessionExportData {
    pub id: String,
    pub context: String,
    pub title: Option<String>,
    pub last_snippet: Option<String>,
    pub agent_mode: Option<String>,
    pub toolbox_path: Option<String>,
    pub tools_available_count: Option<u32>,
    pub tools_used: Option<Vec<String>>,
    pub created_at: String,
    pub updated_at: String,
    pub input_tokens: Option<u64>,
    pub output_tokens: Option<u64>,
    pub inference_duration_ms: Option<u64>,
    pub service_tier: Option<String>,
}

#[derive(Debug, Clone, Copy, PartialEq, Eq, Structural)]
pub enum ExportFormat {
    Html,
    Csv,
    Jsonl,
}

/// Why an export failed. No export of this module does; the type is what
/// the serialiser's failure would be handed on as.
#[derive(Debug)]
pub enum ExportError {
    /// A text could not be written as JSON; the message says why.
    Json { message: String },
}

/// The view of `value`, or `fallback` where there is none.
pub open spec fn text_or(value: Option<String>, fallback: Seq<char>) -> Seq<char> {
    match value {
        Some(text) => text@,
        None => fallback,
    }
}

/// `value` in decimal notation, or `fallback` where there is none.
pub open spec fn number_or(value: Option<u64>, fallback: Seq<char>) -> Seq<char> {
    match value {
        Some(n) => decimal(n as nat),
        None => fallback,
    }
}

/// `value` as a 64-bit number.
pub open spec fn widened(value: Option<u32>) -> Option<u64> {
    match value {
        Some(n) => Some(n as u64),
        None => None,
    }
}

/// The tools of `value` joined with `sep`, or `fallback` where there is no
/// list.
pub open spec fn list_or(value: Option<Vec<String>>, sep: Seq<char>, fallback: Seq<char>) -> Seq<
    char,
> {
    match value {
        Some(tools) => joined(texts(tools@), sep),
        None => fallback,
    }
}

fn text_of(value: &Option<String>, fallback: &str) -> (text: String)
    ensures
        text@ == text_or(*value, fallback@),
{
    match value {
        Some(text) => text.clone(),
        None => String::from_str(fallback),
    }
}

fn number_of(value: Option<u64>, fallback: &str) -> (text: String)
    ensures
        text@ == number_or(value, fallback@),
{
    match value {
        Some(n) => decimal_string(n),
        None => String::from_str(fallback),
    }
}

fn widen(value: Option<u32>) -> (wide: Option<u64>)
    ensures
        wide == widened(value),
{
    match value {
        Some(n) => Some(n as u64),
        None => None,
    }
}

fn list_of(value: &Option<Vec<String>>, sep: &str, fallback: &str) -> (text: String)
    ensures
        text@ == list_or(*value, sep@, fallback@),
{
    match value {
        Some(tools) => join(tools, sep),
        None => String::from_str(fallback),
    }
}

/// What stands before the rows of the HTML table.
pub open spec fn html_head() -> Seq<char> {
    "<!DOCTYPE html>\n<html>\n<head>\n"@ + "<title>Amp Session Export</title>\n"@ + "<style>\n"@
        + "table { border-collapse: collapse; width: 100%; }\n"@
        + "th, td { border: 1px solid #ddd; padding: 8px; text-align: left; }\n"@
        + "th { background-color: #f2f2f2; }\n"@
        + ".context-production { background-color: #e8f5e8; }\n"@
        + ".context-development { background-color: #fff3cd; }\n"@ + "</style>\n"@
        + "</head>\n<body>\n"@ + "<h1>Amp Session Export</h1>\n"@ + "<table>\n"@ + "<tr>\n"@
        + "<th>ID</th><th>Context</th><th>Title</th><th>Agent Mode</th>\n"@
        + "<th>Toolbox Path</th><th>Tools Available</th><th>Tools Used</th>\n"@
        + "<th>Input Tokens</th><th>Output Tokens</th><th>Duration (ms)</th>\n"@
        + "<th>Created</th><th>Updated</th>\n"@ + "</tr>\n"@
}

/// What stands after the rows of the HTML table.
pub open spec fn html_foot() -> Seq<char> {
    "</table>\n</body>\n</html>\n"@
}

/// The style class of a row: one for `production`, one for `development`,
/// none for any other context.
pub open spec fn context_class(context: Seq<char>) -> Seq<char> {
    if context == "production"@ {
        "context-production"@
    } else if context == "development"@ {
        "context-development"@
    } else {
        ""@
    }
}

/// One cell of the HTML table.
pub open spec fn html_cell(content: Seq<char>) -> Seq<char> {
    "<td>"@ + content + "</td>"@
}

/// The row of one session in the HTML table. What a session does not have
/// shows as `N/A`.
pub open spec fn html_row(session: SessionExportData) -> Seq<char> {
    "<tr class=\""@ + context_class(session.context@) + "\">\n"@ + html_cell(session.id@)
        + html_cell(session.context@) + html_cell(text_or(session.title, "N/A"@)) + html_cell(
        text_or(session.agent_mode, "N/A"@),
    ) + html_cell(text_or(session.toolbox_path, "N/A"@)) + html_cell(
        number_or(widened(session.tools_available_count), "N/A"@),
    ) + html_cell(list_or(session.tools_used, ", "@, "N/A"@)) + html_cell(
        number_or(session.input_tokens, "N/A"@),
    ) + html_cell(number_or(session.output_tokens, "N/A"@)) + html_cell(
        number_or(session.inference_duration_ms, "N/A"@),
    ) + html_cell(session.created_at@) + html_cell(session.updated_at@) + "</tr>\n"@
}

/// The rows of the HTML table, one for each session, in order.
pub open spec fn html_rows(sessions: Seq<SessionExportData>) -> Seq<char>
    decreases sessions.len(),
{
    if sessions.len() == 0 {
        Seq::empty()
    } else {
        html_rows(sessions.drop_last()) + html_row(sessions.last())
    }
}

/// The sessions as an HTML document.
pub open spec fn html_document(sessions: Seq<SessionExportData>) -> Seq<char> {
    html_head() + html_rows(sessions) + html_foot()
}

fn html_head_text() -> (text: String)
    ensures
        text@ == html_head(),
{
    let mut text = String::from_str("<!DOCTYPE html>\n<html>\n<head>\n");
    text.append("<title>Amp Session Export</title>\n");
    text.append("<style>\n");
    text.append("table { border-collapse: collapse; width: 100%; }\n");
    text.append("th, td { border: 1px solid #ddd; padding: 8px; text-align: left; }\n");
    text.append("th { background-color: #f2f2f2; }\n");
    text.append(".context-production { background-color: #e8f5e8; }\n");
    text.append(".context-development { background-color: #fff3cd; }\n");
    text.append("</style>\n");
    text.append("</head>\n<body>\n");
    text.append("<h1>Amp Session Export</h1>\n");
    text.append("<table>\n");
    text.append("<tr>\n");
    text.append("<th>ID</th><th>Context</th><th>Title</th><th>Agent Mode</th>\n");
    text.append("<th>Toolbox Path</th><th>Tools Available</th><th>Tools Used</th>\n");
    text.append("<th>Input Tokens</th><th>Output Tokens</th><th>Duration (ms)</th>\n");
    text.append("<th>Created</th><th>Updated</th>\n");
    text.append("</tr>\n");
    text
}

fn class_of(context: &str) -> (class: &'static str)
    ensures
        class@ == context_class(context@),
{
    if context.eq("production") {
        "context-production"
    } else if context.eq("development") {
        "context-development"
    } else {
        ""
    }
}

fn add_cell(row: &mut String, content: &str)
    ensures
        final(row)@ == old(row)@ + html_cell(content@),
{
    let mut cell = String::from_str("<td>");
    cell.append(content);
    cell.append("</td>");
    row.append(cell.as_str());
}

fn html_row_text(session: &SessionExportData) -> (row: String)
    ensures
        row@ == html_row(*session),
{
    let mut row = String::from_str("<tr class=\"");
    row.append(class_of(session.context.as_str()));
    row.append("\">\n");
    add_cell(&mut row, session.id.as_str());
    add_cell(&mut row, session.context.as_str());
    add_cell(&mut row, text_of(&session.title, "N/A").as_str());
    add_cell(&mut row, text_of(&session.agent_mode, "N/A").as_str());
    add_cell(&mut row, text_of(&session.toolbox_path, "N/A").as_str());
    add_cell(&mut row, number_of(widen(session.tools_available_count), "N/A").as_str());
    add_cell(&mut row, list_of(&session.tools_used, ", ", "N/A").as_str());
    add_cell(&mut row, number_of(session.input_tokens, "N/A").as_str());
    add_cell(&mut row, number_of(session.output_tokens, "N/A").as_str());
    add_cell(&mut row, number_of(session.inference_duration_ms, "N/A").as_str());
    add_cell(&mut row, session.created_at.as_str());
    add_cell(&mut row, session.updated_at.as_str());
    row.append("</tr>\n");
    row
}

/// The first line of the CSV: the names of the columns.
pub open spec fn csv_head() -> Seq<char> {
    "id,context,title,agent_mode,toolbox_path,tools_available_count,tools_used,input_tokens,output_tokens,inference_duration_ms,created_at,updated_at"@
        + "\n"@
}

/// The line of one session in the CSV. Title, toolbox path and tools stand
/// in double quotes, the tools joined with `;`; what a session does not have
/// is left empty. Nothing is escaped.
pub open spec fn csv_row(session: SessionExportData) -> Seq<char> {
    session.id@ + ","@ + session.context@ + ","@ + "\""@ + text_or(session.title, ""@) + "\","@
        + text_or(session.agent_mode, ""@) + ","@ + "\""@ + text_or(session.toolbox_path, ""@)
        + "\","@ + number_or(widened(session.tools_available_count), ""@) + ","@ + "\""@
        + list_or(session.tools_used, ";"@, ""@) + "\","@ + number_or(session.input_tokens, ""@)
        + ","@ + number_or(session.output_tokens, ""@) + ","@ + number_or(
        session.inference_duration_ms,
        ""@,
    ) + ","@ + session.created_at@ + ","@ + session.updated_at@ + "\n"@
}

/// The lines of the sessions in the CSV, in order.
pub open spec fn csv_rows(sessions: Seq<SessionExportData>) -> Seq<char>
    decreases sessions.len(),
{
    if sessions.len() == 0 {
        Seq::empty()
    } else {
        csv_rows(sessions.drop_last()) + csv_row(sessions.last())
    }
}

/// The sessions as CSV.
pub open spec fn csv_document(sessions: Seq<SessionExportData>) -> Seq<char> {
    csv_head() + csv_rows(sessions)
}

fn csv_row_text(session: &SessionExportData) -> (row: String)
    ensures
        row@ == csv_row(*session),
{
    let mut row = session.id.clone();
    row.append(",");
    row.append(session.context.as_str());
    row.append(",");
    row.append("\"");
    row.append(text_of(&session.title, "").as_str());
    row.append("\",");
    row.append(text_of(&session.agent_mode, "").as_str());
    row.append(",");
    row.append("\"");
    row.append(text_of(&session.toolbox_path, "").as_str());
    row.append("\",");
    row.append(number_of(widen(session.tools_available_count), "").as_str());
    row.append(",");
    row.append("\"");
    row.append(list_of(&session.tools_used, ";", "").as_str());
    row.append("\",");
    row.append(number_of(session.input_tokens, "").as_str());
    row.append(",");
    row.append(number_of(session.output_tokens, "").as_str());
    row.append(",");
    row.append(number_of(session.inference_duration_ms, "").as_str());
    row.append(",");
    row.append(session.created_at.as_str());
    row.append(",");
    row.append(session.updated_at.as_str());
    row.append("\n");
    row
}

/// A text as a JSON string: in double quotes, with what JSON cannot hold
/// as it is written as an escape.
pub uninterp spec fn json_string(text: Seq<char>) -> Seq<char>;

/// `serde_json::to_string` writes a value as JSON; of a text it gives the
/// JSON string. It fails only where the value refuses to be written or
/// where the writer fails; a text does not refuse, and the writer is a
/// vector in memory, so that for a text it always succeeds.
#[verifier::external_body]
fn json_quote(text: &str) -> (r: Result<String, serde_json::Error>)
    ensures
        r is Ok,
        r->Ok_0@ == json_string(text@),
{
    serde_json::to_string(text)
}

/// The message of a `serde_json::Error`.
#[verifier::external_body]
fn json_error_text(error: &serde_json::Error) -> (message: String) {
    error.to_string()
}

/// Every text of `items` as a JSON string.
pub open spec fn json_strings(items: Seq<Seq<char>>) -> Seq<Seq<char>> {
    items.map_values(|item: Seq<char>| json_string(item))
}

/// An optional text as JSON: the string, or `null`.
pub open spec fn json_text_or_null(value: Option<String>) -> Seq<char> {
    match value {
        Some(text) => json_string(text@),
        None => "null"@,
    }
}

/// An optional list of texts as JSON: the array of the strings, or `null`.
pub open spec fn json_list_or_null(value: Option<Vec<String>>) -> Seq<char> {
    match value {
        Some(items) => "["@ + joined(json_strings(texts(items@)), ","@) + "]"@,
        None => "null"@,
    }
}

/// The JSON object of one session: every field under its name, in the order
/// of the fields, and `null` for what the session does not have.
pub open spec fn json_line(session: SessionExportData) -> Seq<char> {
    "{\"id\":"@ + json_string(session.id@) + ",\"context\":"@ + json_string(session.context@)
        + ",\"title\":"@ + json_text_or_null(session.title) + ",\"last_snippet\":"@
        + json_text_or_null(session.last_snippet) + ",\"agent_mode\":"@ + json_text_or_null(
        session.agent_mode,
    ) + ",\"toolbox_path\":"@ + json_text_or_null(session.toolbox_path)
        + ",\"tools_available_count\":"@ + number_or(
        widened(session.tools_available_count),
        "null"@,
    ) + ",\"tools_used\":"@ + json_list_or_null(session.tools_used) + ",\"created_at\":"@
        + json_string(session.created_at@) + ",\"updated_at\":"@ + json_string(
        session.updated_at@,
    ) + ",\"input_tokens\":"@ + number_or(session.input_tokens, "null"@)
        + ",\"output_tokens\":"@ + number_or(session.output_tokens, "null"@)
        + ",\"inference_duration_ms\":"@ + number_or(session.inference_duration_ms, "null"@)
        + ",\"service_tier\":"@ + json_text_or_null(session.service_tier) + "}"@
}

/// The sessions as JSON lines: one object on each line, in order.
pub open spec fn jsonl_document(sessions: Seq<SessionExportData>) -> Seq<char>
    decreases sessions.len(),
{
    if sessions.len() == 0 {
        Seq::empty()
    } else {
        jsonl_document(sessions.drop_last()) + json_line(sessions.last()) + "\n"@
    }
}

fn quote(text: &str) -> (r: Result<String, ExportError>)
    ensures
        r is Ok,
        r->Ok_0@ == json_string(text@),
{
    match json_quote(text) {
        Ok(quoted) => Ok(quoted),
        Err(error) => Err(ExportError::Json { message: json_error_text(&error) }),
    }
}

fn quote_or_null(value: &Option<String>) -> (r: Result<String, ExportError>)
    ensures
        r is Ok,
        r->Ok_0@ == json_text_or_null(*value),
{
    match value {
        Some(text) => quote(text.as_str()),
        None => Ok(String::from_str("null")),
    }
}

fn quote_list_or_null(value: &Option<Vec<String>>) -> (r: Result<String, ExportError>)
    ensures
        r is Ok,
        r->Ok_0@ == json_list_or_null(*value),
{
    match value {
        None => Ok(String::from_str("null")),
        Some(items) => {
            let mut quoted: Vec<String> = Vec::new();
            let mut i: usize = 0;
            assert(texts(quoted@) =~= json_strings(texts(items@).take(0)));
            while i < items.len()
                invariant
                    i <= items.len(),
                    quoted.len() == i,
                    texts(quoted@) == json_strings(texts(items@).take(i as int)),
                decreases items.len() - i,
            {
                let item = quote(items[i].as_str())?;
                proof {
                    let grown = texts(quoted@.push(item));
                    let wanted = json_strings(texts(items@).take(i + 1));
                    assert forall|j: int| 0 <= j < i + 1 implies grown[j] == wanted[j] by {
                        if j < i {
                            assert(texts(quoted@)[j] == json_strings(
                                texts(items@).take(i as int),
                            )[j]);
                        }
                    }
                    assert(grown =~= wanted);
                }
                quoted.push(item);
                i += 1;
            }
            assert(texts(items@).take(items.len() as int) == texts(items@));
            let mut list = String::from_str("[");
            list.append(join(&quoted, ",").as_str());
            list.append("]");
            Ok(list)
        },
    }
}

fn json_line_text(session: &SessionExportData) -> (r: Result<String, ExportError>)
    ensures
        r is Ok,
        r->Ok_0@ == json_line(*session),
{
    let id = quote(session.id.as_str())?;
    let context = quote(session.context.as_str())?;
    let title = quote_or_null(&session.title)?;
    let last_snippet = quote_or_null(&session.last_snippet)?;
    let agent_mode = quote_or_null(&session.agent_mode)?;
    let toolbox_path = quote_or_null(&session.toolbox_path)?;
    let tools_used = quote_list_or_null(&session.tools_used)?;
    let created_at = quote(session.created_at.as_str())?;
    let updated_at = quote(session.updated_at.as_str())?;
    let service_tier = quote_or_null(&session.service_tier)?;
    let mut line = String::from_str("{\"id\":");
    line.append(id.as_str());
    line.append(",\"context\":");
    line.append(context.as_str());
    line.append(",\"title\":");
    line.append(title.as_str());
    line.append(",\"last_snippet\":");
    line.append(last_snippet.as_str());
    line.append(",\"agent_mode\":");
    line.append(agent_mode.as_str());
    line.append(",\"toolbox_path\":");
    line.append(toolbox_path.as_str());
    line.append(",\"tools_available_count\":");
    line.append(number_of(widen(session.tools_available_count), "null").as_str());
    line.append(",\"tools_used\":");
    line.append(tools_used.as_str());
    line.append(",\"created_at\":");
    line.append(created_at.as_str());
    line.append(",\"updated_at\":");
    line.append(updated_at.as_str());
    line.append(",\"input_tokens\":");
    line.append(number_of(session.input_tokens, "null").as_str());
    line.append(",\"output_tokens\":");
    line.append(number_of(session.output_tokens, "null").as_str());
    line.append(",\"inference_duration_ms\":");
    line.append(number_of(session.inference_duration_ms, "null").as_str());
    line.append(",\"service_tier\":");
    line.append(service_tier.as_str());
    line.append("}");
    Ok(line)
}

/// A way of writing sessions out.
pub trait Exporter {
    /// The format that the exporter writes.
    spec fn format(&self) -> ExportFormat;

    /// Appends the sessions to `writer` in the exporter's format. None of
    /// the three formats fails.
    fn export_sessions(&mut self, sessions: &Vec<SessionExportData>, writer: &mut String) -> (r:
        Result<(), ExportError>)
        ensures
            final(self).format() == old(self).format(),
            exported(old(self).format(), sessions@, old(writer)@, final(writer)@, r),
    ;
}

/// The sessions written out in `format`.
pub open spec fn document(format: ExportFormat, sessions: Seq<SessionExportData>) -> Seq<char> {
    match format {
        ExportFormat::Html => html_document(sessions),
        ExportFormat::Csv => csv_document(sessions),
        ExportFormat::Jsonl => jsonl_document(sessions),
    }
}

/// Whether `after` and `r` are what exporting `sessions` in `format` into
/// `before` gives: success, and the document appended.
pub open spec fn exported(
    format: ExportFormat,
    sessions: Seq<SessionExportData>,
    before: Seq<char>,
    after: Seq<char>,
    r: Result<(), ExportError>,
) -> bool {
    r is Ok && after == before + document(format, sessions)
}

#[derive(Debug, Clone, Copy)]
pub struct HtmlExporter;

#[derive(Debug, Clone, Copy)]
pub struct CsvExporter;

#[derive(Debug, Clone, Copy)]
pub struct JsonlExporter;

impl Exporter for HtmlExporter {
    open spec fn format(&self) -> ExportFormat {
        ExportFormat::Html
    }

    fn export_sessions(&mut self, sessions: &Vec<SessionExportData>, writer: &mut String) -> (r:
        Result<(), ExportError>) {
        let mut page = html_head_text();
        let mut i: usize = 0;
        assert(html_head() + html_rows(sessions@.take(0)) =~= html_head());
        while i < sessions.len()
            invariant
                i <= sessions.len(),
                page@ == html_head() + html_rows(sessions@.take(i as int)),
            decreases sessions.len() - i,
        {
            let row = html_row_text(&sessions[i]);
            proof {
                assert(sessions@.take(i + 1).drop_last() == sessions@.take(i as int));
                assert(sessions@.take(i + 1).last() == sessions@[i as int]);
                assert(page@ + row@ =~= html_head() + html_rows(sessions@.take(i + 1)));
            }
            page.append(row.as_str());
            i += 1;
        }
        assert(sessions@.take(sessions.len() as int) == sessions@);
        page.append("</table>\n</body>\n</html>\n");
        writer.append(page.as_str());
        Ok(())
    }
}

impl Exporter for CsvExporter {
    open spec fn format(&self) -> ExportFormat {
        ExportFormat::Csv
    }

    fn export_sessions(&mut self, sessions: &Vec<SessionExportData>, writer: &mut String) -> (r:
        Result<(), ExportError>) {
        let mut page = String::from_str(
            "id,context,title,agent_mode,toolbox_path,tools_available_count,tools_used,input_tokens,output_tokens,inference_duration_ms,created_at,updated_at",
        );
        page.append("\n");
        let mut i: usize = 0;
        assert(csv_head() + csv_rows(sessions@.take(0)) =~= csv_head());
        while i < sessions.len()
            invariant
                i <= sessions.len(),
                page@ == csv_head() + csv_rows(sessions@.take(i as int)),
            decreases sessions.len() - i,
        {
            let row = csv_row_text(&sessions[i]);
            proof {
                assert(sessions@.take(i + 1).drop_last() == sessions@.take(i as int));
                assert(sessions@.take(i + 1).last() == sessions@[i as int]);
                assert(page@ + row@ =~= csv_head() + csv_rows(sessions@.take(i + 1)));
            }
            page.append(row.as_str());
            i += 1;
        }
        assert(sessions@.take(sessions.len() as int) == sessions@);
        writer.append(page.as_str());
        Ok(())
    }
}

impl Exporter for JsonlExporter {
    open spec fn format(&self) -> ExportFormat {
        ExportFormat::Jsonl
    }

    fn export_sessions(&mut self, sessions: &Vec<SessionExportData>, writer: &mut String) -> (r:
        Result<(), ExportError>) {
        let ghost before = writer@;
        let mut i: usize = 0;
        assert(before + jsonl_document(sessions@.take(0)) =~= before);
        while i < sessions.len()
            invariant
                i <= sessions.len(),
                before == old(writer)@,
                writer@ == before + jsonl_document(sessions@.take(i as int)),
            decreases sessions.len() - i,
        {
            match json_line_text(&sessions[i]) {
                Err(error) => {
                    return Err(error);
                },
                Ok(line) => {
                    proof {
                        assert(sessions@.take(i + 1).drop_last() == sessions@.take(i as int));
                        assert(sessions@.take(i + 1).last() == sessions@[i as int]);
                        assert(writer@ + line@ + "\n"@ =~= before + jsonl_document(
                            sessions@.take(i + 1),
                        ));
                    }
                    writer.append(line.as_str());
                    writer.append("\n");
                },
            }
            i += 1;
        }
        assert(sessions@.take(sessions.len() as int) == sessions@);
        Ok(())
    }
}

/// One of the three exporters.
#[derive(Debug, Clone, Copy)]
pub enum AnyExporter {
    Html(HtmlExporter),
    Csv(CsvExporter),
    Jsonl(JsonlExporter),
}

impl Exporter for AnyExporter {
    open spec fn format(&self) -> ExportFormat {
        match self {
            AnyExporter::Html(_) => ExportFormat::Html,
            AnyExporter::Csv(_) => ExportFormat::Csv,
            AnyExporter::Jsonl(_) => ExportFormat::Jsonl,
        }
    }

    fn export_sessions(&mut self, sessions: &Vec<SessionExportData>, writer: &mut String) -> (r:
        Result<(), ExportError>) {
        match self {
            AnyExporter::Html(_) => {
                let mut exporter = HtmlExporter;
                exporter.export_sessions(sessions, writer)
            },
            AnyExporter::Csv(_) => {
                let mut exporter = CsvExporter;
                exporter.export_sessions(sessions, writer)
            },
            AnyExporter::Jsonl(_) => {
                let mut exporter = JsonlExporter;
                exporter.export_sessions(sessions, writer)
            },
        }
    }
}

/// The exporter for `format`.
pub fn create_exporter(format: ExportFormat) -> (exporter: AnyExporter)
    ensures
        exporter.format() == format,
{
    match format {
        ExportFormat::Html => AnyExporter::Html(HtmlExporter),
        ExportFormat::Csv => AnyExporter::Csv(CsvExporter),
        ExportFormat::Jsonl => AnyExporter::Jsonl(JsonlExporter),
    }
}

/// The sessions written out in `format`, as one text. None of the three
/// formats fails.
pub fn export_sessions_to_string(sessions: &Vec<SessionExportData>, format: ExportFormat) -> (r:
    Result<String, ExportError>)
    ensures
        r is Ok,
        r->Ok_0@ == document(format, sessions@),
{
    let mut buffer = String::new();
    let mut exporter = create_exporter(format);
    match exporter.export_sessions(sessions, &mut buffer) {
        Ok(()) => {
            assert(Seq::<char>::empty() + document(format, sessions@) =~= document(
                format,
                sessions@,
            ));
            Ok(buffer)
        },
        Err(error) => Err(error),
    }
}

impl ExportError {
    /// The error in words.
    pub fn to_string(&self) -> (text: String)
        ensures
            self matches ExportError::Json { message } && text@ == "JSON error: "@ + message@,
    {
        match self {
            ExportError::Json { message } => {
                let mut text = String::from_str("JSON error: ");
                text.append(message.as_str());
                text
            },
        }
    }
}

} // verus!
