use amp_orchestra::exporters::{
    create_exporter, export_sessions_to_string, CsvExporter, ExportFormat, Exporter,
    HtmlExporter, JsonlExporter, SessionExportData,
};

fn create_test_sessions() -> Vec<SessionExportData> {
    vec![
        SessionExportData {
            id: "session1".to_string(),
            context: "production".to_string(),
            title: Some("Test Session 1".to_string()),
            last_snippet: Some("Hello world".to_string()),
            agent_mode: Some("geppetto:main".to_string()),
            toolbox_path: Some("/usr/local/bin:/home/user/tools".to_string()),
            tools_available_count: Some(15),
            tools_used: Some(vec!["ls".to_string(), "grep".to_string()]),
            created_at: "2024-01-15T10:00:00Z".to_string(),
            updated_at: "2024-01-15T11:30:00Z".to_string(),
            input_tokens: Some(1500),
            output_tokens: Some(2300),
            inference_duration_ms: Some(1200),
            service_tier: Some("premium".to_string()),
        },
        SessionExportData {
            id: "session2".to_string(),
            context: "development".to_string(),
            title: Some("Dev Session".to_string()),
            last_snippet: None,
            agent_mode: Some("sonnet:3-5".to_string()),
            toolbox_path: None,
            tools_available_count: None,
            tools_used: None,
            created_at: "2024-01-15T12:00:00Z".to_string(),
            updated_at: "2024-01-15T12:15:00Z".to_string(),
            input_tokens: Some(800),
            output_tokens: Some(1200),
            inference_duration_ms: Some(950),
            service_tier: None,
        },
    ]
}

#[test]
fn test_html_exporter() {
    let sessions = create_test_sessions();
    let mut buffer = String::new();
    let mut exporter = HtmlExporter;

    let result = exporter.export_sessions(&sessions, &mut buffer);
    assert!(result.is_ok(), "HTML export should succeed");

    let html_output = buffer;

    assert!(html_output.contains("<!DOCTYPE html>"));
    assert!(html_output.contains("<table>"));
    assert!(html_output.contains("session1"));
    assert!(html_output.contains("session2"));
    assert!(html_output.contains("geppetto:main"));
    assert!(html_output.contains("production"));
    assert!(html_output.contains("development"));
    assert!(html_output.contains("context-production"));
    assert!(html_output.contains("context-development"));

    println!("HTML Export Preview:\n{}", &html_output[..500.min(html_output.len())]);
}

#[test]
fn html_rows_are_exact() {
    let sessions = create_test_sessions();
    let html = export_sessions_to_string(&sessions, ExportFormat::Html).unwrap();
    assert!(html.starts_with("<!DOCTYPE html>\n<html>\n<head>\n<title>Amp Session Export</title>\n<style>\ntable { border-collapse: collapse; width: 100%; }\n"));
    assert!(html.contains("<th>Created</th><th>Updated</th>\n</tr>\n<tr class=\"context-production\">\n<td>session1</td><td>production</td><td>Test Session 1</td><td>geppetto:main</td><td>/usr/local/bin:/home/user/tools</td><td>15</td><td>ls, grep</td><td>1500</td><td>2300</td><td>1200</td><td>2024-01-15T10:00:00Z</td><td>2024-01-15T11:30:00Z</td></tr>\n"));
    assert!(html.ends_with("<tr class=\"context-development\">\n<td>session2</td><td>development</td><td>Dev Session</td><td>sonnet:3-5</td><td>N/A</td><td>N/A</td><td>N/A</td><td>800</td><td>1200</td><td>950</td><td>2024-01-15T12:00:00Z</td><td>2024-01-15T12:15:00Z</td></tr>\n</table>\n</body>\n</html>\n"));

    let mut other = create_test_sessions();
    other.truncate(1);
    other[0].context = "staging".to_string();
    let html = export_sessions_to_string(&other, ExportFormat::Html).unwrap();
    assert!(html.contains("<tr class=\"\">\n"));
}

#[test]
fn test_csv_exporter() {
    let sessions = create_test_sessions();
    let mut buffer = String::new();
    let mut exporter = CsvExporter;

    let result = exporter.export_sessions(&sessions, &mut buffer);
    assert!(result.is_ok(), "CSV export should succeed");

    let csv_output = buffer;
    let lines: Vec<&str> = csv_output.lines().collect();

    assert!(lines.len() >= 3, "Should have header + 2 data rows");
    assert!(lines[0].contains("id,context,title"));
    assert!(lines[1].contains("session1"));
    assert!(lines[2].contains("session2"));
    assert!(csv_output.contains("geppetto:main"));
    assert!(csv_output.contains("/usr/local/bin:/home/user/tools"));

    println!("CSV Export Preview:\n{}", csv_output);
}

#[test]
fn csv_is_exact() {
    let csv = export_sessions_to_string(&create_test_sessions(), ExportFormat::Csv).unwrap();
    assert_eq!(
        csv,
        "id,context,title,agent_mode,toolbox_path,tools_available_count,tools_used,input_tokens,output_tokens,inference_duration_ms,created_at,updated_at\n\
session1,production,\"Test Session 1\",geppetto:main,\"/usr/local/bin:/home/user/tools\",15,\"ls;grep\",1500,2300,1200,2024-01-15T10:00:00Z,2024-01-15T11:30:00Z\n\
session2,development,\"Dev Session\",sonnet:3-5,\"\",,\"\",800,1200,950,2024-01-15T12:00:00Z,2024-01-15T12:15:00Z\n"
    );
    assert_eq!(
        export_sessions_to_string(&Vec::new(), ExportFormat::Csv).unwrap().lines().count(),
        1
    );
}

#[test]
fn test_jsonl_exporter() {
    let sessions = create_test_sessions();
    let mut buffer = String::new();
    let mut exporter = JsonlExporter;

    let result = exporter.export_sessions(&sessions, &mut buffer);
    assert!(result.is_ok(), "JSONL export should succeed");

    let jsonl_output = buffer;
    let lines: Vec<&str> = jsonl_output.lines().collect();

    assert_eq!(lines.len(), 2, "Should have 2 JSON lines");

    for line in lines {
        let parsed: serde_json::Value =
            serde_json::from_str(line).expect("Each line should be valid JSON");
        assert!(parsed.get("id").is_some());
        assert!(parsed.get("context").is_some());
    }

    println!("JSONL Export Preview:\n{}", jsonl_output);
}

#[test]
fn jsonl_fields_round_trip() {
    let mut sessions = create_test_sessions();
    sessions[0].title = Some("say \"hi\"\n\ttab \\ back \u{1} \u{e9}".to_string());
    sessions[0].tools_used = Some(vec!["a\"b".to_string(), String::new()]);
    let jsonl = export_sessions_to_string(&sessions, ExportFormat::Jsonl).unwrap();
    let lines: Vec<&str> = jsonl.lines().collect();
    assert_eq!(lines.len(), 2);

    let first: serde_json::Value = serde_json::from_str(lines[0]).unwrap();
    assert_eq!(first.get("id").unwrap().as_str(), Some("session1"));
    assert_eq!(
        first.get("title").unwrap().as_str(),
        Some("say \"hi\"\n\ttab \\ back \u{1} \u{e9}")
    );
    assert_eq!(first.get("tools_available_count").unwrap().as_u64(), Some(15));
    let tools = first.get("tools_used").unwrap().as_array().unwrap();
    assert_eq!(tools.len(), 2);
    assert_eq!(tools[0].as_str(), Some("a\"b"));
    assert_eq!(tools[1].as_str(), Some(""));
    assert_eq!(first.get("input_tokens").unwrap().as_u64(), Some(1500));
    assert_eq!(first.get("service_tier").unwrap().as_str(), Some("premium"));
    assert_eq!(first.as_object().unwrap().len(), 14);

    let second: serde_json::Value = serde_json::from_str(lines[1]).unwrap();
    assert!(second.get("last_snippet").unwrap().is_null());
    assert!(second.get("toolbox_path").unwrap().is_null());
    assert!(second.get("tools_available_count").unwrap().is_null());
    assert!(second.get("tools_used").unwrap().is_null());
    assert!(second.get("service_tier").unwrap().is_null());
    assert_eq!(
        lines[1],
        "{\"id\":\"session2\",\"context\":\"development\",\"title\":\"Dev Session\",\"last_snippet\":null,\"agent_mode\":\"sonnet:3-5\",\"toolbox_path\":null,\"tools_available_count\":null,\"tools_used\":null,\"created_at\":\"2024-01-15T12:00:00Z\",\"updated_at\":\"2024-01-15T12:15:00Z\",\"input_tokens\":800,\"output_tokens\":1200,\"inference_duration_ms\":950,\"service_tier\":null}"
    );
}

#[test]
fn test_export_formats() {
    let sessions = create_test_sessions();

    let html_result = export_sessions_to_string(&sessions, ExportFormat::Html);
    assert!(html_result.is_ok());

    let csv_result = export_sessions_to_string(&sessions, ExportFormat::Csv);
    assert!(csv_result.is_ok());

    let jsonl_result = export_sessions_to_string(&sessions, ExportFormat::Jsonl);
    assert!(jsonl_result.is_ok());
}

#[test]
fn exporters_append_to_what_is_there() {
    let sessions = create_test_sessions();
    for format in [ExportFormat::Html, ExportFormat::Csv, ExportFormat::Jsonl] {
        let mut exporter = create_exporter(format);
        let mut buffer = String::from("before|");
        exporter.export_sessions(&sessions, &mut buffer).unwrap();
        let whole = export_sessions_to_string(&sessions, format).unwrap();
        assert_eq!(buffer, format!("before|{}", whole));
    }
}
