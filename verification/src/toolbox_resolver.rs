//! Merging tool directories ("toolboxes") into one runtime directory.
//!
//! The caller reads the file system and hands over what it found: for each
//! root its canonical path, its size and modification time, and the entries
//! below its `bin/` in the order in which the directory walk met them.
//! [`resolve_toolboxes`] checks every symlink, counts files and bytes against
//! the limits, and returns the name of the runtime directory together with
//! the links to create in it, in order. Creating them is left to the caller.

use crate::paths::{is_within, join, join_path, within};
use crate::text::{decimal, decimal_string, parse_u64, parsed_u64};
use vstd::bytes::{spec_u128_to_le_bytes, spec_u64_to_le_bytes, u128_to_le_bytes, u64_to_le_bytes};
use vstd::prelude::*;
use vstd::string::{StrSliceExecFns, StringExecFns};
use vstd::utf8::encode_utf8;

verus! {

/// The number of files that may be merged when no limit is configured.
pub const DEFAULT_MAX_FILES: u64 = 5000;

/// The number of megabytes that may be merged when no limit is configured.
pub const DEFAULT_MAX_MB: u64 = 250;

/// The number of bytes in a megabyte.
pub const BYTES_PER_MB: u64 = 1048576;

/// What a successful resolution merged.
#[derive(Debug, Clone)]
pub struct ToolboxManifest {
    /// The canonical paths of the roots, in the caller's order.
    pub sources: Vec<String>,
    /// How many files were linked, a name that several roots provide counted
    /// once for each.
    pub files_count: u64,
    /// The sizes of those files, added up.
    pub bytes_total: u64,
    /// Whether files are copied rather than symlinked.
    pub copy_mode: bool,
    /// For each linked file `index:root:relative path`, in link order.
    pub bin_entries: Vec<String>,
}

/// The owner of a runtime directory. Releasing it names the directory to
/// delete, unless it was made to keep its artifacts.
#[derive(Debug)]
pub struct ToolboxGuard {
    root: String,
    keep: bool,
}

/// Why a resolution failed.
#[derive(Debug)]
pub enum ToolboxError {
    /// No root was given.
    NoRoots,
    /// The file system refused an operation; the text says which.
    Io { message: String },
    /// A symlink below `bin/` resolves to a place outside its root.
    SymlinkEscape { symlink: String, target: String, root: String },
    /// Linking one more file would exceed the limit on the number of files.
    FileLimit { limit: u64 },
    /// Linking one more file would exceed the limit on the number of bytes.
    SizeLimit { limit: u64 },
}

/// [`ToolboxError`] with texts as sequences of characters.
pub enum Fault {
    NoRoots,
    Io { message: Seq<char> },
    SymlinkEscape { symlink: Seq<char>, target: Seq<char>, root: Seq<char> },
    FileLimit { limit: u64 },
    SizeLimit { limit: u64 },
}

impl View for ToolboxError {
    type V = Fault;

    open spec fn view(&self) -> Fault {
        match self {
            ToolboxError::NoRoots => Fault::NoRoots,
            ToolboxError::Io { message } => Fault::Io { message: message@ },
            ToolboxError::SymlinkEscape { symlink, target, root } => Fault::SymlinkEscape {
                symlink: symlink@,
                target: target@,
                root: root@,
            },
            ToolboxError::FileLimit { limit } => Fault::FileLimit { limit: *limit },
            ToolboxError::SizeLimit { limit } => Fault::SizeLimit { limit: *limit },
        }
    }
}

impl Fault {
    /// The failure in words. A symlink that leaves its root is named with
    /// its target and the root, each in double quotes.
    pub open spec fn text(self) -> Seq<char> {
        match self {
            Fault::NoRoots => "no toolbox roots provided"@,
            Fault::Io { message } => message,
            Fault::SymlinkEscape { symlink, target, root } =>
                "symlink target escapes toolbox root: \""@ + symlink + "\" -> \""@ + target
                    + "\" (root: \""@ + root + "\")"@,
            Fault::FileLimit { limit } => "toolbox file limit exceeded"@,
            Fault::SizeLimit { limit } => "toolbox size limit exceeded"@,
        }
    }
}

impl ToolboxError {
    /// The failure in words.
    pub fn to_string(&self) -> (text: String)
        ensures
            text@ == self@.text(),
    {
        match self {
            ToolboxError::NoRoots => String::from_str("no toolbox roots provided"),
            ToolboxError::Io { message } => message.clone(),
            ToolboxError::SymlinkEscape { symlink, target, root } => {
                let mut text = String::from_str("symlink target escapes toolbox root: \"");
                text.append(symlink.as_str());
                text.append("\" -> \"");
                text.append(target.as_str());
                text.append("\" (root: \"");
                text.append(root.as_str());
                text.append("\")");
                text
            },
            ToolboxError::FileLimit { limit: _ } => String::from_str("toolbox file limit exceeded"),
            ToolboxError::SizeLimit { limit: _ } => String::from_str("toolbox size limit exceeded"),
        }
    }
}

/// What kind of directory entry the walk met.
#[derive(Debug, Clone, Copy, PartialEq, Eq, Structural)]
pub enum EntryKind {
    /// A regular file.
    File,
    /// A symbolic link, whatever it points to.
    Symlink,
    /// A directory or a special file.
    Other,
    /// An entry that the walk could not read.
    Unreadable,
}

/// One entry below a root's `bin/`, as the directory walk met it.
#[derive(Debug, Clone)]
pub struct WalkEntry {
    /// The path of the entry relative to `bin/`.
    pub rel: String,
    pub kind: EntryKind,
    /// The length of a regular file in bytes.
    pub size: u64,
    /// The canonical path that a symlink resolves to, where it could be
    /// resolved.
    pub target: Option<String>,
    /// What the file system said when it refused to read the entry, its link
    /// text, its target or its metadata.
    pub fault: Option<String>,
}

/// One toolbox root as the caller found it on disk.
#[derive(Debug, Clone)]
pub struct ToolboxRoot {
    /// The canonical path of the root.
    pub path: String,
    /// The size that the file system reports for the root, where it could be
    /// read.
    pub len: Option<u64>,
    /// The modification time of the root in milliseconds since the epoch,
    /// where it could be read. It counts only beside a size.
    pub modified_ms: Option<u128>,
    /// The entries below `bin/` in walk order, or `None` where the root has
    /// no `bin/`.
    pub bin: Option<Vec<WalkEntry>>,
}

/// One file to link into the runtime directory.
#[derive(Debug, Clone)]
pub struct LinkStep {
    /// Which root the file comes from.
    pub root_index: usize,
    /// The file in its root.
    pub source: String,
    /// Its path relative to the merged `bin/`.
    pub rel: String,
    /// Where the link goes. Whatever is there already is removed first.
    pub destination: String,
}

/// [`LinkStep`] with texts as sequences of characters.
pub struct Step {
    pub root_index: int,
    pub source: Seq<char>,
    pub rel: Seq<char>,
    pub destination: Seq<char>,
}

impl View for LinkStep {
    type V = Step;

    open spec fn view(&self) -> Step {
        Step {
            root_index: self.root_index as int,
            source: self.source@,
            rel: self.rel@,
            destination: self.destination@,
        }
    }
}

/// The views of a sequence of link steps.
pub open spec fn steps_of(links: Seq<LinkStep>) -> Seq<Step> {
    Seq::new(links.len(), |i: int| links[i]@)
}

/// What the caller fixes before a resolution.
#[derive(Debug, Clone)]
pub struct ResolveSettings {
    /// The directory that holds the runtime directories.
    pub base: String,
    /// The most files that may be linked.
    pub max_files: u64,
    /// The most bytes that may be linked.
    pub max_bytes: u64,
    /// Whether files are copied rather than symlinked.
    pub copy_mode: bool,
}

/// A merged toolbox: the runtime directory, what went into it and the links
/// that make it up.
#[derive(Debug)]
pub struct ResolvedToolbox {
    /// The runtime directory.
    pub root: String,
    /// Its `bin/`, which goes in front of `PATH`.
    pub bin: String,
    pub manifest: ToolboxManifest,
    /// The links to create below `bin`, in this order.
    pub links: Vec<LinkStep>,
    /// The owner of the runtime directory, until [`ResolvedToolbox::take_guard`]
    /// hands it out.
    pub guard: Option<ToolboxGuard>,
}

impl ToolboxGuard {
    /// The directory that the guard owns.
    pub closed spec fn directory(&self) -> Seq<char> {
        self.root@
    }

    /// Whether the directory is kept when the guard is released.
    pub closed spec fn keeps(&self) -> bool {
        self.keep
    }

    /// A guard for the runtime directory `root`.
    pub fn new(root: String, keep: bool) -> (guard: Self)
        ensures
            guard.directory() == root@,
            guard.keeps() == keep,
    {
        ToolboxGuard { root, keep }
    }

    /// The directory that the guard owns.
    pub fn root(&self) -> (root: &String)
        ensures
            root@ == self.directory(),
    {
        &self.root
    }

    /// Whether the directory is kept when the guard is released.
    pub fn keep(&self) -> (keep: bool)
        ensures
            keep == self.keeps(),
    {
        self.keep
    }

    /// Gives the guard up. Returns the directory that is to be deleted with
    /// all it holds, or `None` where the guard keeps its artifacts.
    pub fn release(self) -> (doomed: Option<String>)
        ensures
            self.keeps() ==> doomed is None,
            !self.keeps() ==> doomed is Some && doomed->0@ == self.directory(),
    {
        if self.keep {
            None
        } else {
            Some(self.root)
        }
    }
}

impl ResolvedToolbox {
    /// Hands the guard to the caller, who then owns the runtime directory.
    /// Only the first call returns it.
    pub fn take_guard(&mut self) -> (guard: Option<ToolboxGuard>)
        ensures
            guard == old(self).guard,
            final(self).guard is None,
            final(self).root == old(self).root,
            final(self).bin == old(self).bin,
            final(self).manifest == old(self).manifest,
            final(self).links == old(self).links,
    {
        self.guard.take()
    }
}

/// The limit that the text `configured` sets, or `fallback` where there is no
/// text or it is no number.
pub open spec fn configured_or(configured: Option<&str>, fallback: u64) -> u64 {
    match configured {
        Some(text) => match parsed_u64(text@) {
            Some(n) => n,
            None => fallback,
        },
        None => fallback,
    }
}

/// The limit on bytes: `max_bytes` where it is a number, else the megabytes
/// of `max_mb`, or of the default, in bytes.
pub open spec fn bytes_limit(max_bytes: Option<&str>, max_mb: Option<&str>) -> int {
    match max_bytes {
        Some(text) if parsed_u64(text@) is Some => parsed_u64(text@)->0 as int,
        _ => configured_or(max_mb, DEFAULT_MAX_MB) * BYTES_PER_MB,
    }
}

fn number_or(configured: Option<&str>, fallback: u64) -> (n: u64)
    ensures
        n == configured_or(configured, fallback),
{
    match configured {
        Some(text) => match parse_u64(text) {
            Some(n) => n,
            None => fallback,
        },
        None => fallback,
    }
}

/// Whether the configured limit on bytes fits in a `u64`.
pub fn limits_fit(max_bytes: Option<&str>, max_mb: Option<&str>) -> (fit: bool)
    ensures
        fit == (bytes_limit(max_bytes, max_mb) <= u64::MAX),
{
    let direct = match max_bytes {
        Some(text) => parse_u64(text),
        None => None,
    };
    match direct {
        Some(_) => true,
        None => number_or(max_mb, DEFAULT_MAX_MB).checked_mul(BYTES_PER_MB).is_some(),
    }
}

/// The limits on files and on bytes, from the texts of the configuration
/// variables for the number of files, the number of bytes and the number of
/// megabytes. A text that is no number counts as absent.
pub fn limits(max_files: Option<&str>, max_bytes: Option<&str>, max_mb: Option<&str>) -> (r: (
    u64,
    u64,
))
    requires
        bytes_limit(max_bytes, max_mb) <= u64::MAX,
    ensures
        r.0 == configured_or(max_files, DEFAULT_MAX_FILES),
        r.1 == bytes_limit(max_bytes, max_mb),
{
    let files = number_or(max_files, DEFAULT_MAX_FILES);
    let direct = match max_bytes {
        Some(text) => parse_u64(text),
        None => None,
    };
    let bytes = match direct {
        Some(n) => n,
        None => number_or(max_mb, DEFAULT_MAX_MB) * BYTES_PER_MB,
    };
    (files, bytes)
}

/// The platform families that differ in how a file gets into the runtime
/// directory.
#[derive(Debug, Clone, Copy, PartialEq, Eq, Structural)]
pub enum Platform {
    Unix,
    Windows,
    Other,
}

/// How one file gets into the runtime directory.
#[derive(Debug, Clone, Copy, PartialEq, Eq, Structural)]
pub enum LinkMethod {
    /// A symbolic link to the file in its root.
    Symlink,
    /// A hard link; where that fails, a copy of the bytes.
    HardLinkThenCopy,
    /// A copy of the bytes.
    Copy,
}

/// Whether files are copied rather than symlinked: only on Windows, and
/// there only where the probe found that a symlink cannot be created.
pub fn copy_mode(platform: Platform, symlink_probe_failed: bool) -> (copy: bool)
    ensures
        copy == (platform == Platform::Windows && symlink_probe_failed),
{
    match platform {
        Platform::Windows => symlink_probe_failed,
        _ => false,
    }
}

/// How a file is linked: in copy mode by hard link and then copy on
/// Windows and by copy elsewhere; else by symlink on Unix and by copy
/// elsewhere.
pub open spec fn link_method(copy_mode: bool, platform: Platform) -> LinkMethod {
    if copy_mode {
        if platform == Platform::Windows {
            LinkMethod::HardLinkThenCopy
        } else {
            LinkMethod::Copy
        }
    } else {
        if platform == Platform::Unix {
            LinkMethod::Symlink
        } else {
            LinkMethod::Copy
        }
    }
}

/// Chooses how a file is linked.
pub fn link_or_copy_file(copy_mode: bool, platform: Platform) -> (method: LinkMethod)
    ensures
        method == link_method(copy_mode, platform),
{
    if copy_mode {
        match platform {
            Platform::Windows => LinkMethod::HardLinkThenCopy,
            _ => LinkMethod::Copy,
        }
    } else {
        match platform {
            Platform::Unix => LinkMethod::Symlink,
            _ => LinkMethod::Copy,
        }
    }
}

/// The BLAKE3 hash of `input`.
pub uninterp spec fn blake3_digest(input: Seq<u8>) -> Seq<u8>;

/// `blake3::hash` computes the BLAKE3 hash of the input, which has 32 bytes.
#[verifier::external_body]
fn blake3_hash(input: &Vec<u8>) -> (out: Vec<u8>)
    ensures
        out@ == blake3_digest(input@),
        out@.len() == 32,
{
    blake3::hash(input.as_slice()).as_bytes().to_vec()
}

/// The lowercase hexadecimal digit for `d`, which is below sixteen.
pub open spec fn hex_digit(d: int) -> char {
    if d == 0 {
        '0'
    } else if d == 1 {
        '1'
    } else if d == 2 {
        '2'
    } else if d == 3 {
        '3'
    } else if d == 4 {
        '4'
    } else if d == 5 {
        '5'
    } else if d == 6 {
        '6'
    } else if d == 7 {
        '7'
    } else if d == 8 {
        '8'
    } else if d == 9 {
        '9'
    } else if d == 10 {
        'a'
    } else if d == 11 {
        'b'
    } else if d == 12 {
        'c'
    } else if d == 13 {
        'd'
    } else if d == 14 {
        'e'
    } else {
        'f'
    }
}

/// `bytes` in lowercase hexadecimal, two digits for each byte.
pub open spec fn hex(bytes: Seq<u8>) -> Seq<char>
    decreases bytes.len(),
{
    if bytes.len() == 0 {
        Seq::empty()
    } else {
        hex(bytes.drop_last()).push(hex_digit(bytes.last() as int / 16)).push(
            hex_digit(bytes.last() as int % 16),
        )
    }
}

/// Hexadecimal text holds no `/`.
pub proof fn lemma_hex_plain(bytes: Seq<u8>)
    ensures
        forall|i: int| 0 <= i < hex(bytes).len() ==> #[trigger] hex(bytes)[i] != '/',
    decreases bytes.len(),
{
    if bytes.len() > 0 {
        let head = hex(bytes.drop_last());
        lemma_hex_plain(bytes.drop_last());
        let high = hex_digit(bytes.last() as int / 16);
        let low = hex_digit(bytes.last() as int % 16);
        assert(hex(bytes) == head.push(high).push(low));
        assert forall|i: int| 0 <= i < hex(bytes).len() implies #[trigger] hex(bytes)[i]
            != '/' by {
            if i < head.len() {
                assert(hex(bytes)[i] == head[i]);
            } else if i == head.len() {
                assert(hex(bytes)[i] == high);
            } else {
                assert(hex(bytes)[i] == low);
            }
        }
    }
}

/// Hexadecimal text is twice as long as the bytes it writes.
pub proof fn lemma_hex_len(bytes: Seq<u8>)
    ensures
        hex(bytes).len() == 2 * bytes.len(),
    decreases bytes.len(),
{
    if bytes.len() > 0 {
        lemma_hex_len(bytes.drop_last());
    }
}

fn hex_char(d: u8) -> (c: char)
    requires
        d < 16,
    ensures
        c == hex_digit(d as int),
{
    if d == 0 {
        '0'
    } else if d == 1 {
        '1'
    } else if d == 2 {
        '2'
    } else if d == 3 {
        '3'
    } else if d == 4 {
        '4'
    } else if d == 5 {
        '5'
    } else if d == 6 {
        '6'
    } else if d == 7 {
        '7'
    } else if d == 8 {
        '8'
    } else if d == 9 {
        '9'
    } else if d == 10 {
        'a'
    } else if d == 11 {
        'b'
    } else if d == 12 {
        'c'
    } else if d == 13 {
        'd'
    } else if d == 14 {
        'e'
    } else {
        'f'
    }
}

/// Writes the first `count` of `bytes` in lowercase hexadecimal.
pub fn hex_string(bytes: &Vec<u8>, count: usize) -> (text: String)
    requires
        count <= bytes.len(),
    ensures
        text@ == hex(bytes@.take(count as int)),
{
    let mut text = String::new();
    let mut i: usize = 0;
    while i < count
        invariant
            i <= count <= bytes.len(),
            text@ == hex(bytes@.take(i as int)),
        decreases count - i,
    {
        let b = bytes[i];
        text.push(hex_char(b / 16));
        text.push(hex_char(b % 16));
        proof {
            assert(bytes@.take(i + 1).drop_last() == bytes@.take(i as int));
            assert(bytes@.take(i + 1).last() == b);
        }
        i += 1;
    }
    text
}

/// What one root adds to the hashed bytes: its path in UTF-8, then its size
/// in eight bytes and, beside a size, its modification time in sixteen, least
/// significant byte first.
pub open spec fn stamp(root: ToolboxRoot) -> Seq<u8> {
    encode_utf8(root.path@) + match root.len {
        None => Seq::<u8>::empty(),
        Some(len) => spec_u64_to_le_bytes(len) + match root.modified_ms {
            None => Seq::<u8>::empty(),
            Some(ms) => spec_u128_to_le_bytes(ms),
        },
    }
}

/// The hashed bytes of a list of roots: their stamps, in order.
pub open spec fn stamps(roots: Seq<ToolboxRoot>) -> Seq<u8>
    decreases roots.len(),
{
    if roots.len() == 0 {
        Seq::empty()
    } else {
        stamps(roots.drop_last()) + stamp(roots.last())
    }
}

/// The name of the runtime directory for `roots`: the first eight bytes of
/// the hash of their stamps, in hexadecimal.
pub open spec fn digest_name(roots: Seq<ToolboxRoot>) -> Seq<char> {
    hex(blake3_digest(stamps(roots)).take(8))
}

fn add_stamp(stream: &mut Vec<u8>, root: &ToolboxRoot)
    ensures
        final(stream)@ == old(stream)@ + stamp(*root),
{
    let mut path = root.path.as_str().as_bytes_vec();
    stream.append(&mut path);
    match root.len {
        Some(len) => {
            let mut size = u64_to_le_bytes(len);
            stream.append(&mut size);
            match root.modified_ms {
                Some(ms) => {
                    let mut time = u128_to_le_bytes(ms);
                    stream.append(&mut time);
                },
                None => {},
            }
        },
        None => {},
    }
    assert(final(stream)@ =~= old(stream)@ + stamp(*root));
}

/// The name of the runtime directory for `roots`: sixteen hexadecimal digits
/// that depend on the paths, sizes and modification times of the roots and
/// on nothing else.
pub fn runtime_digest(roots: &Vec<ToolboxRoot>) -> (name: String)
    ensures
        name@ == digest_name(roots@),
        name@.len() == 16,
        forall|i: int| 0 <= i < name@.len() ==> #[trigger] name@[i] != '/',
{
    let mut stream: Vec<u8> = Vec::new();
    let mut i: usize = 0;
    while i < roots.len()
        invariant
            i <= roots.len(),
            stream@ == stamps(roots@.take(i as int)),
        decreases roots.len() - i,
    {
        add_stamp(&mut stream, &roots[i]);
        proof {
            assert(roots@.take(i + 1).drop_last() == roots@.take(i as int));
            assert(roots@.take(i + 1).last() == roots@[i as int]);
        }
        i += 1;
    }
    assert(roots@.take(roots.len() as int) == roots@);
    let hash = blake3_hash(&stream);
    proof {
        lemma_hex_len(hash@.take(8));
        lemma_hex_plain(hash@.take(8));
    }
    hex_string(&hash, 8)
}

/// The name of the directory of tools, in a root and in the runtime
/// directory.
pub open spec fn bin_name() -> Seq<char> {
    seq!['b', 'i', 'n']
}

/// The path of the entry `rel` below the `bin/` of `root`.
pub open spec fn entry_path(root: Seq<char>, rel: Seq<char>) -> Seq<char> {
    join_path(join_path(root, bin_name()), rel)
}

/// The text of a fault, empty where none was recorded.
pub open spec fn fault_text(fault: Option<String>) -> Seq<char> {
    match fault {
        Some(text) => text@,
        None => Seq::empty(),
    }
}

/// What is wrong with one entry of `root`, if anything: it could not be
/// read, or it is a symlink that could not be resolved, or one that resolves
/// to a place outside `root`.
pub open spec fn entry_fault(root: Seq<char>, entry: WalkEntry) -> Option<Fault> {
    match entry.kind {
        EntryKind::Unreadable => Some(Fault::Io { message: fault_text(entry.fault) }),
        EntryKind::Symlink => match entry.target {
            None => Some(Fault::Io { message: fault_text(entry.fault) }),
            Some(target) => if within(target@, root) {
                None
            } else {
                Some(
                    Fault::SymlinkEscape {
                        symlink: entry_path(root, entry.rel@),
                        target: target@,
                        root,
                    },
                )
            },
        },
        _ => None,
    }
}

/// The fault of the first entry that has one, in walk order.
pub open spec fn first_fault(root: Seq<char>, entries: Seq<WalkEntry>) -> Option<Fault>
    decreases entries.len(),
{
    if entries.len() == 0 {
        None
    } else {
        match first_fault(root, entries.drop_last()) {
            Some(fault) => Some(fault),
            None => entry_fault(root, entries.last()),
        }
    }
}

/// What has been merged so far.
pub struct Tally {
    pub files: nat,
    pub bytes: nat,
    pub steps: Seq<Step>,
    pub labels: Seq<Seq<char>>,
}

/// What a merge is held to: the merged `bin/` and the two limits.
pub struct Terms {
    pub bin: Seq<char>,
    pub max_files: u64,
    pub max_bytes: u64,
}

/// The manifest line of a linked file: the index of its root, the root and
/// the relative path, with `:` between them.
pub open spec fn label(index: int, root: Seq<char>, rel: Seq<char>) -> Seq<char> {
    decimal(index as nat) + seq![':'] + root + seq![':'] + rel
}

/// The link for the file `rel` of the root `root`, which is root `index`.
pub open spec fn step_for(index: int, root: Seq<char>, rel: Seq<char>, bin: Seq<char>) -> Step {
    Step {
        root_index: index,
        source: entry_path(root, rel),
        rel,
        destination: join_path(bin, rel),
    }
}

/// The tally after one more entry. Only regular files count: one whose
/// metadata could not be read fails the merge, as does one that would take
/// the number of files or of bytes over its limit; any other is linked.
pub open spec fn with_entry(tally: Tally, index: int, root: Seq<char>, entry: WalkEntry, terms: Terms)
    -> Result<Tally, Fault> {
    if entry.kind != EntryKind::File {
        Ok(tally)
    } else if entry.fault is Some {
        Err(Fault::Io { message: fault_text(entry.fault) })
    } else if tally.files + 1 > terms.max_files {
        Err(Fault::FileLimit { limit: terms.max_files })
    } else if tally.bytes + entry.size > terms.max_bytes {
        Err(Fault::SizeLimit { limit: terms.max_bytes })
    } else {
        Ok(
            Tally {
                files: tally.files + 1,
                bytes: tally.bytes + entry.size as nat,
                steps: tally.steps.push(step_for(index, root, entry.rel@, terms.bin)),
                labels: tally.labels.push(label(index, root, entry.rel@)),
            },
        )
    }
}

/// The tally after the entries of one root, taken in walk order, or the
/// first failure.
pub open spec fn merge_entries(
    tally: Tally,
    index: int,
    root: Seq<char>,
    entries: Seq<WalkEntry>,
    terms: Terms,
) -> Result<Tally, Fault>
    decreases entries.len(),
{
    if entries.len() == 0 {
        Ok(tally)
    } else {
        match merge_entries(tally, index, root, entries.drop_last(), terms) {
            Err(fault) => Err(fault),
            Ok(before) => with_entry(before, index, root, entries.last(), terms),
        }
    }
}

/// The tally after one root: unchanged where the root has no `bin/`; else
/// every symlink is checked before the first file is merged.
pub open spec fn merge_root(tally: Tally, index: int, root: ToolboxRoot, terms: Terms) -> Result<
    Tally,
    Fault,
> {
    match root.bin {
        None => Ok(tally),
        Some(entries) => match first_fault(root.path@, entries@) {
            Some(fault) => Err(fault),
            None => merge_entries(tally, index, root.path@, entries@, terms),
        },
    }
}

/// The tally after all roots, taken in the caller's order, or the first
/// failure.
pub open spec fn merge_roots(roots: Seq<ToolboxRoot>, terms: Terms) -> Result<Tally, Fault>
    decreases roots.len(),
{
    if roots.len() == 0 {
        Ok(Tally { files: 0, bytes: 0, steps: Seq::empty(), labels: Seq::empty() })
    } else {
        match merge_roots(roots.drop_last(), terms) {
            Err(fault) => Err(fault),
            Ok(before) => merge_root(before, roots.len() - 1, roots.last(), terms),
        }
    }
}

/// The runtime directory for `roots` below `base`.
pub open spec fn runtime_root(base: Seq<char>, roots: Seq<ToolboxRoot>) -> Seq<char> {
    join_path(base, digest_name(roots))
}

/// The `bin/` of the runtime directory for `roots` below `base`.
pub open spec fn runtime_bin(base: Seq<char>, roots: Seq<ToolboxRoot>) -> Seq<char> {
    join_path(runtime_root(base, roots), bin_name())
}

/// The terms of a resolution of `roots` under `settings`.
pub open spec fn terms_of(roots: Seq<ToolboxRoot>, settings: ResolveSettings) -> Terms {
    Terms {
        bin: runtime_bin(settings.base@, roots),
        max_files: settings.max_files,
        max_bytes: settings.max_bytes,
    }
}

/// What resolving `roots` under `settings` comes to: a failure where there
/// is no root, else what merging them gives.
pub open spec fn resolution(roots: Seq<ToolboxRoot>, settings: ResolveSettings) -> Result<
    Tally,
    Fault,
> {
    if roots.len() == 0 {
        Err(Fault::NoRoots)
    } else {
        merge_roots(roots, terms_of(roots, settings))
    }
}

/// The paths of `roots`, in order.
pub open spec fn paths_of(roots: Seq<ToolboxRoot>) -> Seq<Seq<char>> {
    Seq::new(roots.len(), |i: int| roots[i].path@)
}

/// Whether `toolbox` is what a successful resolution of `roots` with the
/// tally `tally` returns.
pub open spec fn resolved_as(
    toolbox: ResolvedToolbox,
    tally: Tally,
    roots: Seq<ToolboxRoot>,
    keep_artifacts: bool,
    settings: ResolveSettings,
) -> bool {
    &&& toolbox.root@ == runtime_root(settings.base@, roots)
    &&& toolbox.bin@ == runtime_bin(settings.base@, roots)
    &&& steps_of(toolbox.links@) == tally.steps
    &&& toolbox.manifest.files_count == tally.files
    &&& toolbox.manifest.bytes_total == tally.bytes
    &&& crate::text::texts(toolbox.manifest.bin_entries@) == tally.labels
    &&& crate::text::texts(toolbox.manifest.sources@) == paths_of(roots)
    &&& toolbox.manifest.copy_mode == settings.copy_mode
    &&& toolbox.guard is Some
    &&& toolbox.guard->0.directory() == toolbox.root@
    &&& toolbox.guard->0.keeps() == keep_artifacts
}

fn bin_of(dir: &str) -> (bin: String)
    ensures
        bin@ == join_path(dir@, bin_name()),
{
    proof {
        reveal_strlit("bin");
        assert("bin"@ =~= bin_name());
    }
    join(dir, "bin")
}

fn path_of_entry(root: &str, rel: &str) -> (path: String)
    ensures
        path@ == entry_path(root@, rel@),
{
    let bin = bin_of(root);
    join(bin.as_str(), rel)
}

fn text_of(fault: &Option<String>) -> (text: String)
    ensures
        text@ == fault_text(*fault),
{
    match fault {
        Some(text) => text.clone(),
        None => String::new(),
    }
}

/// Checks that the symlink at `symlink`, which resolves to the canonical
/// path `target`, stays inside the canonical `root`.
pub fn validate_symlink_security(symlink: &str, target: &str, root: &str) -> (r: Result<
    (),
    ToolboxError,
>)
    ensures
        within(target@, root@) ==> r is Ok,
        !within(target@, root@) ==> r is Err && r->Err_0@ == (Fault::SymlinkEscape {
            symlink: symlink@,
            target: target@,
            root: root@,
        }),
{
    if is_within(target, root) {
        Ok(())
    } else {
        Err(
            ToolboxError::SymlinkEscape {
                symlink: String::from_str(symlink),
                target: String::from_str(target),
                root: String::from_str(root),
            },
        )
    }
}

fn check_entry(root: &str, entry: &WalkEntry) -> (r: Result<(), ToolboxError>)
    ensures
        match entry_fault(root@, *entry) {
            None => r is Ok,
            Some(fault) => r is Err && r->Err_0@ == fault,
        },
{
    match entry.kind {
        EntryKind::Unreadable => Err(ToolboxError::Io { message: text_of(&entry.fault) }),
        EntryKind::Symlink => match &entry.target {
            None => Err(ToolboxError::Io { message: text_of(&entry.fault) }),
            Some(target) => {
                if is_within(target.as_str(), root) {
                    Ok(())
                } else {
                    let symlink = path_of_entry(root, entry.rel.as_str());
                    validate_symlink_security(symlink.as_str(), target.as_str(), root)
                }
            },
        },
        _ => Ok(()),
    }
}

/// Checks every entry below the `bin/` of `root`, in walk order: fails on the
/// first that could not be read and on the first symlink that could not be
/// resolved or resolves to a place outside `root`.
pub fn validate_directory_symlinks(root: &str, entries: &Vec<WalkEntry>) -> (r: Result<
    (),
    ToolboxError,
>)
    ensures
        match first_fault(root@, entries@) {
            None => r is Ok,
            Some(fault) => r is Err && r->Err_0@ == fault,
        },
{
    let mut i: usize = 0;
    while i < entries.len()
        invariant
            i <= entries.len(),
            first_fault(root@, entries@.take(i as int)) is None,
        decreases entries.len() - i,
    {
        proof {
            assert(entries@.take(i + 1).drop_last() == entries@.take(i as int));
            assert(entries@.take(i + 1).last() == entries@[i as int]);
        }
        match check_entry(root, &entries[i]) {
            Ok(()) => {},
            Err(error) => {
                proof {
                    lemma_first_fault_stays(root@, entries@, i + 1);
                }
                return Err(error);
            },
        }
        i += 1;
    }
    assert(entries@.take(entries.len() as int) == entries@);
    Ok(())
}

/// A fault among the first entries is the fault of the whole walk.
proof fn lemma_first_fault_stays(root: Seq<char>, entries: Seq<WalkEntry>, n: int)
    requires
        0 <= n <= entries.len(),
        first_fault(root, entries.take(n)) is Some,
    ensures
        first_fault(root, entries) == first_fault(root, entries.take(n)),
    decreases entries.len() - n,
{
    if n < entries.len() {
        assert(entries.take(n + 1).drop_last() == entries.take(n));
        lemma_first_fault_stays(root, entries, n + 1);
    } else {
        assert(entries.take(n) == entries);
    }
}

/// A failure among the first entries is the failure of the whole merge.
proof fn lemma_merge_entries_stays(
    tally: Tally,
    index: int,
    root: Seq<char>,
    entries: Seq<WalkEntry>,
    terms: Terms,
    n: int,
)
    requires
        0 <= n <= entries.len(),
        merge_entries(tally, index, root, entries.take(n), terms) is Err,
    ensures
        merge_entries(tally, index, root, entries, terms) == merge_entries(
            tally,
            index,
            root,
            entries.take(n),
            terms,
        ),
    decreases entries.len() - n,
{
    if n < entries.len() {
        assert(entries.take(n + 1).drop_last() == entries.take(n));
        lemma_merge_entries_stays(tally, index, root, entries, terms, n + 1);
    } else {
        assert(entries.take(n) == entries);
    }
}

/// A failure among the first roots is the failure of the whole merge.
proof fn lemma_merge_roots_stays(roots: Seq<ToolboxRoot>, terms: Terms, n: int)
    requires
        0 <= n <= roots.len(),
        merge_roots(roots.take(n), terms) is Err,
    ensures
        merge_roots(roots, terms) == merge_roots(roots.take(n), terms),
    decreases roots.len() - n,
{
    if n < roots.len() {
        assert(roots.take(n + 1).drop_last() == roots.take(n));
        lemma_merge_roots_stays(roots, terms, n + 1);
    } else {
        assert(roots.take(n) == roots);
    }
}

struct Merge {
    files_count: u64,
    bytes_total: u64,
    links: Vec<LinkStep>,
    bin_entries: Vec<String>,
}

impl Merge {
    spec fn tally(&self) -> Tally {
        Tally {
            files: self.files_count as nat,
            bytes: self.bytes_total as nat,
            steps: steps_of(self.links@),
            labels: crate::text::texts(self.bin_entries@),
        }
    }

    spec fn within_limits(&self, terms: Terms) -> bool {
        self.files_count <= terms.max_files && self.bytes_total <= terms.max_bytes
    }

    fn add_entry(
        &mut self,
        index: usize,
        root: &str,
        entry: &WalkEntry,
        bin: &str,
        settings: &ResolveSettings,
        Ghost(terms): Ghost<Terms>,
    ) -> (r: Result<(), ToolboxError>)
        requires
            old(self).within_limits(terms),
            terms.bin == bin@,
            terms.max_files == settings.max_files,
            terms.max_bytes == settings.max_bytes,
        ensures
            match with_entry(old(self).tally(), index as int, root@, *entry, terms) {
                Ok(tally) => r is Ok && final(self).tally() == tally && final(self).within_limits(
                    terms,
                ),
                Err(fault) => r is Err && r->Err_0@ == fault,
            },
    {
        if entry.kind != EntryKind::File {
            return Ok(());
        }
        if entry.fault.is_some() {
            return Err(ToolboxError::Io { message: text_of(&entry.fault) });
        }
        if self.files_count >= settings.max_files {
            return Err(ToolboxError::FileLimit { limit: settings.max_files });
        }
        if entry.size > settings.max_bytes - self.bytes_total {
            return Err(ToolboxError::SizeLimit { limit: settings.max_bytes });
        }
        let step = LinkStep {
            root_index: index,
            source: path_of_entry(root, entry.rel.as_str()),
            rel: entry.rel.clone(),
            destination: join(bin, entry.rel.as_str()),
        };
        let mut line = decimal_string(index as u64);
        line.push(':');
        line.append(root);
        line.push(':');
        line.append(entry.rel.as_str());
        proof {
            assert(line@ =~= label(index as int, root@, entry.rel@));
            assert(steps_of(self.links@.push(step)) =~= steps_of(self.links@).push(step@));
            assert(crate::text::texts(self.bin_entries@.push(line)) =~= crate::text::texts(
                self.bin_entries@,
            ).push(line@));
        }
        self.links.push(step);
        self.bin_entries.push(line);
        self.files_count = self.files_count + 1;
        self.bytes_total = self.bytes_total + entry.size;
        Ok(())
    }

    fn merge_bin(
        &mut self,
        index: usize,
        root: &str,
        entries: &Vec<WalkEntry>,
        bin: &str,
        settings: &ResolveSettings,
        Ghost(terms): Ghost<Terms>,
    ) -> (r: Result<(), ToolboxError>)
        requires
            old(self).within_limits(terms),
            terms.bin == bin@,
            terms.max_files == settings.max_files,
            terms.max_bytes == settings.max_bytes,
        ensures
            match merge_entries(old(self).tally(), index as int, root@, entries@, terms) {
                Ok(tally) => r is Ok && final(self).tally() == tally && final(self).within_limits(
                    terms,
                ),
                Err(fault) => r is Err && r->Err_0@ == fault,
            },
    {
        let ghost start = self.tally();
        let mut i: usize = 0;
        while i < entries.len()
            invariant
                i <= entries.len(),
                start == old(self).tally(),
                self.within_limits(terms),
                terms.bin == bin@,
                terms.max_files == settings.max_files,
                terms.max_bytes == settings.max_bytes,
                merge_entries(start, index as int, root@, entries@.take(i as int), terms) == Ok::<
                    Tally,
                    Fault,
                >(self.tally()),
            decreases entries.len() - i,
        {
            proof {
                assert(entries@.take(i + 1).drop_last() == entries@.take(i as int));
                assert(entries@.take(i + 1).last() == entries@[i as int]);
            }
            match self.add_entry(index, root, &entries[i], bin, settings, Ghost(terms)) {
                Ok(()) => {},
                Err(error) => {
                    proof {
                        lemma_merge_entries_stays(
                            start,
                            index as int,
                            root@,
                            entries@,
                            terms,
                            i + 1,
                        );
                    }
                    return Err(error);
                },
            }
            i += 1;
        }
        assert(entries@.take(entries.len() as int) == entries@);
        Ok(())
    }
}

/// Merges the toolboxes `roots` into one runtime directory below
/// `settings.base`, named by sixteen hexadecimal digits. The roots are taken in the caller's order, so that of
/// two files with the same relative path the one of the later root is linked
/// last and stays. Fails where there is no root, on the first entry that the
/// walk could not read, on the first symlink that leaves its root, and on the
/// first file that would exceed a limit.
pub fn resolve_toolboxes(
    roots: &Vec<ToolboxRoot>,
    keep_artifacts: bool,
    settings: &ResolveSettings,
) -> (r: Result<ResolvedToolbox, ToolboxError>)
    ensures
        match resolution(roots@, *settings) {
            Ok(tally) => r is Ok && resolved_as(
                r->Ok_0,
                tally,
                roots@,
                keep_artifacts,
                *settings,
            ),
            Err(fault) => r is Err && r->Err_0@ == fault,
        },
        r matches Ok(toolbox) ==> digest_name(roots@).len() == 16 && toolbox.bin@ == toolbox.root@
            + "/bin"@,
{
    if roots.len() == 0 {
        return Err(ToolboxError::NoRoots);
    }
    let digest = runtime_digest(roots);
    let root_dir = join(settings.base.as_str(), digest.as_str());
    let bin_dir = bin_of(root_dir.as_str());
    proof {
        reveal_strlit("/bin");
        assert(digest@[0] != '/');
        assert(root_dir@.len() > 0 && root_dir@.last() == digest@[15]);
        assert(bin_dir@ =~= root_dir@ + "/bin"@);
    }
    let ghost terms = terms_of(roots@, *settings);
    let mut merge = Merge {
        files_count: 0,
        bytes_total: 0,
        links: Vec::new(),
        bin_entries: Vec::new(),
    };
    let mut sources: Vec<String> = Vec::new();
    let mut i: usize = 0;
    proof {
        assert(steps_of(merge.links@) =~= Seq::<Step>::empty());
        assert(crate::text::texts(merge.bin_entries@) =~= Seq::<Seq<char>>::empty());
        assert(crate::text::texts(sources@) =~= paths_of(roots@.take(0)));
    }
    while i < roots.len()
        invariant
            i <= roots.len(),
            terms == terms_of(roots@, *settings),
            terms.bin == bin_dir@,
            merge.within_limits(terms),
            merge_roots(roots@.take(i as int), terms) == Ok::<Tally, Fault>(merge.tally()),
            sources.len() == i,
            crate::text::texts(sources@) == paths_of(roots@.take(i as int)),
        decreases roots.len() - i,
    {
        let root = &roots[i];
        proof {
            assert(roots@.take(i + 1).drop_last() == roots@.take(i as int));
            assert(roots@.take(i + 1).last() == roots@[i as int]);
            let grown = crate::text::texts(sources@.push(root.path));
            assert forall|j: int| 0 <= j < i + 1 implies grown[j] == paths_of(
                roots@.take(i + 1),
            )[j] by {
                if j < i {
                    assert(crate::text::texts(sources@)[j] == paths_of(roots@.take(i as int))[j]);
                }
            }
            assert(grown =~= paths_of(roots@.take(i + 1)));
        }
        sources.push(root.path.clone());
        match &root.bin {
            None => {},
            Some(entries) => {
                let checked = validate_directory_symlinks(root.path.as_str(), entries);
                let merged = match checked {
                    Err(error) => Err(error),
                    Ok(()) => merge.merge_bin(
                        i,
                        root.path.as_str(),
                        entries,
                        bin_dir.as_str(),
                        settings,
                        Ghost(terms),
                    ),
                };
                match merged {
                    Ok(()) => {},
                    Err(error) => {
                        proof {
                            lemma_merge_roots_stays(roots@, terms, i + 1);
                        }
                        return Err(error);
                    },
                }
            },
        }
        i += 1;
    }
    assert(roots@.take(roots.len() as int) == roots@);
    let guard = ToolboxGuard::new(root_dir.clone(), keep_artifacts);
    let manifest = ToolboxManifest {
        sources,
        files_count: merge.files_count,
        bytes_total: merge.bytes_total,
        copy_mode: settings.copy_mode,
        bin_entries: merge.bin_entries,
    };
    Ok(
        ResolvedToolbox {
            root: root_dir,
            bin: bin_dir,
            manifest,
            links: merge.links,
            guard: Some(guard),
        },
    )
}

} // verus!
