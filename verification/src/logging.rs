//! Where log lines go: rotation of the log file, and the line that reports a
//! failed start.
use vstd::prelude::*;
use vstd::string::*;

use crate::config::Platform;
use crate::paths;
use crate::platform_paths;
use crate::text;
use crate::values;
use crate::windows_paths;

verus! {

/// The size that a log file is not to grow beyond.
pub const DEFAULT_LOG_ROTATE_BYTES: u64 = 10_485_760;

/// The name that a log file is moved to.
pub open spec fn rotated_path(path: Seq<char>, platform: Platform) -> Seq<char> {
    let name = match platform_paths::file_name_of(path, platform) {
        Some(name) => name,
        None => "narrowd.log"@,
    } + ".1"@;
    match platform_paths::parent_of(path, platform) {
        Some(dir) => platform_paths::appended(dir, name, platform),
        None => name,
    }
}

pub fn rotated_log_path(path: &str, platform: Platform) -> (r: String)
    ensures
        r@ == rotated_path(path@, platform),
{
    let p = text::chars_of(path);
    let mut name = match platform_paths::file_name(&p, platform) {
        Some(name) => name,
        None => text::chars_of("narrowd.log"),
    };
    text::push_all(&mut name, &text::chars_of(".1"));
    match platform_paths::parent_path(&p, platform) {
        Some(dir) => text::string_of(&platform_paths::join_path(&dir, &name, platform)),
        None => text::string_of(&name),
    }
}

/// The text of an optional path.
pub open spec fn path_text(p: Option<String>) -> Option<Seq<char>> {
    match p {
        Some(p) => Some(p@),
        None => None,
    }
}

/// The directory that has to exist before a log file is opened.
pub fn log_directory(path: &str, platform: Platform) -> (r: Option<String>)
    ensures
        path_text(r) == platform_paths::parent_of(path@, platform),
{
    match platform_paths::parent_path(&text::chars_of(path), platform) {
        Some(dir) => Some(text::string_of(&dir)),
        None => None,
    }
}

/// A line to append to a file.
#[derive(Debug)]
pub struct LogLine {
    /// The directory to create first, if any.
    pub directory: Option<String>,
    pub path: String,
    pub line: String,
}

/// What a `LogLine` says.
pub struct LogLineView {
    pub directory: Option<Seq<char>>,
    pub path: Seq<char>,
    pub line: Seq<char>,
}

impl View for LogLine {
    type V = LogLineView;

    open spec fn view(&self) -> LogLineView {
        LogLineView {
            directory: path_text(self.directory),
            path: self.path@,
            line: self.line@,
        }
    }
}

/// The text of an optional line.
pub open spec fn line_view(line: Option<LogLine>) -> Option<LogLineView> {
    match line {
        Some(line) => Some(line@),
        None => None,
    }
}

/// The line that reports why the daemon did not start, and the file that it is
/// appended to; nothing without a log file.
pub open spec fn bootstrap_note(
    path: Option<Seq<char>>,
    message: Seq<char>,
    platform: Platform,
) -> Option<LogLineView> {
    match path {
        Some(path) => Some(
            LogLineView {
                directory: platform_paths::parent_of(path, platform),
                path,
                line: "narrowd bootstrap error: "@ + message + "\n"@,
            },
        ),
        None => None,
    }
}

/// The text of an optional borrowed path.
pub open spec fn str_text(p: Option<&str>) -> Option<Seq<char>> {
    match p {
        Some(p) => Some(p@),
        None => None,
    }
}

pub fn append_bootstrap_error(path: Option<&str>, message: &str, platform: Platform) -> (r: Option<
    LogLine,
>)
    ensures
        line_view(r) == bootstrap_note(str_text(path), message@, platform),
{
    match path {
        Some(path) => {
            let mut line = values::sentence("narrowd bootstrap error: ", message);
            line.append("\n");
            Some(
                LogLine {
                    directory: log_directory(path, platform),
                    path: String::from_str(path),
                    line,
                },
            )
        },
        None => None,
    }
}

/// A log file that is moved aside when it would grow too large.
#[derive(Debug)]
pub struct RotatingLogFile {
    path: String,
    rotated_path: String,
    max_bytes: u64,
    current_len: u64,
}

/// What a `RotatingLogFile` knows.
pub struct LogFileView {
    pub path: Seq<char>,
    pub max_bytes: u64,
    pub current_len: u64,
}

impl View for RotatingLogFile {
    type V = LogFileView;

    closed spec fn view(&self) -> LogFileView {
        LogFileView {
            path: self.path@,
            max_bytes: self.max_bytes,
            current_len: self.current_len,
        }
    }
}

impl LogFileView {
    /// Whether the file has to be moved aside before `incoming` bytes are
    /// written: it holds something, and would grow beyond its limit.
    pub open spec fn must_rotate(self, incoming: nat) -> bool {
        incoming > 0 && self.current_len > 0 && self.grown(incoming).current_len > self.max_bytes
    }

    /// The file after `written` more bytes; a length beyond the largest number
    /// stays there.
    pub open spec fn grown(self, written: nat) -> LogFileView {
        LogFileView {
            current_len: if self.current_len + written <= u64::MAX {
                (self.current_len + written) as u64
            } else {
                u64::MAX
            },
            ..self
        }
    }
}

impl RotatingLogFile {
    /// The name that the file is moved to.
    pub closed spec fn aside(self) -> Seq<char> {
        self.rotated_path@
    }

    /// A log file that holds `current_len` bytes.
    pub fn new(path: String, max_bytes: u64, current_len: u64, platform: Platform) -> (r: Self)
        ensures
            r@ == (LogFileView { path: path@, max_bytes, current_len }),
            r.aside() == rotated_path(path@, platform),
    {
        let rotated_path = rotated_log_path(path.as_str(), platform);
        RotatingLogFile { path, rotated_path, max_bytes, current_len }
    }

    pub fn path(&self) -> (r: &str)
        ensures
            r@ == self@.path,
    {
        self.path.as_str()
    }

    pub fn rotated_path(&self) -> (r: &str)
        ensures
            r@ == self.aside(),
    {
        self.rotated_path.as_str()
    }

    /// Whether the file has to be moved aside before so many bytes are written.
    pub fn rotate_if_needed(&self, incoming_len: usize) -> (r: bool)
        ensures
            r == self@.must_rotate(incoming_len as nat),
    {
        !(incoming_len == 0 || self.current_len == 0 || self.current_len.saturating_add(
            incoming_len as u64,
        ) <= self.max_bytes)
    }

    /// The file has been moved aside; the one in its place holds `len` bytes.
    pub fn reopened(&mut self, len: u64)
        ensures
            final(self)@ == (LogFileView { current_len: len, ..old(self)@ }),
            final(self).aside() == old(self).aside(),
    {
        self.current_len = len;
    }

    /// So many bytes have been written.
    pub fn wrote(&mut self, written: usize)
        ensures
            final(self)@ == old(self)@.grown(written as nat),
            final(self).aside() == old(self).aside(),
    {
        self.current_len = self.current_len.saturating_add(written as u64);
    }
}

/// A log file never grows beyond its limit, but for a single line that is
/// itself longer than the limit: a write that needs no rotation, and one into
/// the empty file that a rotation leaves, keep the length within the larger of
/// the two.
pub proof fn law_log_file_stays_bounded(f: LogFileView, incoming: nat, written: nat)
    requires
        written <= incoming,
        f.current_len <= f.max_bytes,
    ensures
        ({
            let before = if f.must_rotate(incoming) {
                LogFileView { current_len: 0, ..f }
            } else {
                f
            };
            before.grown(written).current_len <= f.max_bytes || before.grown(written).current_len
                <= incoming
        }),
{
}

/// The log file is moved aside before a line that would make it grow beyond its
/// limit, unless it is empty or there is no line.
pub proof fn law_log_is_moved_aside_before_it_is_too_large(
    f: &RotatingLogFile,
    incoming: usize,
    moves: bool,
)
    requires
        call_ensures(RotatingLogFile::rotate_if_needed, (f, incoming), moves),
        f@.max_bytes < u64::MAX,
    ensures
        moves <==> incoming > 0 && f@.current_len > 0 && f@.current_len + incoming > f@.max_bytes,
        DEFAULT_LOG_ROTATE_BYTES == 10 * 1024 * 1024,
{
}

/// A log file is as long as it was, and what is written to it makes it longer by
/// as much; the one that takes its place is as long as it is found.
pub proof fn law_log_grows_by_what_is_written(
    path: String,
    max_bytes: u64,
    len: u64,
    platform: Platform,
    f: RotatingLogFile,
    written: &mut RotatingLogFile,
    n: usize,
    reopened: &mut RotatingLogFile,
    told: &str,
)
    requires
        call_ensures(RotatingLogFile::new, (path, max_bytes, len, platform), f),
        call_ensures(RotatingLogFile::wrote, (written, n), ()),
        call_ensures(RotatingLogFile::reopened, (reopened, len), ()),
        call_ensures(RotatingLogFile::path, (&f,), told),
        old(written)@.current_len + n <= u64::MAX,
    ensures
        f@ == (LogFileView { path: path@, max_bytes, current_len: len }),
        told@ == path@,
        final(written)@.current_len == old(written)@.current_len + n,
        final(written)@.max_bytes == old(written)@.max_bytes,
        final(written)@.path == old(written)@.path,
        final(reopened)@.current_len == len,
        final(reopened)@.max_bytes == old(reopened)@.max_bytes,
        final(reopened)@.path == old(reopened)@.path,
{
}

/// A log file is moved to its own name with `.1` behind it, in its own
/// directory, which is the one that has to exist for it.
pub proof fn law_log_moves_within_its_directory(
    path: &str,
    d: Seq<char>,
    name: Seq<char>,
    platform: Platform,
    moved: String,
    dir: Option<String>,
)
    requires
        call_ensures(rotated_log_path, (path, platform), moved),
        call_ensures(log_directory, (path, platform), dir),
        platform is Unix ==> paths::directory_named(d) && d.len() > 1 && paths::file_named(name)
            && path@ == d + seq!['/'] + name,
        platform is Windows ==> windows_paths::directory_named(d) && d.len() > 3
            && windows_paths::file_named(name) && path@ == d + seq!['\\'] + name,
    ensures
        moved@ == path@ + seq!['.', '1'],
        dir is Some && dir->0@ == d,
{
    reveal_strlit(".1");
    let more = seq!['.', '1'];
    assert(".1"@ =~= more);
    let longer = name + more;
    assert(longer[longer.len() - 1] == '1');
    match platform {
        Platform::Unix => {
            paths::lemma_named_below(d, name);
            assert(longer[0] == name[0]);
            assert(d.push('/') + longer =~= path@ + more);
        },
        Platform::Windows => {
            windows_paths::lemma_named_below(d, name);
            assert(longer[0] == name[0]);
            assert(longer.len() >= 2 ==> longer[1] != ':') by {
                if name.len() == 1 {
                    assert(longer[1] == '.');
                } else {
                    assert(longer[1] == name[1]);
                }
            }
            assert(d.push('\\') + longer =~= path@ + more);
        },
    }
}

/// Why the daemon did not start is appended to the log file as one line, with
/// the error itself in it; without a log file nothing is.
pub proof fn law_failed_start_is_noted(
    path: Option<&str>,
    message: &str,
    platform: Platform,
    note: Option<LogLine>,
    dir: Option<String>,
)
    requires
        call_ensures(append_bootstrap_error, (path, message, platform), note),
        path is Some ==> call_ensures(log_directory, (path->0, platform), dir),
    ensures
        note is Some == path is Some,
        note is Some ==> note->0.path@ == path->0@ && note->0.line@ == "narrowd bootstrap error: "@
            + message@ + "\n"@,
        note is Some ==> note->0.directory is Some == dir is Some && (dir is Some
            ==> note->0.directory->0@ == dir->0@),
{
    if let Some(line) = note {
        assert(line_view(note) == Some(line@));
        assert(path_text(line.directory) == line@.directory);
    }
}

/// A log file knows the name that it is moved to.
pub proof fn law_log_knows_where_it_moves(
    path: String,
    max_bytes: u64,
    len: u64,
    platform: Platform,
    f: RotatingLogFile,
    aside: &str,
    name: &str,
    moved: String,
)
    requires
        call_ensures(RotatingLogFile::new, (path, max_bytes, len, platform), f),
        call_ensures(RotatingLogFile::rotated_path, (&f,), aside),
        name@ == path@,
        call_ensures(rotated_log_path, (name, platform), moved),
    ensures
        aside@ == moved@,
{
}

} // verus!
