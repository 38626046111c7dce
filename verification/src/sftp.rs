//! File access over the SFTP subsystem: paths, handles and answers.
use std::collections::HashMap;

use vstd::prelude::*;
use vstd::string::*;

use crate::config::Platform;
use crate::native_paths;
use crate::paths;
use crate::platform_paths;
use crate::text;

verus! {

/// The largest number of bytes that one read hands out.
pub const MAX_SFTP_READ_LEN: u32 = 1_048_576;

/// The codes of SFTP answers.
#[verifier::external_type_specification]
pub struct ExStatusCode(russh_sftp::protocol::StatusCode);

/// An SFTP answer that carries a code.
#[verifier::external_type_specification]
pub struct ExStatus(russh_sftp::protocol::Status);

/// A code, with words to it where there are some.
#[verifier::external_type_specification]
pub struct ExStatusReply(russh_sftp::server::StatusReply);

pub fn ok_status(id: u32) -> (r: russh_sftp::protocol::Status)
    ensures
        r.id == id,
        r.status_code == russh_sftp::protocol::StatusCode::Ok,
        r.error_message@ == "Ok"@,
        r.language_tag@ == "en-US"@,
{
    russh_sftp::protocol::Status {
        id,
        status_code: russh_sftp::protocol::StatusCode::Ok,
        error_message: String::from_str("Ok"),
        language_tag: String::from_str("en-US"),
    }
}

/// What an answer with a code says.
pub open spec fn says(
    reply: russh_sftp::server::StatusReply,
    code: russh_sftp::protocol::StatusCode,
    message: Option<Seq<char>>,
) -> bool {
    &&& reply.status_code == code
    &&& reply.language_tag is None
    &&& match (reply.error_message, message) {
        (Some(text), Some(message)) => text@ == message,
        (None, None) => true,
        _ => false,
    }
}

fn bare(code: russh_sftp::protocol::StatusCode) -> (r: russh_sftp::server::StatusReply)
    ensures
        says(r, code, None),
{
    russh_sftp::server::StatusReply { status_code: code, error_message: None, language_tag: None }
}

fn with_message(code: russh_sftp::protocol::StatusCode, message: &str) -> (r:
    russh_sftp::server::StatusReply)
    ensures
        says(r, code, Some(message@)),
{
    russh_sftp::server::StatusReply {
        status_code: code,
        error_message: Some(String::from_str(message)),
        language_tag: None,
    }
}

/// The answer to a request that the daemon does not serve.
pub fn unimplemented() -> (r: russh_sftp::server::StatusReply)
    ensures
        says(r, russh_sftp::protocol::StatusCode::OpUnsupported, None),
{
    bare(russh_sftp::protocol::StatusCode::OpUnsupported)
}

/// The kinds of system errors that have an answer of their own.
#[derive(Clone, Copy, Debug, PartialEq, Eq, Structural)]
pub enum IoErrorKind {
    NotFound,
    PermissionDenied,
    AlreadyExists,
    UnexpectedEof,
    Other,
}

/// The code that a system error is answered with.
pub open spec fn error_code(kind: IoErrorKind) -> russh_sftp::protocol::StatusCode {
    match kind {
        IoErrorKind::NotFound => russh_sftp::protocol::StatusCode::NoSuchFile,
        IoErrorKind::PermissionDenied => russh_sftp::protocol::StatusCode::PermissionDenied,
        IoErrorKind::AlreadyExists => russh_sftp::protocol::StatusCode::Failure,
        IoErrorKind::UnexpectedEof => russh_sftp::protocol::StatusCode::Eof,
        IoErrorKind::Other => russh_sftp::protocol::StatusCode::Failure,
    }
}

/// The answer to a request that failed with a system error.
pub fn io_error_to_status(kind: IoErrorKind, message: &str) -> (r: russh_sftp::server::StatusReply)
    ensures
        says(r, error_code(kind), Some(message@)),
{
    let code = match kind {
        IoErrorKind::NotFound => russh_sftp::protocol::StatusCode::NoSuchFile,
        IoErrorKind::PermissionDenied => russh_sftp::protocol::StatusCode::PermissionDenied,
        IoErrorKind::AlreadyExists => russh_sftp::protocol::StatusCode::Failure,
        IoErrorKind::UnexpectedEof => russh_sftp::protocol::StatusCode::Eof,
        IoErrorKind::Other => russh_sftp::protocol::StatusCode::Failure,
    };
    with_message(code, message)
}

/// The name of the handle with a number.
pub open spec fn handle_name(number: nat) -> Seq<char> {
    seq!['h'] + text::decimal(number)
}

fn name_handle(number: u64) -> (r: String)
    ensures
        r@ == handle_name(number as nat),
{
    let mut name: Vec<char> = Vec::new();
    name.push('h');
    assert(name@ =~= seq!['h']);
    let digits = text::decimal_of(number);
    text::push_all(&mut name, &text::chars_of(digits.as_str()));
    text::string_of(&name)
}

/// Different handles have different names.
pub proof fn law_handle_names_differ(a: nat, b: nat)
    ensures
        handle_name(a) == handle_name(b) <==> a == b,
{
    if handle_name(a) == handle_name(b) {
        let max = if a < b {
            b
        } else {
            a
        };
        assert(handle_name(a).skip(1) =~= text::decimal(a));
        assert(handle_name(b).skip(1) =~= text::decimal(b));
        text::law_decimal_reads_back(a, max);
        text::law_decimal_reads_back(b, max);
    }
}

/// The number of the handle with a name, if there can be such a handle.
fn handle_number(name: &str) -> (r: Option<u64>)
    ensures
        match r {
            Some(n) => name@ == handle_name(n as nat),
            None => forall|n: u64| name@ != #[trigger] handle_name(n as nat),
        },
{
    let v = text::chars_of(name);
    if v.len() > 0 && v[0] == 'h' {
        let rest = text::piece(&v, 1, v.len());
        assert(rest@ =~= v@.skip(1));
        proof {
            assert forall|n: u64| name@ == #[trigger] handle_name(n as nat) implies rest@
                == text::decimal(n as nat) by {
                assert(handle_name(n as nat).skip(1) =~= text::decimal(n as nat));
            }
        }
        match text::parse_unsigned(&rest, u64::MAX) {
            Ok(n) => {
                let digits = text::decimal_of(n);
                if text::same_text(&text::chars_of(digits.as_str()), &rest) {
                    assert(v@ =~= handle_name(n as nat));
                    return Some(n);
                }
                proof {
                    assert forall|m: u64| name@ != #[trigger] handle_name(m as nat) by {
                        if name@ == handle_name(m as nat) {
                            text::law_decimal_reads_back(m as nat, u64::MAX as nat);
                        }
                    }
                }
            },
            Err(_) => {
                proof {
                    assert forall|m: u64| name@ != #[trigger] handle_name(m as nat) by {
                        if name@ == handle_name(m as nat) {
                            text::law_decimal_reads_back(m as nat, u64::MAX as nat);
                        }
                    }
                }
            },
        }
    } else {
        proof {
            assert forall|m: u64| name@ != #[trigger] handle_name(m as nat) by {
                assert(handle_name(m as nat)[0] == 'h');
            }
        }
    }
    None
}

/// What a handle stands for.
#[derive(Debug)]
pub enum HandleKind {
    File,
    Dir { path: String },
}

/// What a `HandleKind` says.
pub enum HandleView {
    File,
    Dir { path: Seq<char> },
}

impl View for HandleKind {
    type V = HandleView;

    open spec fn view(&self) -> HandleView {
        match self {
            HandleKind::File => HandleView::File,
            HandleKind::Dir { path } => HandleView::Dir { path: path@ },
        }
    }
}

/// The handles of an SFTP session and the directory that its paths start at.
pub struct LocalSftp {
    root_dir: String,
    platform: Platform,
    handles: HashMap<u64, HandleKind>,
    next_handle_id: u64,
}

/// What an SFTP session holds.
pub struct SftpView {
    pub root: Seq<char>,
    /// Whose rules the paths follow.
    pub platform: Platform,
    /// The open handles by their numbers.
    pub handles: Map<u64, HandleView>,
    /// The number of the handle that was given out last.
    pub last: u64,
}

impl View for LocalSftp {
    type V = SftpView;

    closed spec fn view(&self) -> SftpView {
        SftpView {
            root: self.root_dir@,
            platform: self.platform,
            handles: self.handles@.map_values(|k: HandleKind| k@),
            last: self.next_handle_id,
        }
    }
}

impl SftpView {
    /// Whether every open handle has been given out.
    pub open spec fn well_formed(self) -> bool {
        forall|n: u64| #[trigger] self.handles.contains_key(n) ==> 0 < n <= self.last
    }

    /// The file that a client's path names.
    pub open spec fn resolved(self, path: Seq<char>) -> Seq<char> {
        let p = native_paths::quoted(path);
        if platform_paths::absolute(p, self.platform) {
            platform_paths::normalized(seq!['/'], p, self.platform)
        } else {
            platform_paths::normalized(self.root, p, self.platform)
        }
    }

    /// Whether `name` is the name of an open handle, and of which.
    pub open spec fn names(self, name: Seq<char>, number: u64) -> bool {
        name == handle_name(number as nat) && self.handles.contains_key(number)
    }

    /// Whether no open handle has this name.
    pub open spec fn unknown(self, name: Seq<char>) -> bool {
        forall|n: u64| !#[trigger] self.names(name, n)
    }

    /// Whether `name` is the name of an open file.
    pub open spec fn names_file(self, name: Seq<char>) -> bool {
        exists|n: u64| #[trigger] self.names(name, n) && self.handles[n] is File
    }

    /// Whether `name` is the name of an open directory.
    pub open spec fn names_dir(self, name: Seq<char>) -> bool {
        exists|n: u64| #[trigger] self.names(name, n) && self.handles[n] is Dir
    }

    /// The session with one more handle.
    pub open spec fn opened(self, kind: HandleView) -> SftpView {
        let number = (self.last + 1) as u64;
        SftpView { handles: self.handles.insert(number, kind), last: number, ..self }
    }
}

/// The answer to a request that names no open handle.
pub open spec fn is_unknown_handle(reply: russh_sftp::server::StatusReply) -> bool {
    says(reply, russh_sftp::protocol::StatusCode::NoSuchFile, Some("unknown SFTP handle"@))
}

fn unknown_handle() -> (r: russh_sftp::server::StatusReply)
    ensures
        is_unknown_handle(r),
{
    with_message(russh_sftp::protocol::StatusCode::NoSuchFile, "unknown SFTP handle")
}

impl LocalSftp {
    pub fn new(root_dir: String, platform: Platform) -> (r: Self)
        ensures
            r@ == (SftpView { root: root_dir@, platform, handles: Map::empty(), last: 0 }),
            r@.well_formed(),
    {
        broadcast use vstd::std_specs::hash::group_hash_axioms;
        let r = LocalSftp { root_dir, platform, handles: HashMap::new(), next_handle_id: 0 };
        assert(r@.handles =~= Map::<u64, HandleView>::empty());
        r
    }

    /// The file that a client's path names.
    pub fn resolve_path(&self, path: &str) -> (r: String)
        ensures
            r@ == self@.resolved(path@),
    {
        let p = native_paths::quote(text::chars_of(path));
        let base = if platform_paths::is_absolute(&p, self.platform) {
            let mut root: Vec<char> = Vec::new();
            root.push('/');
            assert(root@ =~= seq!['/']);
            root
        } else {
            text::chars_of(self.root_dir.as_str())
        };
        text::string_of(&platform_paths::normalize_path(&base, &p, self.platform))
    }

    fn make_handle(&mut self, kind: HandleKind) -> (r: String)
        requires
            old(self)@.last < u64::MAX,
        ensures
            final(self)@ == old(self)@.opened(kind@),
            r@ == handle_name(final(self)@.last as nat),
    {
        broadcast use vstd::std_specs::hash::group_hash_axioms;
        self.next_handle_id = self.next_handle_id + 1;
        let ghost k = kind@;
        self.handles.insert(self.next_handle_id, kind);
        assert(self@.handles =~= old(self)@.opened(k).handles);
        name_handle(self.next_handle_id)
    }

    /// Gives out a handle for a file that has been opened.
    pub fn opened_file(&mut self) -> (r: String)
        requires
            old(self)@.last < u64::MAX,
        ensures
            final(self)@ == old(self)@.opened(HandleView::File),
            r@ == handle_name(final(self)@.last as nat),
            old(self)@.well_formed() ==> final(self)@.well_formed(),
    {
        self.make_handle(HandleKind::File)
    }

    /// Gives out a handle for a directory that has been opened.
    pub fn opened_dir(&mut self, path: String) -> (r: String)
        requires
            old(self)@.last < u64::MAX,
        ensures
            final(self)@ == old(self)@.opened(HandleView::Dir { path: path@ }),
            r@ == handle_name(final(self)@.last as nat),
            old(self)@.well_formed() ==> final(self)@.well_formed(),
    {
        self.make_handle(HandleKind::Dir { path })
    }

    /// Finds the open handle with a name.
    fn find(&self, handle: &str) -> (r: Option<u64>)
        ensures
            match r {
                Some(n) => self@.names(handle@, n),
                None => self@.unknown(handle@),
            },
    {
        broadcast use vstd::std_specs::hash::group_hash_axioms;
        match handle_number(handle) {
            Some(n) => {
                if self.handles.contains_key(&n) {
                    Some(n)
                } else {
                    proof {
                        assert forall|m: u64| !#[trigger] self@.names(handle@, m) by {
                            law_handle_names_differ(m as nat, n as nat);
                        }
                    }
                    None
                }
            },
            None => None,
        }
    }

    /// Forgets a handle; its number comes back so that what it stands for can
    /// be closed.
    pub fn close(&mut self, id: u32, handle: &str) -> (r: Result<
        (u64, russh_sftp::protocol::Status),
        russh_sftp::server::StatusReply,
    >)
        ensures
            match r {
                Ok((n, status)) => {
                    &&& old(self)@.names(handle@, n)
                    &&& final(self)@ == (SftpView {
                        handles: old(self)@.handles.remove(n),
                        ..old(self)@
                    })
                    &&& status.id == id
                    &&& status.status_code == russh_sftp::protocol::StatusCode::Ok
                    &&& status.error_message@ == "Ok"@
                    &&& status.language_tag@ == "en-US"@
                },
                Err(e) => {
                    &&& old(self)@.unknown(handle@)
                    &&& final(self)@ == old(self)@
                    &&& is_unknown_handle(e)
                },
            },
            old(self)@.well_formed() ==> final(self)@.well_formed(),
    {
        broadcast use vstd::std_specs::hash::group_hash_axioms;
        match self.find(handle) {
            Some(n) => {
                self.handles.remove(&n);
                assert(self@.handles =~= old(self)@.handles.remove(n));
                Ok((n, ok_status(id)))
            },
            None => Err(unknown_handle()),
        }
    }

    /// The open file that a read or a write goes to.
    pub fn file_handle(&self, handle: &str) -> (r: Result<u64, russh_sftp::server::StatusReply>)
        ensures
            match r {
                Ok(n) => self@.names(handle@, n) && self@.handles[n] is File,
                Err(e) => {
                    ||| self@.unknown(handle@) && is_unknown_handle(e)
                    ||| self@.names_dir(handle@) && says(
                        e,
                        russh_sftp::protocol::StatusCode::Failure,
                        Some("handle is not a file"@),
                    )
                },
            },
    {
        broadcast use vstd::std_specs::hash::group_hash_axioms;
        match self.find(handle) {
            None => Err(unknown_handle()),
            Some(n) => match self.handles.get(&n) {
                Some(HandleKind::File) => Ok(n),
                _ => {
                    assert(self@.names(handle@, n) && self@.handles[n] is Dir);
                    Err(
                        with_message(
                            russh_sftp::protocol::StatusCode::Failure,
                            "handle is not a file",
                        ),
                    )
                },
            },
        }
    }

    /// The open directory that a listing goes to.
    pub fn dir_handle(&self, handle: &str) -> (r: Result<u64, russh_sftp::server::StatusReply>)
        ensures
            match r {
                Ok(n) => self@.names(handle@, n) && self@.handles[n] is Dir,
                Err(e) => {
                    ||| self@.unknown(handle@) && is_unknown_handle(e)
                    ||| self@.names_file(handle@) && says(
                        e,
                        russh_sftp::protocol::StatusCode::Failure,
                        Some("handle is not a directory"@),
                    )
                },
            },
    {
        broadcast use vstd::std_specs::hash::group_hash_axioms;
        match self.find(handle) {
            None => Err(unknown_handle()),
            Some(n) => match self.handles.get(&n) {
                Some(HandleKind::Dir { .. }) => Ok(n),
                _ => {
                    assert(self@.names(handle@, n) && self@.handles[n] is File);
                    Err(
                        with_message(
                            russh_sftp::protocol::StatusCode::Failure,
                            "handle is not a directory",
                        ),
                    )
                },
            },
        }
    }

    /// What a handle's attributes are to be taken from: the open file, or the
    /// path of the directory.
    pub fn stat_handle(&self, handle: &str) -> (r: Result<
        (u64, Option<String>),
        russh_sftp::server::StatusReply,
    >)
        ensures
            match r {
                Ok((n, path)) => self@.names(handle@, n) && (match self@.handles[n] {
                    HandleView::File => path is None,
                    HandleView::Dir { path: dir } => path is Some && path->0@ == dir,
                }),
                Err(e) => self@.unknown(handle@) && is_unknown_handle(e),
            },
    {
        broadcast use vstd::std_specs::hash::group_hash_axioms;
        match self.find(handle) {
            None => Err(unknown_handle()),
            Some(n) => match self.handles.get(&n) {
                Some(HandleKind::Dir { path }) => Ok((n, Some(String::from_str(path.as_str())))),
                _ => Ok((n, None)),
            },
        }
    }
}

/// How many bytes are read for a client that asks for `len`.
pub fn read_len(len: u32) -> (r: u32)
    ensures
        r == (if len < MAX_SFTP_READ_LEN {
            len
        } else {
            MAX_SFTP_READ_LEN
        }),
{
    if len < MAX_SFTP_READ_LEN {
        len
    } else {
        MAX_SFTP_READ_LEN
    }
}

/// The data that a read hands out, given a buffer of which the first `read`
/// bytes were filled.
pub fn read_reply(buffer: Vec<u8>, read: usize) -> (r: Result<
    Vec<u8>,
    russh_sftp::server::StatusReply,
>)
    requires
        read <= buffer@.len(),
    ensures
        match r {
            Ok(data) => read > 0 && data@ == buffer@.take(read as int),
            Err(e) => read == 0 && says(e, russh_sftp::protocol::StatusCode::Eof, None),
        },
{
    if read == 0 {
        return Err(bare(russh_sftp::protocol::StatusCode::Eof));
    }
    let mut data = buffer;
    data.truncate(read);
    assert(data@ =~= buffer@.take(read as int));
    Ok(data)
}

/// The name that a listing hands out, given the next name of the directory.
pub fn readdir_reply(next: Option<String>) -> (r: Result<String, russh_sftp::server::StatusReply>)
    ensures
        match next {
            Some(name) => r == Ok::<String, russh_sftp::server::StatusReply>(name),
            None => r is Err && says(r->Err_0, russh_sftp::protocol::StatusCode::Eof, None),
        },
{
    match next {
        Some(name) => Ok(name),
        None => Err(bare(russh_sftp::protocol::StatusCode::Eof)),
    }
}

/// The name of a resolved path: the canonical one where the system knows it, as
/// it is shown.
pub fn realpath_reply(path: String, canonical: Option<String>) -> (r: String)
    ensures
        r@ == native_paths::shown(
            match canonical {
                Some(canonical) => canonical@,
                None => path@,
            },
        ),
{
    match canonical {
        Some(canonical) => native_paths::show_path(canonical.as_str()),
        None => native_paths::show_path(path.as_str()),
    }
}

/// Whether symbolic links can be made, and the answer where they cannot.
pub fn symlink_supported(platform: Platform) -> (r: Result<(), russh_sftp::server::StatusReply>)
    ensures
        match platform {
            Platform::Unix => r is Ok,
            Platform::Windows => r is Err && says(
                r->Err_0,
                russh_sftp::protocol::StatusCode::OpUnsupported,
                None,
            ),
        },
{
    match platform {
        Platform::Unix => Ok(()),
        Platform::Windows => Err(unimplemented()),
    }
}

/// A handle that is given out is new: it names nothing before, and what it
/// stands for afterwards; every other handle stays as it was.
pub proof fn law_fresh_handle(s: SftpView, kind: HandleView, name: Seq<char>, n: u64)
    requires
        s.well_formed(),
        s.last < u64::MAX,
    ensures
        s.unknown(handle_name((s.last + 1) as nat)),
        s.opened(kind).names(handle_name((s.last + 1) as nat), (s.last + 1) as u64),
        s.opened(kind).handles[(s.last + 1) as u64] == kind,
        s.names(name, n) ==> s.opened(kind).names(name, n) && s.opened(kind).handles[n]
            == s.handles[n],
{
    let fresh = handle_name((s.last + 1) as nat);
    assert forall|m: u64| !#[trigger] s.names(fresh, m) by {
        law_handle_names_differ(m as nat, (s.last + 1) as nat);
    }
}

/// A handle that has been closed names nothing any more, and the other handles
/// stay as they were.
pub proof fn law_closed_handle_is_gone(s: SftpView, n: u64, name: Seq<char>, m: u64)
    requires
        s.names(handle_name(n as nat), n),
    ensures
        ({
            let after = SftpView { handles: s.handles.remove(n), ..s };
            &&& after.unknown(handle_name(n as nat))
            &&& s.names(name, m) && m != n ==> after.names(name, m) && after.handles[m]
                == s.handles[m]
        }),
{
    let after = SftpView { handles: s.handles.remove(n), ..s };
    assert forall|k: u64| !#[trigger] after.names(handle_name(n as nat), k) by {
        law_handle_names_differ(k as nat, n as nat);
    }
}

/// On Unix every path that a client names is resolved to an absolute one, if the
/// session starts at one, and to one without `.` and `..` if it starts at such a
/// one.
pub proof fn law_resolved_paths_are_absolute(s: SftpView, path: Seq<char>)
    requires
        s.platform == Platform::Unix,
        paths::absolute(s.root),
    ensures
        paths::absolute(s.resolved(path)),
        paths::absolute(native_paths::quoted(path)) || paths::plain(paths::parts_of(s.root))
            ==> paths::plain(paths::parts_of(s.resolved(path))),
{
    let p = native_paths::quoted(path);
    let root = seq!['/'];
    paths::law_normalized_parts(root, p);
    paths::law_normalized_parts(s.root, p);
    if paths::absolute(p) {
        paths::lemma_root_parts();
        paths::law_normalized_is_plain(root, p);
    } else if paths::plain(paths::parts_of(s.root)) {
        paths::law_normalized_is_plain(s.root, p);
    }
}

/// A system error is answered with the code that says what it was, and in its
/// own words.
pub proof fn law_errors_are_told_by_kind(
    kind: IoErrorKind,
    message: &str,
    reply: russh_sftp::server::StatusReply,
)
    requires
        call_ensures(io_error_to_status, (kind, message), reply),
    ensures
        kind is NotFound ==> reply.status_code == russh_sftp::protocol::StatusCode::NoSuchFile,
        kind is PermissionDenied ==> reply.status_code
            == russh_sftp::protocol::StatusCode::PermissionDenied,
        kind is AlreadyExists ==> reply.status_code == russh_sftp::protocol::StatusCode::Failure,
        kind is UnexpectedEof ==> reply.status_code == russh_sftp::protocol::StatusCode::Eof,
        kind is Other ==> reply.status_code == russh_sftp::protocol::StatusCode::Failure,
        reply.error_message is Some && reply.error_message->0@ == message@,
{
}

/// A request that went well is answered under its own number; one that is not
/// served is said to be none. Links can be made on Unix alone.
pub proof fn law_answers_say_what_came_of_a_request(
    id: u32,
    done: russh_sftp::protocol::Status,
    none: russh_sftp::server::StatusReply,
    platform: Platform,
    links: Result<(), russh_sftp::server::StatusReply>,
)
    requires
        call_ensures(ok_status, (id,), done),
        call_ensures(unimplemented, (), none),
        call_ensures(symlink_supported, (platform,), links),
    ensures
        done.id == id,
        done.status_code == russh_sftp::protocol::StatusCode::Ok,
        done.error_message@ == "Ok"@,
        done.language_tag@ == "en-US"@,
        none.status_code == russh_sftp::protocol::StatusCode::OpUnsupported,
        links is Ok <==> platform is Unix,
        links is Err ==> links->Err_0.status_code
            == russh_sftp::protocol::StatusCode::OpUnsupported,
{
}

/// A read asks for as much as the client did, up to a mebibyte, and hands out
/// what was read; at the end of a file or of a directory the client is told so.
pub proof fn law_reads_hand_out_what_is_there(
    len: u32,
    asked: u32,
    buffer: Vec<u8>,
    read: usize,
    data: Result<Vec<u8>, russh_sftp::server::StatusReply>,
    next: Option<String>,
    name: Result<String, russh_sftp::server::StatusReply>,
)
    requires
        call_ensures(read_len, (len,), asked),
        read <= buffer@.len(),
        call_ensures(read_reply, (buffer, read), data),
        call_ensures(readdir_reply, (next,), name),
    ensures
        len <= 1024 * 1024 ==> asked == len,
        len > 1024 * 1024 ==> asked == 1024 * 1024,
        read == 0 ==> data is Err && data->Err_0.status_code
            == russh_sftp::protocol::StatusCode::Eof,
        read > 0 ==> data is Ok && data->Ok_0@ == buffer@.subrange(0, read as int),
        next is Some ==> name is Ok && name->Ok_0@ == next->0@,
        next is None ==> name is Err && name->Err_0.status_code
            == russh_sftp::protocol::StatusCode::Eof,
{
    assert(buffer@.take(read as int) =~= buffer@.subrange(0, read as int));
}

/// A handle for a file can be read and written, and cannot be listed; one for a
/// directory can be listed, and cannot be read or written; its attributes are
/// those of the directory that was opened.
pub proof fn law_handles_stand_for_what_was_opened(
    files: &mut LocalSftp,
    file: String,
    with_file: &LocalSftp,
    file_name: &str,
    dirs: &mut LocalSftp,
    path: String,
    dir: String,
    with_dir: &LocalSftp,
    dir_name: &str,
    reads: (
        Result<u64, russh_sftp::server::StatusReply>,
        Result<u64, russh_sftp::server::StatusReply>,
    ),
    lists: (
        Result<u64, russh_sftp::server::StatusReply>,
        Result<u64, russh_sftp::server::StatusReply>,
    ),
    stats: (
        Result<(u64, Option<String>), russh_sftp::server::StatusReply>,
        Result<(u64, Option<String>), russh_sftp::server::StatusReply>,
    ),
)
    requires
        old(files)@.last < u64::MAX,
        old(dirs)@.last < u64::MAX,
        call_ensures(LocalSftp::opened_file, (files,), file),
        with_file@ == final(files)@,
        file_name@ == file@,
        call_ensures(LocalSftp::opened_dir, (dirs, path), dir),
        with_dir@ == final(dirs)@,
        dir_name@ == dir@,
        call_ensures(LocalSftp::file_handle, (with_file, file_name), reads.0),
        call_ensures(LocalSftp::file_handle, (with_dir, dir_name), reads.1),
        call_ensures(LocalSftp::dir_handle, (with_file, file_name), lists.0),
        call_ensures(LocalSftp::dir_handle, (with_dir, dir_name), lists.1),
        call_ensures(LocalSftp::stat_handle, (with_file, file_name), stats.0),
        call_ensures(LocalSftp::stat_handle, (with_dir, dir_name), stats.1),
    ensures
        reads.0 is Ok && reads.0->Ok_0 == final(files)@.last,
        lists.0 is Err && lists.0->Err_0.status_code
            == russh_sftp::protocol::StatusCode::Failure,
        stats.0 is Ok && stats.0->Ok_0.0 == final(files)@.last && stats.0->Ok_0.1 is None,
        lists.1 is Ok && lists.1->Ok_0 == final(dirs)@.last,
        reads.1 is Err && reads.1->Err_0.status_code
            == russh_sftp::protocol::StatusCode::Failure,
        stats.1 is Ok && stats.1->Ok_0.0 == final(dirs)@.last && stats.1->Ok_0.1 is Some
            && stats.1->Ok_0.1->0@ == path@,
        final(files)@.last == old(files)@.last + 1,
        final(dirs)@.last == old(dirs)@.last + 1,
{
    let f = final(files)@.last;
    let d = final(dirs)@.last;
    assert(with_file@.names(file_name@, f));
    assert(with_dir@.names(dir_name@, d));
    assert forall|n: u64| #[trigger] with_file@.names(file_name@, n) implies n == f by {
        law_handle_names_differ(n as nat, f as nat);
    }
    assert forall|n: u64| #[trigger] with_dir@.names(dir_name@, n) implies n == d by {
        law_handle_names_differ(n as nat, d as nat);
    }
}

/// A handle that is closed is known no more, and the request is answered as done
/// under its own number. A handle that is not known cannot be closed, read or
/// listed.
pub proof fn law_closed_handles_are_unknown(
    open: &mut LocalSftp,
    id: u32,
    handle: &str,
    r: Result<(u64, russh_sftp::protocol::Status), russh_sftp::server::StatusReply>,
    after: &LocalSftp,
    reads: Result<u64, russh_sftp::server::StatusReply>,
    lists: Result<u64, russh_sftp::server::StatusReply>,
    stats: Result<(u64, Option<String>), russh_sftp::server::StatusReply>,
    other: u64,
)
    requires
        call_ensures(LocalSftp::close, (open, id, handle), r),
        after@ == final(open)@,
        call_ensures(LocalSftp::file_handle, (after, handle), reads),
        call_ensures(LocalSftp::dir_handle, (after, handle), lists),
        call_ensures(LocalSftp::stat_handle, (after, handle), stats),
    ensures
        r matches Ok((n, status)) ==> old(open)@.handles.contains_key(n) && status.id == id
            && status.status_code == russh_sftp::protocol::StatusCode::Ok,
        r matches Err(e) ==> e.status_code == russh_sftp::protocol::StatusCode::NoSuchFile,
        reads is Err && reads->Err_0.status_code == russh_sftp::protocol::StatusCode::NoSuchFile,
        lists is Err && lists->Err_0.status_code == russh_sftp::protocol::StatusCode::NoSuchFile,
        stats is Err && stats->Err_0.status_code == russh_sftp::protocol::StatusCode::NoSuchFile,
        old(open)@.handles.contains_key(other) && !(r is Ok && r->Ok_0.0 == other)
            ==> final(open)@.handles.contains_key(other) && final(open)@.handles[other]
            == old(open)@.handles[other],
{
    if let Ok((n, status)) = r {
        assert forall|m: u64| !#[trigger] after@.names(handle@, m) by {
            law_handle_names_differ(m as nat, n as nat);
        }
    }
    assert(after@.unknown(handle@));
    assert forall|m: u64| !#[trigger] after@.names(handle@, m) by {}
}

/// A client's path is followed from the root if it is absolute, and else from
/// the directory that the session starts at; a new session has no open handle.
pub proof fn law_client_paths_start_where_the_session_does(
    root_dir: String,
    platform: Platform,
    s: LocalSftp,
    path: &str,
    r: String,
    base: &Vec<char>,
    p: &Vec<char>,
    from_root: bool,
    followed: Vec<char>,
)
    requires
        call_ensures(LocalSftp::new, (root_dir, platform), s),
        call_ensures(LocalSftp::resolve_path, (&s, path), r),
        forall|i: int| 0 <= i < path@.len() ==> (#[trigger] path@[i]) as u32 <= 0x10ff7f,
        p@ == path@,
        call_ensures(platform_paths::is_absolute, (p, platform), from_root),
        base@ == (if from_root {
            seq!['/']
        } else {
            root_dir@
        }),
        call_ensures(platform_paths::normalize_path, (base, p, platform), followed),
    ensures
        r@ == followed@,
        forall|n: u64| !#[trigger] s@.handles.contains_key(n),
{
    assert(native_paths::ordinary(path@));
}

/// A path is handed out as the system knows it, if it does, and else as it was
/// resolved.
pub proof fn law_paths_are_handed_out_as_the_system_knows_them(
    path: String,
    canonical: Option<String>,
    r: String,
    known: &str,
    shown_as: String,
)
    requires
        call_ensures(realpath_reply, (path, canonical), r),
        canonical is Some ==> known@ == canonical->0@,
        canonical is None ==> known@ == path@,
        call_ensures(native_paths::show_path, (known,), shown_as),
    ensures
        r@ == shown_as@,
{
}

} // verus!
