//! Windows path arithmetic on plain text.
//!
//! Both `\` and `/` separate components. A path can start with a prefix: a drive
//! such as `C:`, a share such as `\\server\share`, a device such as `\\.\COM1`,
//! or one of the verbatim forms behind `\\?\`. Behind a verbatim prefix only `\`
//! separates components, and `.` is one.
use vstd::prelude::*;

use crate::paths;
use crate::paths::PathPart;
use crate::text;

verus! {

/// Whether `c` separates components outside verbatim paths.
pub open spec fn separator(c: char) -> bool {
    c == '/' || c == '\\'
}

/// A path with `/` for each of its separators.
pub open spec fn slashed(p: Seq<char>) -> Seq<char> {
    p.map_values(
        |c: char|
            if c == '\\' {
                '/'
            } else {
                c
            },
    )
}

/// Whether a path starts with the mark of a verbatim path.
pub open spec fn verbatim(p: Seq<char>) -> bool {
    p.len() >= 4 && p[0] == '\\' && p[1] == '\\' && p[2] == '?' && p[3] == '\\'
}

/// Whether a path starts with two separators, as a share and a device do.
pub open spec fn doubled(p: Seq<char>) -> bool {
    p.len() >= 2 && separator(p[0]) && separator(p[1])
}

/// Whether a path starts with the mark of a device.
pub open spec fn device(p: Seq<char>) -> bool {
    doubled(p) && p.len() >= 4 && p[2] == '.' && separator(p[3])
}

/// Whether `p` starts with the letter of a drive and a colon.
pub open spec fn lettered(p: Seq<char>) -> bool {
    p.len() >= 2 && ('a' <= p[0] <= 'z' || 'A' <= p[0] <= 'Z') && p[1] == ':'
}

/// Whether the prefix of a path is a drive, outside the verbatim forms.
pub open spec fn has_drive(p: Seq<char>) -> bool {
    !doubled(p) && lettered(p)
}

/// How many characters a server, a separator and a share take; `sep` separates
/// them. The share can be missing.
pub open spec fn share_len(s: Seq<char>, sep: char) -> nat {
    let server = text::find_char(s, sep);
    if server >= s.len() {
        server
    } else {
        let share = text::find_char(s.skip(server as int + 1), sep);
        if share == 0 {
            server
        } else {
            server + 1 + share
        }
    }
}

/// Whether a server and a share both have a name.
pub open spec fn full_share(s: Seq<char>, sep: char) -> bool {
    let server = text::find_char(s, sep);
    0 < server < s.len() && text::find_char(s.skip(server as int + 1), sep) > 0
}

/// How many characters stand for the prefix behind the mark of a verbatim path.
pub open spec fn verbatim_len(rest: Seq<char>) -> nat {
    if rest.len() >= 4 && rest[0] == 'U' && rest[1] == 'N' && rest[2] == 'C' && separator(rest[3]) {
        4 + share_len(rest.skip(4), '\\')
    } else if lettered(rest) && (rest.len() == 2 || separator(rest[2])) {
        2
    } else {
        text::find_char(rest, '\\')
    }
}

/// How many characters the prefix of a path takes.
pub open spec fn prefix_len(p: Seq<char>) -> nat {
    if verbatim(p) {
        4 + verbatim_len(p.skip(4))
    } else if device(p) {
        4 + text::find_char(slashed(p.skip(4)), '/')
    } else if doubled(p) {
        if full_share(slashed(p.skip(2)), '/') {
            2 + share_len(slashed(p.skip(2)), '/')
        } else {
            0
        }
    } else if lettered(p) {
        2
    } else {
        0
    }
}

/// How many characters stand for the root behind the prefix.
pub open spec fn root_len(p: Seq<char>) -> nat {
    let n = prefix_len(p) as int;
    if n < p.len() && separator(p[n]) {
        1
    } else {
        0
    }
}

/// Whether a path starts with a prefix that is a root by itself, or with a drive
/// and a root.
pub open spec fn absolute(p: Seq<char>) -> bool {
    prefix_len(p) > 0 && (!has_drive(p) || root_len(p) == 1)
}

/// Whether the root is the first part behind the prefix.
pub open spec fn rooted(p: Seq<char>) -> bool {
    root_len(p) == 1 || (prefix_len(p) > 0 && !has_drive(p) && !verbatim(p))
}

/// The pieces between the separators behind prefix and root.
pub open spec fn pieces(p: Seq<char>) -> Seq<Seq<char>> {
    let body = p.skip((prefix_len(p) + root_len(p)) as int);
    if verbatim(p) {
        text::split_at_char(body, '\\')
    } else {
        text::split_at_char(slashed(body), '/')
    }
}

/// The parts of the first `n` pieces of a path, after its root if it has one. A
/// `.` is a part at the start of a relative path and in a verbatim one.
pub open spec fn parts_upto(p: Seq<char>, n: nat) -> Seq<PathPart>
    decreases n,
{
    if n == 0 {
        if rooted(p) {
            seq![PathPart::Root]
        } else {
            Seq::empty()
        }
    } else {
        parts_upto(p, (n - 1) as nat) + paths::piece_part(
            pieces(p)[n - 1],
            verbatim(p) || (n == 1 && !rooted(p)),
        )
    }
}

/// The parts of a path behind its prefix.
pub open spec fn parts_of(p: Seq<char>) -> Seq<PathPart> {
    parts_upto(p, pieces(p).len())
}

/// The parts `parts` of a verbatim path changed by one part of another path.
pub open spec fn added(parts: Seq<PathPart>, part: PathPart) -> Seq<PathPart> {
    match part {
        PathPart::Root => seq![PathPart::Root],
        PathPart::Current => parts,
        PathPart::Parent => if parts.len() > 0 && parts.last() is Normal {
            parts.drop_last()
        } else {
            parts
        },
        PathPart::Normal(_) => parts.push(part),
    }
}

/// The parts `parts` of a verbatim path changed by each of `more` in turn.
pub open spec fn all_added(parts: Seq<PathPart>, more: Seq<PathPart>) -> Seq<PathPart>
    decreases more.len(),
{
    if more.len() == 0 {
        parts
    } else {
        added(all_added(parts, more.drop_last()), more.last())
    }
}

/// The name of a part.
pub open spec fn part_text(part: PathPart) -> Seq<char> {
    match part {
        PathPart::Root => seq!['\\'],
        PathPart::Current => seq!['.'],
        PathPart::Parent => seq!['.', '.'],
        PathPart::Normal(name) => name,
    }
}

/// A verbatim prefix and the parts behind it as a path.
pub open spec fn written(prefix: Seq<char>, parts: Seq<PathPart>) -> Seq<char>
    decreases parts.len(),
{
    if parts.len() == 0 {
        prefix
    } else {
        let before = written(prefix, parts.drop_last());
        if parts.last() == PathPart::Root || (parts.len() > 1 && parts[parts.len() - 2]
            == PathPart::Root) {
            before + part_text(parts.last())
        } else {
            before.push('\\') + part_text(parts.last())
        }
    }
}

/// The path that `p` names as seen from the directory `base`. A path with a
/// prefix stands for itself. Behind a verbatim base `.` and `..` are carried out.
/// Otherwise a path that starts at the root keeps the prefix of `base`, and any
/// other follows a separator, but for one behind a mere drive.
pub open spec fn appended(base: Seq<char>, p: Seq<char>) -> Seq<char> {
    if prefix_len(p) > 0 {
        p
    } else if verbatim(base) && p.len() > 0 {
        written(base.take(prefix_len(base) as int), all_added(parts_of(base), parts_of(p)))
    } else if p.len() > 0 && separator(p[0]) {
        base.take(prefix_len(base) as int) + p
    } else if base.len() > 0 && !separator(base.last()) && !(has_drive(base) && base.len() == 2) {
        base.push('\\') + p
    } else {
        base + p
    }
}

/// `s` without the separators at its end, as far as they stand behind `front`.
pub open spec fn stripped(s: Seq<char>, front: nat) -> Seq<char>
    decreases s.len(),
{
    if s.len() > front && s.last() == '\\' {
        stripped(s.drop_last(), front)
    } else {
        s
    }
}

/// Where the last component of `s` behind `front` starts.
pub open spec fn last_start(s: Seq<char>, front: nat) -> nat
    decreases s.len(),
{
    if s.len() <= front || s.last() == '\\' {
        s.len()
    } else {
        last_start(s.drop_last(), front)
    }
}

/// The directory that holds what `p` names; none for a root, a prefix and the
/// empty path.
pub open spec fn parent_of(p: Seq<char>) -> Option<Seq<char>> {
    let n = prefix_len(p);
    if verbatim(p) {
        let front = n + root_len(p);
        let s = stripped(p, front);
        if s.len() <= front {
            None
        } else {
            Some(stripped(s.take(last_start(s, front) as int), front))
        }
    } else {
        match paths::parent_of(slashed(p.skip(n as int))) {
            Some(dir) => Some(p.take((n + dir.len()) as int)),
            None => None,
        }
    }
}

/// The name that a path ends in, if it ends in one.
pub open spec fn file_name_of(p: Seq<char>) -> Option<Seq<char>> {
    let n = prefix_len(p);
    if verbatim(p) {
        let front = n + root_len(p);
        let s = stripped(p, front);
        let last = s.skip(last_start(s, front) as int);
        if s.len() <= front || last == seq!['.'] || last == seq!['.', '.'] {
            None
        } else {
            Some(last)
        }
    } else {
        paths::file_name_of(slashed(p.skip(n as int)))
    }
}

/// How many parts a path has, a prefix counted as one.
pub open spec fn part_count(p: Seq<char>) -> nat {
    parts_of(p).len() + if prefix_len(p) > 0 {
        1nat
    } else {
        0
    }
}

/// The path `out` changed by one part of another path.
pub open spec fn moved(out: Seq<char>, part: PathPart) -> Seq<char> {
    match part {
        PathPart::Root => seq!['/'],
        PathPart::Current => out,
        PathPart::Parent => match parent_of(out) {
            Some(dir) => dir,
            None => out,
        },
        PathPart::Normal(name) => appended(out, name),
    }
}

/// The path `base` changed by each of `parts` in turn.
pub open spec fn walked(base: Seq<char>, parts: Seq<PathPart>) -> Seq<char>
    decreases parts.len(),
{
    if parts.len() == 0 {
        base
    } else {
        moved(walked(base, parts.drop_last()), parts.last())
    }
}

/// The path that `p` names as seen from `base`, with every `.` and `..` of `p`
/// carried out on the text.
pub open spec fn normalized(base: Seq<char>, p: Seq<char>) -> Seq<char> {
    let n = prefix_len(p);
    let start = if n > 0 {
        appended(base, p.take(n as int))
    } else {
        base
    };
    let out = walked(start, parts_of(p));
    if out.len() == 0 {
        seq!['/']
    } else {
        out
    }
}

fn is_separator(c: char) -> (r: bool)
    ensures
        r == separator(c),
{
    c == '/' || c == '\\'
}

/// What stands from `from` on, with `/` for each separator.
fn slashed_from(p: &Vec<char>, from: usize) -> (r: Vec<char>)
    requires
        from <= p@.len(),
    ensures
        r@ == slashed(p@.skip(from as int)),
{
    let mut out: Vec<char> = Vec::new();
    let ghost all = slashed(p@.skip(from as int));
    let mut i: usize = from;
    while i < p.len()
        invariant
            from <= i <= p@.len(),
            all == slashed(p@.skip(from as int)),
            out@ == all.take(i - from),
        decreases p.len() - i,
    {
        let c = p[i];
        assert(c == p@.skip(from as int)[i - from]);
        out.push(
            if c == '\\' {
                '/'
            } else {
                c
            },
        );
        assert(out@ =~= all.take(i - from + 1));
        i = i + 1;
    }
    assert(out@ =~= all);
    out
}

fn is_verbatim(p: &Vec<char>) -> (r: bool)
    ensures
        r == verbatim(p@),
{
    p.len() >= 4 && p[0] == '\\' && p[1] == '\\' && p[2] == '?' && p[3] == '\\'
}

fn is_doubled(p: &Vec<char>) -> (r: bool)
    ensures
        r == doubled(p@),
{
    p.len() >= 2 && is_separator(p[0]) && is_separator(p[1])
}

fn is_device(p: &Vec<char>) -> (r: bool)
    ensures
        r == device(p@),
{
    is_doubled(p) && p.len() >= 4 && p[2] == '.' && is_separator(p[3])
}

fn is_lettered(p: &Vec<char>) -> (r: bool)
    ensures
        r == lettered(p@),
{
    p.len() >= 2 && (('a' <= p[0] && p[0] <= 'z') || ('A' <= p[0] && p[0] <= 'Z')) && p[1] == ':'
}

fn starts_with_drive(p: &Vec<char>) -> (r: bool)
    ensures
        r == has_drive(p@),
{
    !is_doubled(p) && is_lettered(p)
}

/// The length of a server and a share, and whether both have a name.
fn share_length(s: &Vec<char>, sep: char) -> (r: (usize, bool))
    ensures
        r.0 == share_len(s@, sep),
        r.0 <= s@.len(),
        r.1 == full_share(s@, sep),
{
    assert(s@.skip(0) =~= s@);
    let server = text::position_of(s, 0, sep);
    if server >= s.len() {
        return (server, false);
    }
    let end = text::position_of(s, server + 1, sep);
    if end == server + 1 {
        (server, false)
    } else {
        (end, server > 0)
    }
}

fn verbatim_length(rest: &Vec<char>) -> (r: usize)
    ensures
        r == verbatim_len(rest@),
        r <= rest@.len(),
{
    if rest.len() >= 4 && rest[0] == 'U' && rest[1] == 'N' && rest[2] == 'C' && is_separator(
        rest[3],
    ) {
        let names = text::piece(rest, 4, rest.len());
        assert(names@ =~= rest@.skip(4));
        4 + share_length(&names, '\\').0
    } else if is_lettered(rest) && (rest.len() == 2 || is_separator(rest[2])) {
        2
    } else {
        assert(rest@.skip(0) =~= rest@);
        text::position_of(rest, 0, '\\')
    }
}

fn prefix_length(p: &Vec<char>) -> (r: usize)
    ensures
        r == prefix_len(p@),
        r <= p@.len(),
{
    if is_verbatim(p) {
        let rest = text::piece(p, 4, p.len());
        assert(rest@ =~= p@.skip(4));
        4 + verbatim_length(&rest)
    } else if is_device(p) {
        let rest = slashed_from(p, 4);
        assert(rest@.len() == p@.len() - 4 && p@.len() == p.len());
        assert(rest@.skip(0) =~= rest@);
        4 + text::position_of(&rest, 0, '/')
    } else if is_doubled(p) {
        let names = slashed_from(p, 2);
        assert(names@.len() == p@.len() - 2 && p@.len() == p.len());
        let (len, full) = share_length(&names, '/');
        if full {
            2 + len
        } else {
            0
        }
    } else if is_lettered(p) {
        2
    } else {
        0
    }
}

fn root_length(p: &Vec<char>) -> (r: usize)
    ensures
        r == root_len(p@),
        r <= 1,
        prefix_len(p@) + r <= p@.len(),
{
    let n = prefix_length(p);
    if n < p.len() && is_separator(p[n]) {
        1
    } else {
        0
    }
}

pub fn is_absolute(p: &Vec<char>) -> (r: bool)
    ensures
        r == absolute(p@),
{
    prefix_length(p) > 0 && (!starts_with_drive(p) || root_length(p) == 1)
}

fn is_rooted(p: &Vec<char>) -> (r: bool)
    ensures
        r == rooted(p@),
{
    root_length(p) == 1 || (prefix_length(p) > 0 && !starts_with_drive(p) && !is_verbatim(p))
}

/// One part of a path.
enum Part {
    Root,
    Current,
    Parent,
    Normal(Vec<char>),
}

impl View for Part {
    type V = PathPart;

    closed spec fn view(&self) -> PathPart {
        match self {
            Part::Root => PathPart::Root,
            Part::Current => PathPart::Current,
            Part::Parent => PathPart::Parent,
            Part::Normal(name) => PathPart::Normal(name@),
        }
    }
}

spec fn views(parts: Seq<Part>) -> Seq<PathPart> {
    parts.map_values(|part: Part| part@)
}

proof fn lemma_views_push(parts: Seq<Part>, part: Part)
    ensures
        views(parts.push(part)) == views(parts).push(part@),
{
    assert(views(parts.push(part)) =~= views(parts).push(part@));
}

/// The part that a piece contributes, if any.
fn part_of(piece: Vec<char>, leading: bool) -> (r: Option<Part>)
    ensures
        paths::piece_part(piece@, leading) == (match r {
            Some(part) => seq![part@],
            None => Seq::empty(),
        }),
{
    if piece.len() == 0 {
        None
    } else if paths::is_dot(&piece) {
        if leading {
            Some(Part::Current)
        } else {
            None
        }
    } else if paths::is_dot_dot(&piece) {
        Some(Part::Parent)
    } else {
        Some(Part::Normal(piece))
    }
}

/// The parts of a path behind its prefix.
fn split_parts(p: &Vec<char>) -> (r: Vec<Part>)
    ensures
        views(r@) == parts_of(p@),
{
    let strict = is_verbatim(p);
    assert(p@.len() == p.len());
    let start = prefix_length(p) + root_length(p);
    let rest = if strict {
        let body = text::piece(p, start, p.len());
        assert(body@ =~= p@.skip(start as int));
        text::split(&body, '\\')
    } else {
        text::split(&slashed_from(p, start), '/')
    };
    let ghost all = pieces(p@);
    assert(text::texts(rest@) == all);
    let with_root = is_rooted(p);
    let mut out: Vec<Part> = Vec::new();
    if with_root {
        out.push(Part::Root);
    }
    assert(views(out@) =~= parts_upto(p@, 0));
    let mut i: usize = 0;
    while i < rest.len()
        invariant
            i <= rest@.len(),
            all == pieces(p@),
            all == text::texts(rest@),
            strict == verbatim(p@),
            with_root == rooted(p@),
            views(out@) == parts_upto(p@, i as nat),
        decreases rest.len() - i,
    {
        assert(all[i as int] == rest@[i as int]@);
        let piece = text::piece(&rest[i], 0, rest[i].len());
        assert(piece@ =~= all[i as int]);
        let ghost before = out@;
        match part_of(piece, strict || (i == 0 && !with_root)) {
            Some(part) => {
                proof {
                    lemma_views_push(before, part);
                }
                out.push(part);
                assert(views(out@) =~= views(before) + seq![part@]);
            },
            None => {
                assert(views(out@) =~= views(before) + Seq::<PathPart>::empty());
            },
        }
        i = i + 1;
    }
    out
}

/// Adds the parts of a path to those of a verbatim one.
fn add_parts(parts: &mut Vec<Part>, more: Vec<Part>)
    ensures
        views(final(parts)@) == all_added(views(old(parts)@), views(more@)),
{
    let ghost start = views(parts@);
    let ghost list = views(more@);
    let mut i: usize = 0;
    assert(list.take(0) =~= Seq::<PathPart>::empty());
    while i < more.len()
        invariant
            i <= more@.len(),
            list == views(more@),
            views(parts@) == all_added(start, list.take(i as int)),
        decreases more.len() - i,
    {
        let ghost before = parts@;
        assert(list.take(i + 1).drop_last() =~= list.take(i as int));
        assert(list.take(i + 1).last() == more@[i as int]@);
        match &more[i] {
            Part::Root => {
                parts.clear();
                parts.push(Part::Root);
                assert(views(parts@) =~= seq![PathPart::Root]);
            },
            Part::Current => {},
            Part::Parent => {
                let last_is_name = parts.len() > 0 && matches!(parts[parts.len() - 1], Part::Normal(_));
                assert(parts@.len() > 0 ==> views(parts@).last() == parts@[parts@.len() - 1]@);
                if last_is_name {
                    parts.pop();
                    assert(views(parts@) =~= views(before).drop_last());
                }
            },
            Part::Normal(name) => {
                let copy = text::piece(name, 0, name.len());
                assert(copy@ =~= name@);
                let part = Part::Normal(copy);
                proof {
                    lemma_views_push(before, part);
                }
                parts.push(part);
            },
        }
        i = i + 1;
    }
    assert(list.take(list.len() as int) =~= list);
}

/// Writes a verbatim prefix and the parts behind it as a path.
fn write_parts(prefix: Vec<char>, parts: &Vec<Part>) -> (r: Vec<char>)
    ensures
        r@ == written(prefix@, views(parts@)),
{
    let ghost list = views(parts@);
    let ghost start = prefix@;
    let mut out = prefix;
    let mut i: usize = 0;
    let mut behind_root = false;
    assert(list.take(0) =~= Seq::<PathPart>::empty());
    while i < parts.len()
        invariant
            i <= parts@.len(),
            list == views(parts@),
            behind_root == (i > 0 && list[i - 1] == PathPart::Root),
            out@ == written(start, list.take(i as int)),
        decreases parts.len() - i,
    {
        let ghost before = out@;
        let ghost upto = list.take(i + 1);
        assert(upto.drop_last() =~= list.take(i as int));
        assert(upto.last() == parts@[i as int]@);
        assert(i > 0 ==> upto[i - 1] == list[i - 1]);
        let is_root = matches!(parts[i], Part::Root);
        if !is_root && !behind_root {
            out.push('\\');
        }
        let ghost mid = out@;
        match &parts[i] {
            Part::Root => {
                out.push('\\');
                assert(out@ =~= mid + seq!['\\']);
            },
            Part::Current => {
                out.push('.');
                assert(out@ =~= mid + seq!['.']);
            },
            Part::Parent => {
                out.push('.');
                out.push('.');
                assert(out@ =~= mid + seq!['.', '.']);
            },
            Part::Normal(name) => {
                text::push_all(&mut out, name);
            },
        }
        assert(list[i as int] == parts@[i as int]@);
        behind_root = is_root;
        i = i + 1;
    }
    assert(list.take(list.len() as int) =~= list);
    out
}

pub fn join_path(base: &Vec<char>, p: &Vec<char>) -> (r: Vec<char>)
    ensures
        r@ == appended(base@, p@),
{
    if prefix_length(p) > 0 {
        let whole = text::piece(p, 0, p.len());
        assert(whole@ =~= p@);
        return whole;
    }
    if is_verbatim(base) && p.len() > 0 {
        let prefix = text::piece(base, 0, prefix_length(base));
        assert(prefix@ =~= base@.take(prefix_len(base@) as int));
        let mut parts = split_parts(base);
        add_parts(&mut parts, split_parts(p));
        return write_parts(prefix, &parts);
    }
    let mut out: Vec<char> = Vec::new();
    if p.len() > 0 && is_separator(p[0]) {
        let prefix = text::piece(base, 0, prefix_length(base));
        assert(prefix@ =~= base@.take(prefix_len(base@) as int));
        out = prefix;
    } else {
        text::push_all(&mut out, base);
        assert(out@ =~= base@);
        if base.len() > 0 && !is_separator(base[base.len() - 1]) && !(starts_with_drive(base)
            && base.len() == 2) {
            out.push('\\');
        }
    }
    text::push_all(&mut out, p);
    out
}

/// How many of the first `len` characters remain without the separators at
/// their end.
fn stripped_length(p: &Vec<char>, front: usize, len: usize) -> (r: usize)
    requires
        front <= len <= p@.len(),
    ensures
        front <= r <= len,
        stripped(p@.take(len as int), front as nat) == p@.take(r as int),
{
    let mut n: usize = len;
    while n > front && p[n - 1] == '\\'
        invariant
            front <= n <= len <= p@.len(),
            stripped(p@.take(len as int), front as nat) == stripped(
                p@.take(n as int),
                front as nat,
            ),
        decreases n,
    {
        assert(p@.take(n as int).drop_last() =~= p@.take(n - 1));
        n = n - 1;
    }
    n
}

/// Where the last component of the first `len` characters starts.
fn last_begin(p: &Vec<char>, front: usize, len: usize) -> (r: usize)
    requires
        front <= len <= p@.len(),
    ensures
        front <= r <= len,
        r == last_start(p@.take(len as int), front as nat),
{
    let mut n: usize = len;
    while n > front && p[n - 1] != '\\'
        invariant
            front <= n <= len <= p@.len(),
            last_start(p@.take(len as int), front as nat) == last_start(
                p@.take(n as int),
                front as nat,
            ),
        decreases n,
    {
        assert(p@.take(n as int).drop_last() =~= p@.take(n - 1));
        n = n - 1;
    }
    n
}

pub fn parent_path(p: &Vec<char>) -> (r: Option<Vec<char>>)
    ensures
        match r {
            Some(d) => parent_of(p@) == Some(d@),
            None => parent_of(p@) is None,
        },
{
    let n = prefix_length(p);
    if is_verbatim(p) {
        assert(p@.len() == p.len());
        let front = n + root_length(p);
        assert(p@.take(p@.len() as int) =~= p@);
        let len = stripped_length(p, front, p.len());
        if len <= front {
            None
        } else {
            let cut = last_begin(p, front, len);
            assert(p@.take(len as int).take(cut as int) =~= p@.take(cut as int));
            let end = stripped_length(p, front, cut);
            let dir = text::piece(p, 0, end);
            assert(dir@ =~= p@.take(end as int));
            Some(dir)
        }
    } else {
        let rest = slashed_from(p, n);
        assert(rest@.len() == p@.len() - n && p@.len() == p.len());
        match paths::parent_path(&rest) {
            Some(dir) => {
                let d = text::piece(p, 0, n + dir.len());
                assert(d@ =~= p@.take(n + dir@.len()));
                Some(d)
            },
            None => None,
        }
    }
}

pub fn file_name(p: &Vec<char>) -> (r: Option<Vec<char>>)
    ensures
        match r {
            Some(name) => file_name_of(p@) == Some(name@),
            None => file_name_of(p@) is None,
        },
{
    let n = prefix_length(p);
    if is_verbatim(p) {
        assert(p@.len() == p.len());
        let front = n + root_length(p);
        assert(p@.take(p@.len() as int) =~= p@);
        let len = stripped_length(p, front, p.len());
        let start = last_begin(p, front, len);
        let last = text::piece(p, start, len);
        assert(last@ =~= p@.take(len as int).skip(start as int));
        if len <= front || paths::is_dot(&last) || paths::is_dot_dot(&last) {
            None
        } else {
            Some(last)
        }
    } else {
        paths::file_name(&slashed_from(p, n))
    }
}

/// Whether a path has at most one part.
pub fn is_single(p: &Vec<char>) -> (r: bool)
    ensures
        r == (part_count(p@) <= 1),
{
    let parts = split_parts(p);
    assert(views(parts@).len() == parts@.len());
    if prefix_length(p) > 0 {
        parts.len() == 0
    } else {
        parts.len() <= 1
    }
}

pub fn normalize_path(base: &Vec<char>, p: &Vec<char>) -> (r: Vec<char>)
    ensures
        r@ == normalized(base@, p@),
{
    let n = prefix_length(p);
    let mut out = if n > 0 {
        let prefix = text::piece(p, 0, n);
        assert(prefix@ =~= p@.take(n as int));
        join_path(base, &prefix)
    } else {
        let copy = text::piece(base, 0, base.len());
        assert(copy@ =~= base@);
        copy
    };
    let ghost start = out@;
    let parts = split_parts(p);
    let ghost list = views(parts@);
    let mut i: usize = 0;
    assert(list.take(0) =~= Seq::<PathPart>::empty());
    while i < parts.len()
        invariant
            i <= parts@.len(),
            list == views(parts@),
            out@ == walked(start, list.take(i as int)),
        decreases parts.len() - i,
    {
        assert(list.take(i + 1).drop_last() =~= list.take(i as int));
        assert(list.take(i + 1).last() == parts@[i as int]@);
        match &parts[i] {
            Part::Root => {
                let mut root: Vec<char> = Vec::new();
                root.push('/');
                assert(root@ =~= seq!['/']);
                out = root;
            },
            Part::Current => {},
            Part::Parent => match parent_path(&out) {
                Some(dir) => {
                    out = dir;
                },
                None => {},
            },
            Part::Normal(name) => {
                out = join_path(&out, name);
            },
        }
        i = i + 1;
    }
    assert(list.take(list.len() as int) =~= list);
    if out.len() == 0 {
        out.push('/');
        assert(out@ =~= seq!['/']);
    }
    out
}

proof fn lemma_written_prefix(prefix: Seq<char>, parts: Seq<PathPart>)
    ensures
        written(prefix, parts).len() >= prefix.len(),
        written(prefix, parts).take(prefix.len() as int) == prefix,
    decreases parts.len(),
{
    if parts.len() > 0 {
        lemma_written_prefix(prefix, parts.drop_last());
    }
    assert(written(prefix, parts).take(prefix.len() as int) =~= prefix);
}

proof fn lemma_verbatim_prefix_bound(p: Seq<char>)
    requires
        verbatim(p),
    ensures
        prefix_len(p) <= p.len(),
{
    let rest = p.skip(4);
    text::lemma_find_char(rest, '\\');
    if rest.len() >= 4 {
        let names = rest.skip(4);
        text::lemma_find_char(names, '\\');
        let server = text::find_char(names, '\\');
        if server < names.len() {
            text::lemma_find_char(names.skip(server as int + 1), '\\');
        }
    }
}

/// Whether none of the parts is a `.` or a `..`.
pub open spec fn without_dots(parts: Seq<PathPart>) -> bool {
    forall|i: int|
        0 <= i < parts.len() ==> (#[trigger] parts[i]) == PathPart::Root || parts[i] is Normal
}

proof fn lemma_added_without_dots(parts: Seq<PathPart>, more: Seq<PathPart>)
    requires
        without_dots(parts),
    ensures
        without_dots(all_added(parts, more)),
    decreases more.len(),
{
    if more.len() > 0 {
        lemma_added_without_dots(parts, more.drop_last());
    }
}

/// What is seen from a verbatim directory stays behind its prefix, and every `.`
/// and `..` of the path is carried out.
pub proof fn law_verbatim_base_stays(base: Seq<char>, p: Seq<char>)
    requires
        verbatim(base),
        prefix_len(p) == 0,
        p.len() > 0,
        without_dots(parts_of(base)),
    ensures
        appended(base, p).take(prefix_len(base) as int) == base.take(prefix_len(base) as int),
        appended(base, p) == written(
            base.take(prefix_len(base) as int),
            all_added(parts_of(base), parts_of(p)),
        ),
        without_dots(all_added(parts_of(base), parts_of(p))),
{
    lemma_verbatim_prefix_bound(base);
    let prefix = base.take(prefix_len(base) as int);
    lemma_written_prefix(prefix, all_added(parts_of(base), parts_of(p)));
    lemma_added_without_dots(parts_of(base), parts_of(p));
}

/// A path is absolute if it starts with a drive and a separator, with a server
/// and a share, or with a device; a drive or a separator alone is not enough.
pub proof fn law_absolute_paths_name_drive_and_root(
    p: &Vec<char>,
    server: Seq<char>,
    share: Seq<char>,
    r: bool,
)
    requires
        call_ensures(is_absolute, (p,), r),
    ensures
        ({
            let drive = p@.len() >= 2 && ('a' <= p@[0] <= 'z' || 'A' <= p@[0] <= 'Z') && p@[1]
                == ':';
            &&& drive ==> (r <==> p@.len() > 2 && (p@[2] == '\\' || p@[2] == '/'))
            &&& p@.len() == 0 ==> !r
            &&& !drive && p@.len() > 0 && p@[0] != '\\' && p@[0] != '/' ==> !r
            &&& p@.len() == 1 ==> !r
            &&& p@.len() >= 2 && (p@[0] == '\\' || p@[0] == '/') && p@[1] != '\\' && p@[1] != '/'
                ==> !r
            &&& p@.len() >= 4 && p@[0] == '\\' && p@[1] == '\\' && p@[2] == '.' && p@[3] == '\\'
                ==> r
            &&& p@.len() >= 4 && p@[0] == '\\' && p@[1] == '\\' && p@[2] == '?' && p@[3] == '\\'
                ==> r
            &&& component(server) && component(share) && p@ == seq!['\\', '\\'] + server + seq![
                '\\',
            ] + share ==> r
        }),
{
    if component(server) && component(share) && p@ == seq!['\\', '\\'] + server + seq!['\\'] + share
        && !verbatim(p@) && !device(p@) {
        let rest = p@.skip(2);
        assert(rest =~= server + seq!['\\'] + share);
        let s = slashed(rest);
        let n = server.len() as int;
        text::lemma_find_char(s, '/');
        assert(s[n] == '/');
        let k = text::find_char(s, '/') as int;
        assert(k == n) by {
            if k < n {
                assert(s[k] == server[k]);
            }
        }
        let t = s.skip(n + 1);
        assert(t[0] == share[0]);
        text::lemma_find_char(t, '/');
        assert(text::find_char(t, '/') > 0);
    }
}

/// Whether `s` is not empty and holds no separator.
pub open spec fn component(s: Seq<char>) -> bool {
    &&& s.len() > 0
    &&& forall|i: int| 0 <= i < s.len() ==> (#[trigger] s[i]) != '/' && s[i] != '\\'
}

/// Whether `p` starts with a drive and a separator.
pub open spec fn on_a_drive(p: Seq<char>) -> bool {
    p.len() >= 3 && ('a' <= p[0] <= 'z' || 'A' <= p[0] <= 'Z') && p[1] == ':' && (p[2] == '\\'
        || p[2] == '/')
}

/// A path with a drive stands for itself. Seen from a directory on a drive, one
/// that starts with a separator keeps the drive, and any other is put behind the
/// directory with one separator between them.
pub proof fn law_paths_are_put_together_with_a_backslash(
    base: &Vec<char>,
    p: &Vec<char>,
    joined: Vec<char>,
)
    requires
        call_ensures(join_path, (base, p), joined),
        on_a_drive(base@),
    ensures
        on_a_drive(p@) ==> joined@ == p@,
        p@.len() > 0 && (p@[0] == '\\' || p@[0] == '/') && (p@.len() == 1 || (p@[1] != '\\' && p@[1]
            != '/')) ==> joined@ == base@.take(2) + p@,
        p@.len() > 0 && p@[0] != '\\' && p@[0] != '/' && (p@.len() == 1 || p@[1] != ':')
            ==> joined@ == (if base@.last() == '\\' || base@.last() == '/' {
            base@ + p@
        } else {
            base@ + seq!['\\'] + p@
        }),
{
    assert(base@.push('\\') + p@ =~= base@ + seq!['\\'] + p@);
}

/// Whether `name` is one that a file can have, and cannot be taken for a drive.
pub open spec fn file_named(name: Seq<char>) -> bool {
    &&& component(name)
    &&& name != seq!['.']
    &&& name != seq!['.', '.']
    &&& name.len() >= 2 ==> name[1] != ':'
}

/// Whether `d` is the root of a drive, or a path below it that ends neither in a
/// separator nor in a `.` of its own.
pub open spec fn directory_named(d: Seq<char>) -> bool {
    &&& on_a_drive(d)
    &&& d.len() > 3 ==> d.last() != '\\' && d.last() != '/' && !(d.last() == '.' && (d[d.len() - 2]
        == '\\' || d[d.len() - 2] == '/'))
}

pub(crate) proof fn lemma_named_below(d: Seq<char>, name: Seq<char>)
    requires
        directory_named(d),
        file_named(name),
    ensures
        ({
            let p = if d.len() == 3 {
                d + name
            } else {
                d + seq!['\\'] + name
            };
            &&& on_a_drive(p)
            &&& parent_of(p) == Some(d)
            &&& file_name_of(p) == Some(name)
        }),
{
    let p = if d.len() == 3 {
        d + name
    } else {
        d + seq!['\\'] + name
    };
    let e = slashed(d.skip(2));
    let q = slashed(p.skip(2));
    assert(p[0] == d[0] && p[1] == d[1] && p[2] == d[2]);
    assert(prefix_len(p) == 2);
    assert(paths::file_named(name));
    assert(paths::directory_named(e));
    paths::lemma_named_below(e, name);
    if d.len() == 3 {
        assert(q =~= e + name);
    } else {
        assert(q =~= e + seq!['/'] + name);
    }
    assert(p.take((2 + e.len()) as int) =~= d);
}

/// What a path on a drive names is told from its last separator: the name stands
/// behind it and the directory before.
pub proof fn law_name_stands_behind_the_last_separator(
    p: &Vec<char>,
    d: Seq<char>,
    name: Seq<char>,
    dir: Option<Vec<char>>,
    own: Option<Vec<char>>,
)
    requires
        call_ensures(parent_path, (p,), dir),
        call_ensures(file_name, (p,), own),
        directory_named(d),
        file_named(name),
        p@ == (if d.len() == 3 {
            d + name
        } else {
            d + seq!['\\'] + name
        }),
    ensures
        dir is Some && dir->0@ == d,
        own is Some && own->0@ == name,
{
    lemma_named_below(d, name);
}

/// Where one more piece of a path leads from `at`, a path on a drive: nowhere
/// else for a `.`, up for a `..`, and down for a name.
pub open spec fn leads(at: Seq<char>, piece: Seq<char>, to: Seq<char>) -> bool {
    &&& piece == seq!['.'] ==> to == at
    &&& forall|d: Seq<char>, name: Seq<char>|
        piece == seq!['.', '.'] && directory_named(d) && d.len() > 3 && file_named(name) && at
            == #[trigger] (d + seq!['\\'] + name) ==> to == d
    &&& forall|d: Seq<char>, name: Seq<char>|
        piece == seq!['.', '.'] && directory_named(d) && d.len() == 3 && file_named(name) && at
            == #[trigger] (d + name) ==> to == d
    &&& file_named(piece) ==> to == (if at.last() == '\\' || at.last() == '/' {
        at + piece
    } else {
        at + seq!['\\'] + piece
    })
}

/// A path, and the root in place of an empty one.
spec fn filled(p: Seq<char>) -> Seq<char> {
    if p.len() == 0 {
        seq!['/']
    } else {
        p
    }
}

proof fn lemma_leads(at: Seq<char>, piece: Seq<char>)
    requires
        on_a_drive(at),
        component(piece),
    ensures
        leads(
            at,
            piece,
            filled(
                if piece == seq!['.'] {
                    at
                } else {
                    moved(at, paths::piece_part(piece, false)[0])
                },
            ),
        ),
{
    let up = seq!['.', '.'];
    let here = seq!['.'];
    assert(up.len() == 2 && here.len() == 1);
    let to = match parent_of(at) {
        Some(dir) => dir,
        None => at,
    };
    assert forall|d: Seq<char>, name: Seq<char>|
        piece == up && directory_named(d) && d.len() > 3 && file_named(name) && at == #[trigger] (d
            + seq!['\\'] + name) implies filled(to) == d by {
        lemma_named_below(d, name);
    }
    assert forall|d: Seq<char>, name: Seq<char>|
        piece == up && directory_named(d) && d.len() == 3 && file_named(name) && at == #[trigger] (d
            + name) implies filled(to) == d by {
        lemma_named_below(d, name);
    }
    if file_named(piece) {
        assert(piece[0] != '/');
        assert(prefix_len(piece) == 0);
        assert(at.push('\\') + piece =~= at + seq!['\\'] + piece);
    }
}

/// Whether `p` starts neither with a separator nor with a drive.
pub open spec fn relative(p: Seq<char>) -> bool {
    p.len() > 0 && p[0] != '/' && p[0] != '\\' && (p.len() >= 2 ==> p[1] != ':')
}

proof fn lemma_relative_parts(p: Seq<char>, n: nat)
    requires
        relative(p),
        n <= pieces(p).len(),
    ensures
        pieces(p) == text::split_at_char(slashed(p), '/'),
        parts_upto(p, n) == paths::parts_upto(slashed(p), n),
    decreases n,
{
    assert(p.skip(0) =~= p);
    assert(prefix_len(p) == 0 && root_len(p) == 0);
    assert(slashed(p)[0] == p[0]);
    if n > 0 {
        lemma_relative_parts(p, (n - 1) as nat);
    }
}

/// A path is followed piece by piece from the directory on a drive that it is
/// seen from.
pub proof fn law_paths_are_followed_piece_by_piece(
    base: &Vec<char>,
    p: &Vec<char>,
    q: &Vec<char>,
    piece: Seq<char>,
    at: Vec<char>,
    to: Vec<char>,
)
    requires
        call_ensures(normalize_path, (base, p), at),
        call_ensures(normalize_path, (base, q), to),
        component(piece),
        relative(q@),
    ensures
        relative(p@) && on_a_drive(at@) && (q@ == p@ + seq!['\\'] + piece || q@ == p@ + seq!['/']
            + piece) ==> leads(at@, piece, to@),
        on_a_drive(base@) && q@ == piece ==> leads(base@, piece, to@),
{
    assert(slashed(piece) =~= piece);
    assert(paths::slash_free(piece));
    lemma_relative_parts(q@, pieces(q@).len());
    if relative(p@) && on_a_drive(at@) && (q@ == p@ + seq!['\\'] + piece || q@ == p@ + seq!['/']
        + piece) {
        lemma_relative_parts(p@, pieces(p@).len());
        assert(slashed(q@) =~= slashed(p@) + seq!['/'] + piece);
        paths::lemma_parts_step(slashed(p@), piece);
        let before = parts_of(p@);
        let more = paths::piece_part(piece, false);
        assert(parts_of(q@) == before + more);
        assert(walked(base@, before) == at@);
        lemma_leads(at@, piece);
        if more.len() == 0 {
            assert(before + more =~= before);
        } else {
            assert((before + more).drop_last() =~= before);
            assert(walked(base@, parts_of(q@)) == moved(at@, more[0]));
        }
    }
    if on_a_drive(base@) && q@ == piece {
        let none = Seq::<PathPart>::empty();
        paths::lemma_split_none(piece);
        reveal_with_fuel(paths::parts_upto, 2);
        assert(!paths::absolute(piece));
        let parts = parts_of(piece);
        assert(parts =~= paths::piece_part(piece, true));
        lemma_leads(base@, piece);
        assert(parts.drop_last() =~= none);
        assert(walked(base@, none) == base@);
        if piece == seq!['.'] {
            assert(parts[0] == PathPart::Current);
        } else {
            assert(parts[0] == paths::piece_part(piece, false)[0]);
        }
    }
}

} // verus!
