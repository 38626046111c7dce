//! Unix path arithmetic on plain text.
//!
//! A path is a sequence of characters; `/` separates its components. Empty
//! components and `.` components carry no meaning, except a `.` that a
//! relative path starts with.
use vstd::prelude::*;

use crate::text;

verus! {

/// Whether a path starts at the root directory.
pub open spec fn absolute(p: Seq<char>) -> bool {
    p.len() > 0 && p[0] == '/'
}

pub fn is_absolute(p: &Vec<char>) -> (r: bool)
    ensures
        r == absolute(p@),
{
    p.len() > 0 && p[0] == '/'
}

/// The path that `p` names as seen from the directory `base`.
pub open spec fn appended(base: Seq<char>, p: Seq<char>) -> Seq<char> {
    if absolute(p) {
        p
    } else if base.len() > 0 && base.last() != '/' {
        base.push('/') + p
    } else {
        base + p
    }
}

pub fn join_path(base: &Vec<char>, p: &Vec<char>) -> (r: Vec<char>)
    ensures
        r@ == appended(base@, p@),
{
    let mut out: Vec<char> = Vec::new();
    if !is_absolute(p) {
        text::push_all(&mut out, base);
        assert(out@ =~= base@);
        if base.len() > 0 && base[base.len() - 1] != '/' {
            out.push('/');
        }
    }
    text::push_all(&mut out, p);
    assert(absolute(p@) ==> out@ =~= p@);
    out
}

/// One meaningful part of a path.
pub enum PathPart {
    /// The root directory.
    Root,
    /// The `.` that a relative path starts with.
    Current,
    /// A `..`.
    Parent,
    /// A name.
    Normal(Seq<char>),
}

/// What one piece between separators contributes; `leading` tells whether it
/// is the first piece of a relative path.
pub open spec fn piece_part(piece: Seq<char>, leading: bool) -> Seq<PathPart> {
    if piece.len() == 0 {
        Seq::empty()
    } else if piece == seq!['.'] {
        if leading {
            seq![PathPart::Current]
        } else {
            Seq::empty()
        }
    } else if piece == seq!['.', '.'] {
        seq![PathPart::Parent]
    } else {
        seq![PathPart::Normal(piece)]
    }
}

/// The parts of the first `n` pieces of a path, after its root if it has one.
pub open spec fn parts_upto(p: Seq<char>, n: nat) -> Seq<PathPart>
    decreases n,
{
    if n == 0 {
        if absolute(p) {
            seq![PathPart::Root]
        } else {
            Seq::empty()
        }
    } else {
        parts_upto(p, (n - 1) as nat) + piece_part(
            text::split_at_char(p, '/')[n - 1],
            n == 1 && !absolute(p),
        )
    }
}

/// The parts of a path.
pub open spec fn parts_of(p: Seq<char>) -> Seq<PathPart> {
    parts_upto(p, text::split_at_char(p, '/').len())
}

/// How many parts a path has.
pub fn part_count(p: &Vec<char>) -> (r: usize)
    ensures
        r == parts_of(p@).len(),
{
    let pieces = text::split(p, '/');
    let ghost all = text::split_at_char(p@, '/');
    let mut count: usize = if is_absolute(p) {
        1
    } else {
        0
    };
    proof {
        lemma_pieces_bound(p@);
    }
    let mut i: usize = 0;
    while i < pieces.len()
        invariant
            i <= pieces.len(),
            text::texts(pieces@) == all,
            all == text::split_at_char(p@, '/'),
            all.len() <= p@.len() + 1,
            absolute(p@) ==> i > 0 ==> count <= i,
            absolute(p@) ==> i == 0 ==> count == 1,
            !absolute(p@) ==> count <= i,
            count == parts_upto(p@, i as nat).len(),
            absolute(p@) ==> all[0].len() == 0,
        decreases pieces.len() - i,
    {
        assert(all[i as int] == pieces@[i as int]@);
        let leading = i == 0 && !is_absolute(p);
        if has_part(&pieces[i], leading) {
            count = count + 1;
        }
        i = i + 1;
    }
    count
}

/// A path has at most one piece more than it has characters, and the first
/// piece of an absolute path is empty.
proof fn lemma_pieces_bound(p: Seq<char>)
    ensures
        text::split_at_char(p, '/').len() <= p.len() + 1,
        absolute(p) ==> text::split_at_char(p, '/')[0].len() == 0,
    decreases p.len(),
{
    text::lemma_find_char(p, '/');
    let n = text::find_char(p, '/');
    if n < p.len() {
        lemma_pieces_bound(p.skip(n as int + 1));
    }
}

pub(crate) fn is_dot(v: &Vec<char>) -> (r: bool)
    ensures
        r == (v@ == seq!['.']),
{
    let r = v.len() == 1 && v[0] == '.';
    assert(r ==> v@ =~= seq!['.']);
    r
}

pub(crate) fn is_dot_dot(v: &Vec<char>) -> (r: bool)
    ensures
        r == (v@ == seq!['.', '.']),
{
    let r = v.len() == 2 && v[0] == '.' && v[1] == '.';
    assert(r ==> v@ =~= seq!['.', '.']);
    r
}

/// Whether a piece contributes a part.
fn has_part(piece: &Vec<char>, leading: bool) -> (r: bool)
    ensures
        piece_part(piece@, leading).len() == (if r {
            1int
        } else {
            0
        }),
{
    piece.len() != 0 && (leading || !is_dot(piece))
}

/// How many characters of a path stand before its first separable component:
/// the root slash, or the `.` that a relative path starts with.
pub open spec fn front_len(p: Seq<char>) -> nat {
    if absolute(p) {
        1
    } else if p.len() > 0 && p[0] == '.' && (p.len() == 1 || p[1] == '/') {
        1
    } else {
        0
    }
}

fn front_length(p: &Vec<char>) -> (r: usize)
    ensures
        r == front_len(p@),
        r <= p@.len(),
{
    if is_absolute(p) {
        1
    } else if p.len() > 0 && p[0] == '.' && (p.len() == 1 || p[1] == '/') {
        1
    } else {
        0
    }
}

/// The position of the last `/` of `s` from `from` on, or -1.
pub open spec fn last_slash(s: Seq<char>, from: nat) -> int
    decreases s.len(),
{
    if s.len() <= from {
        -1
    } else if s.last() == '/' {
        s.len() - 1
    } else {
        last_slash(s.drop_last(), from)
    }
}

proof fn lemma_last_slash(s: Seq<char>, from: nat)
    ensures
        last_slash(s, from) == -1 || from <= last_slash(s, from) < s.len(),
        last_slash(s, from) >= 0 ==> s[last_slash(s, from)] == '/',
        forall|i: int|
            from <= i < s.len() && i > last_slash(s, from) ==> (#[trigger] s[i]) != '/',
    decreases s.len(),
{
    if s.len() > from && s.last() != '/' {
        lemma_last_slash(s.drop_last(), from);
        assert forall|i: int| from <= i < s.len() && i > last_slash(s, from) implies (
        #[trigger] s[i]) != '/' by {
            if i < s.len() - 1 {
                assert(s.drop_last()[i] == s[i]);
            }
        }
    }
}

/// The last `/` among the characters `from .. len` of `v`.
fn find_last_slash(v: &Vec<char>, from: usize, len: usize) -> (r: Option<usize>)
    requires
        from <= len <= v@.len(),
    ensures
        match r {
            Some(j) => last_slash(v@.take(len as int), from as nat) == j && from <= j < len,
            None => last_slash(v@.take(len as int), from as nat) == -1,
        },
{
    let mut n: usize = len;
    while n > from
        invariant
            from <= n <= len <= v@.len(),
            last_slash(v@.take(len as int), from as nat) == last_slash(
                v@.take(n as int),
                from as nat,
            ),
        decreases n,
    {
        if v[n - 1] == '/' {
            return Some(n - 1);
        }
        assert(v@.take(n as int).drop_last() =~= v@.take(n - 1));
        n = n - 1;
    }
    None
}

/// Where the last component of `s` behind its front starts.
pub open spec fn last_start(s: Seq<char>, front: nat) -> int {
    if last_slash(s, front) < 0 {
        front as int
    } else {
        last_slash(s, front) + 1
    }
}

/// Where `s` ends once its last component behind the front is cut off.
pub open spec fn last_cut(s: Seq<char>, front: nat) -> int {
    if last_slash(s, front) < 0 {
        front as int
    } else {
        last_slash(s, front)
    }
}

/// `s` without the empty and `.` components at its end.
pub open spec fn settled(s: Seq<char>, front: nat) -> Seq<char>
    decreases s.len(),
{
    if s.len() <= front {
        s
    } else {
        let last = s.skip(last_start(s, front));
        let cut = last_cut(s, front);
        if (last.len() == 0 || last == seq!['.']) && 0 <= cut < s.len() {
            settled(s.take(cut), front)
        } else {
            s
        }
    }
}

/// How many of the first `len` characters of `v` remain once the empty and `.`
/// components at the end are dropped.
fn settled_length(v: &Vec<char>, front: usize, len: usize) -> (r: usize)
    requires
        front <= len <= v@.len(),
    ensures
        front <= r <= len,
        settled(v@.take(len as int), front as nat) == v@.take(r as int),
        r > front ==> {
            let s = v@.take(r as int);
            let last = s.skip(last_start(s, front as nat));
            last.len() > 0 && last != seq!['.']
        },
{
    let mut n: usize = len;
    while n > front
        invariant
            front <= n <= len <= v@.len(),
            settled(v@.take(len as int), front as nat) == settled(v@.take(n as int), front as nat),
        decreases n,
    {
        let ghost s = v@.take(n as int);
        let (start, cut): (usize, usize) = match find_last_slash(v, front, n) {
            Some(j) => (j + 1, j),
            None => (front, front),
        };
        assert(start == last_start(s, front as nat));
        assert(cut == last_cut(s, front as nat));
        let last = text::piece(v, start, n);
        assert(last@ =~= s.skip(start as int));
        if last.len() == 0 || is_dot(&last) {
            assert(s.take(cut as int) =~= v@.take(cut as int));
            n = cut;
        } else {
            return n;
        }
    }
    n
}

/// The directory that holds what `p` names; none for the root and for the
/// empty path.
pub open spec fn parent_of(p: Seq<char>) -> Option<Seq<char>> {
    let front = front_len(p);
    let s = settled(p, front);
    if s.len() <= front {
        if absolute(p) || p.len() == 0 {
            None
        } else {
            Some(Seq::empty())
        }
    } else {
        Some(settled(s.take(last_cut(s, front)), front))
    }
}

pub fn parent_path(p: &Vec<char>) -> (r: Option<Vec<char>>)
    ensures
        match r {
            Some(d) => parent_of(p@) == Some(d@) && d@.len() < p@.len(),
            None => parent_of(p@) is None,
        },
{
    let front = front_length(p);
    assert(p@.take(p@.len() as int) =~= p@);
    let n = settled_length(p, front, p.len());
    let ghost s = p@.take(n as int);
    if n <= front {
        if is_absolute(p) || p.len() == 0 {
            None
        } else {
            let empty: Vec<char> = Vec::new();
            assert(empty@ =~= Seq::<char>::empty());
            Some(empty)
        }
    } else {
        let cut: usize = match find_last_slash(p, front, n) {
            Some(j) => j,
            None => front,
        };
        assert(s.take(cut as int) =~= p@.take(cut as int));
        let m = settled_length(p, front, cut);
        let dir = text::piece(p, 0, m);
        assert(dir@ =~= p@.take(m as int));
        Some(dir)
    }
}

/// `p` once its last component is removed; a path without a parent stays.
pub open spec fn popped(p: Seq<char>) -> Seq<char> {
    match parent_of(p) {
        Some(d) => d,
        None => p,
    }
}

/// The name that a path ends in: none if the path ends in `..`, or has no
/// component behind its front.
pub open spec fn file_name_of(p: Seq<char>) -> Option<Seq<char>> {
    let front = front_len(p);
    let s = settled(p, front);
    if s.len() <= front {
        None
    } else {
        let last = s.skip(last_start(s, front));
        if last == seq!['.', '.'] {
            None
        } else {
            Some(last)
        }
    }
}

pub fn file_name(p: &Vec<char>) -> (r: Option<Vec<char>>)
    ensures
        match r {
            Some(name) => file_name_of(p@) == Some(name@),
            None => file_name_of(p@) is None,
        },
{
    let front = front_length(p);
    assert(p@.take(p@.len() as int) =~= p@);
    let n = settled_length(p, front, p.len());
    if n <= front {
        return None;
    }
    let ghost s = p@.take(n as int);
    let start: usize = match find_last_slash(p, front, n) {
        Some(j) => j + 1,
        None => front,
    };
    let last = text::piece(p, start, n);
    assert(last@ =~= s.skip(start as int));
    if is_dot_dot(&last) {
        None
    } else {
        Some(last)
    }
}

/// The path `out` changed by one part of another path.
pub open spec fn moved(out: Seq<char>, part: PathPart) -> Seq<char> {
    match part {
        PathPart::Root => seq!['/'],
        PathPart::Current => out,
        PathPart::Parent => popped(out),
        PathPart::Normal(name) => appended(out, name),
    }
}

/// The path `base` changed by each of `parts` in turn.
pub open spec fn walked(base: Seq<char>, parts: Seq<PathPart>) -> Seq<char>
    decreases parts.len(),
{
    if parts.len() == 0 {
        base
    } else {
        moved(walked(base, parts.drop_last()), parts.last())
    }
}

/// The path that `p` names as seen from `base`, with every `.` and `..` of `p`
/// carried out on the text.
pub open spec fn normalized(base: Seq<char>, p: Seq<char>) -> Seq<char> {
    let out = walked(base, parts_of(p));
    if out.len() == 0 {
        seq!['/']
    } else {
        out
    }
}

pub fn normalize_path(base: &Vec<char>, p: &Vec<char>) -> (r: Vec<char>)
    ensures
        r@ == normalized(base@, p@),
{
    let pieces = text::split(p, '/');
    let ghost all = text::split_at_char(p@, '/');
    let mut out: Vec<char> = Vec::new();
    if is_absolute(p) {
        out.push('/');
        proof {
            let root = parts_upto(p@, 0);
            assert(root.drop_last() =~= Seq::<PathPart>::empty());
            assert(walked(base@, root.drop_last()) == base@);
            assert(out@ =~= seq!['/']);
        }
    } else {
        text::push_all(&mut out, base);
        assert(out@ =~= base@);
    }
    let mut i: usize = 0;
    while i < pieces.len()
        invariant
            i <= pieces.len(),
            text::texts(pieces@) == all,
            all == text::split_at_char(p@, '/'),
            out@ == walked(base@, parts_upto(p@, i as nat)),
        decreases pieces.len() - i,
    {
        assert(all[i as int] == pieces@[i as int]@);
        let leading = i == 0 && !is_absolute(p);
        let name = &pieces[i];
        let ghost before = parts_upto(p@, i as nat);
        let ghost added = piece_part(name@, leading);
        if name.len() == 0 {
            assert(before + added =~= before);
        } else if is_dot(name) {
            proof {
                if leading {
                    assert((before + added).drop_last() =~= before);
                } else {
                    assert(before + added =~= before);
                }
            }
        } else if is_dot_dot(name) {
            assert((before + added).drop_last() =~= before);
            match parent_path(&out) {
                Some(dir) => {
                    out = dir;
                },
                None => {},
            }
        } else {
            assert((before + added).drop_last() =~= before);
            out = join_path(&out, name);
        }
        i = i + 1;
    }
    if out.len() == 0 {
        out.push('/');
        assert(out@ =~= seq!['/']);
    }
    out
}

proof fn lemma_settled_keeps_front(s: Seq<char>, front: nat)
    requires
        front <= s.len(),
    ensures
        front <= settled(s, front).len() <= s.len(),
        settled(s, front) == s.take(settled(s, front).len() as int),
    decreases s.len(),
{
    if s.len() > front {
        lemma_last_slash(s, front);
        let cut = last_cut(s, front);
        if settled(s, front) != s {
            lemma_settled_keeps_front(s.take(cut), front);
            let n = settled(s, front).len() as int;
            assert(s.take(cut).take(n) =~= s.take(n));
        } else {
            assert(s.take(s.len() as int) =~= s);
        }
    } else {
        assert(s.take(s.len() as int) =~= s);
    }
}

/// The directory that holds an absolute path is absolute.
proof fn lemma_popped_absolute(p: Seq<char>)
    requires
        absolute(p),
    ensures
        absolute(popped(p)),
{
    let s = settled(p, 1);
    lemma_settled_keeps_front(p, 1);
    if s.len() > 1 {
        lemma_last_slash(s, 1);
        let cut = last_cut(s, 1);
        lemma_settled_keeps_front(s.take(cut), 1);
        assert(settled(s.take(cut), 1)[0] == '/');
    }
}

/// Walking from an absolute path leads to an absolute path.
proof fn lemma_walked_absolute(base: Seq<char>, parts: Seq<PathPart>)
    requires
        absolute(base),
    ensures
        absolute(walked(base, parts)),
    decreases parts.len(),
{
    if parts.len() > 0 {
        lemma_walked_absolute(base, parts.drop_last());
        lemma_popped_absolute(walked(base, parts.drop_last()));
    }
}

/// Whether no `/` occurs in `s`.
pub open spec fn slash_free(s: Seq<char>) -> bool {
    forall|i: int| 0 <= i < s.len() ==> (#[trigger] s[i]) != '/'
}

pub(crate) proof fn lemma_split_none(s: Seq<char>)
    requires
        slash_free(s),
    ensures
        text::split_at_char(s, '/') == seq![s],
{
    text::lemma_find_char(s, '/');
}

/// A text is split at its last `/` last.
proof fn lemma_split_last(s: Seq<char>, j: int)
    requires
        0 <= j < s.len(),
        s[j] == '/',
        slash_free(s.skip(j + 1)),
    ensures
        text::split_at_char(s, '/') == text::split_at_char(s.take(j), '/').push(s.skip(j + 1)),
    decreases s.len(),
{
    text::lemma_find_char(s, '/');
    let n = text::find_char(s, '/') as int;
    assert(n <= j);
    if n == j {
        lemma_split_none(s.skip(j + 1));
        lemma_split_none(s.take(j));
        assert(text::split_at_char(s, '/') =~= text::split_at_char(s.take(j), '/').push(
            s.skip(j + 1),
        ));
    } else {
        let t = s.skip(n + 1);
        let k = j - n - 1;
        assert(t.skip(k + 1) =~= s.skip(j + 1));
        lemma_split_last(t, k);
        let front = s.take(j);
        text::lemma_find_char(front, '/');
        assert(front[n] == '/');
        assert(text::find_char(front, '/') == n);
        assert(front.skip(n + 1) =~= t.take(k));
        assert(front.take(n) =~= s.take(n));
        assert(text::split_at_char(s, '/') =~= text::split_at_char(front, '/').push(s.skip(j + 1)));
    }
}

proof fn lemma_split_pieces(s: Seq<char>)
    ensures
        forall|i: int|
            0 <= i < text::split_at_char(s, '/').len() ==> slash_free(
                #[trigger] text::split_at_char(s, '/')[i],
            ),
    decreases s.len(),
{
    text::lemma_find_char(s, '/');
    let n = text::find_char(s, '/') as int;
    if n < s.len() {
        let rest = s.skip(n + 1);
        lemma_split_pieces(rest);
        assert forall|i: int| 0 <= i < text::split_at_char(s, '/').len() implies slash_free(
            #[trigger] text::split_at_char(s, '/')[i],
        ) by {
            if i > 0 {
                assert(text::split_at_char(s, '/')[i] == text::split_at_char(rest, '/')[i - 1]);
            }
        }
    }
}

proof fn lemma_parts_agree(p: Seq<char>, q: Seq<char>, n: nat)
    requires
        absolute(p) == absolute(q),
        n <= text::split_at_char(p, '/').len(),
        n <= text::split_at_char(q, '/').len(),
        forall|i: int|
            0 <= i < n ==> (#[trigger] text::split_at_char(p, '/')[i]) == text::split_at_char(
                q,
                '/',
            )[i],
    ensures
        parts_upto(p, n) == parts_upto(q, n),
    decreases n,
{
    if n > 0 {
        lemma_parts_agree(p, q, (n - 1) as nat);
        assert(text::split_at_char(p, '/')[n - 1] == text::split_at_char(q, '/')[n - 1]);
    }
}

/// What stands behind the last `/` of an absolute path adds its part to those
/// of what stands before it.
proof fn lemma_parts_last(s: Seq<char>, j: int)
    requires
        absolute(s),
        0 <= j < s.len(),
        s[j] == '/',
        slash_free(s.skip(j + 1)),
    ensures
        j == 0 ==> parts_of(s) == seq![PathPart::Root] + piece_part(s.skip(1), false),
        j > 0 ==> parts_of(s) == parts_of(s.take(j)) + piece_part(s.skip(j + 1), false),
{
    lemma_split_last(s, j);
    let front = s.take(j);
    let all = text::split_at_char(s, '/');
    let before = text::split_at_char(front, '/');
    assert(all.last() == s.skip(j + 1));
    if j > 0 {
        assert forall|i: int| 0 <= i < before.len() implies (#[trigger] all[i]) == before[i] by {}
        lemma_parts_agree(s, front, before.len());
    } else {
        lemma_split_none(front);
        reveal_with_fuel(parts_upto, 3);
        assert(all[0] == front);
        assert(parts_upto(s, 1) =~= seq![PathPart::Root]);
    }
}

pub(crate) proof fn lemma_root_parts()
    ensures
        parts_of(seq!['/']) == seq![PathPart::Root],
{
    let root = seq!['/'];
    assert(root.skip(1) =~= Seq::<char>::empty());
    lemma_parts_last(root, 0);
    assert(parts_of(root) =~= seq![PathPart::Root]);
}

proof fn lemma_parts_appended(out: Seq<char>, name: Seq<char>)
    requires
        absolute(out),
        name.len() > 0,
        slash_free(name),
    ensures
        parts_of(appended(out, name)) == parts_of(out) + piece_part(name, false),
{
    let s = appended(out, name);
    assert(!absolute(name)) by {
        assert(name[0] != '/');
    }
    if out.last() != '/' {
        let j = out.len() as int;
        assert(s.take(j) =~= out);
        assert(s.skip(j + 1) =~= name);
        lemma_parts_last(s, j);
    } else {
        let j = out.len() - 1;
        assert(s.skip(j + 1) =~= name);
        assert(out.skip(j + 1) =~= Seq::<char>::empty());
        assert(s.take(j) =~= out.take(j));
        lemma_parts_last(s, j);
        lemma_parts_last(out, j);
        assert(piece_part(Seq::empty(), false) =~= Seq::<PathPart>::empty());
        assert(parts_of(s) =~= parts_of(out) + piece_part(name, false));
    }
}

/// The last component of an absolute path adds its part to those of the path
/// without it.
proof fn lemma_parts_cut(s: Seq<char>)
    requires
        absolute(s),
        s.len() > 1,
    ensures
        ({
            let cut = last_cut(s, 1);
            let last = s.skip(last_start(s, 1));
            &&& 1 <= cut < s.len()
            &&& absolute(s.take(cut))
            &&& slash_free(last)
            &&& parts_of(s) == parts_of(s.take(cut)) + piece_part(last, false)
        }),
{
    lemma_last_slash(s, 1);
    let j = last_slash(s, 1);
    let last = s.skip(last_start(s, 1));
    assert(slash_free(last)) by {
        assert forall|i: int| 0 <= i < last.len() implies (#[trigger] last[i]) != '/' by {
            assert(last[i] == s[i + last_start(s, 1)]);
        }
    }
    if j < 0 {
        lemma_parts_last(s, 0);
        assert(s.take(1) =~= seq!['/']);
        lemma_root_parts();
    } else {
        lemma_parts_last(s, j);
    }
}

proof fn lemma_parts_settled(s: Seq<char>)
    requires
        absolute(s),
    ensures
        absolute(settled(s, 1)),
        parts_of(settled(s, 1)) == parts_of(s),
        settled(settled(s, 1), 1) == settled(s, 1),
    decreases s.len(),
{
    if s.len() > 1 {
        lemma_parts_cut(s);
        let cut = last_cut(s, 1);
        let last = s.skip(last_start(s, 1));
        if last.len() == 0 || last == seq!['.'] {
            assert(piece_part(last, false) =~= Seq::<PathPart>::empty());
            assert(parts_of(s) =~= parts_of(s.take(cut)));
            lemma_parts_settled(s.take(cut));
        }
    }
}

proof fn lemma_root_comes_first(p: Seq<char>, n: nat)
    requires
        absolute(p),
    ensures
        parts_upto(p, n).len() > 0,
        parts_upto(p, n)[0] == PathPart::Root,
    decreases n,
{
    if n > 0 {
        lemma_root_comes_first(p, (n - 1) as nat);
    }
}

/// The parts `parts` changed by one part of another path: a `..` takes the last
/// one away, but never the root.
pub open spec fn stepped(parts: Seq<PathPart>, part: PathPart) -> Seq<PathPart> {
    match part {
        PathPart::Root => seq![PathPart::Root],
        PathPart::Current => parts,
        PathPart::Parent => if parts.len() > 1 {
            parts.drop_last()
        } else {
            parts
        },
        PathPart::Normal(name) => parts.push(part),
    }
}

/// The parts `base` changed by each of `parts` in turn.
pub open spec fn stacked(base: Seq<PathPart>, parts: Seq<PathPart>) -> Seq<PathPart>
    decreases parts.len(),
{
    if parts.len() == 0 {
        base
    } else {
        stepped(stacked(base, parts.drop_last()), parts.last())
    }
}

proof fn lemma_parts_popped(p: Seq<char>)
    requires
        absolute(p),
    ensures
        absolute(popped(p)),
        parts_of(popped(p)) == stepped(parts_of(p), PathPart::Parent),
{
    let s = settled(p, 1);
    lemma_parts_settled(p);
    lemma_settled_keeps_front(p, 1);
    if s.len() > 1 {
        lemma_parts_cut(s);
        let cut = last_cut(s, 1);
        let d = s.take(cut);
        let last = s.skip(last_start(s, 1));
        lemma_parts_settled(d);
        lemma_settled_keeps_front(d, 1);
        lemma_root_comes_first(d, text::split_at_char(d, '/').len());
        assert(last.len() > 0 && last != seq!['.']) by {
            if last.len() == 0 || last == seq!['.'] {
                lemma_settled_keeps_front(s.take(cut), 1);
            }
        }
        assert(piece_part(last, false).len() == 1);
        assert(parts_of(p).drop_last() =~= parts_of(d));
    } else {
        assert(s =~= seq!['/']);
        lemma_root_parts();
    }
}

/// Whether a name can stand in a path as it is.
pub open spec fn proper(part: PathPart) -> bool {
    part matches PathPart::Normal(name) ==> name.len() > 0 && slash_free(name) && name != seq!['.']
        && name != seq!['.', '.']
}

/// Whether these are the root and names below it: no `.` and no `..`.
pub open spec fn plain(parts: Seq<PathPart>) -> bool {
    &&& parts.len() > 0
    &&& parts[0] == PathPart::Root
    &&& forall|i: int| 0 < i < parts.len() ==> (#[trigger] parts[i]) is Normal
}

spec fn all_proper(parts: Seq<PathPart>) -> bool {
    forall|i: int| 0 <= i < parts.len() ==> proper(#[trigger] parts[i])
}

proof fn lemma_parts_proper(p: Seq<char>, n: nat)
    requires
        n <= text::split_at_char(p, '/').len(),
    ensures
        all_proper(parts_upto(p, n)),
    decreases n,
{
    if n > 0 {
        lemma_parts_proper(p, (n - 1) as nat);
        lemma_split_pieces(p);
        assert(slash_free(text::split_at_char(p, '/')[n - 1]));
    }
}

proof fn lemma_walked_parts(base: Seq<char>, parts: Seq<PathPart>)
    requires
        absolute(base),
        all_proper(parts),
    ensures
        absolute(walked(base, parts)),
        parts_of(walked(base, parts)) == stacked(parts_of(base), parts),
    decreases parts.len(),
{
    if parts.len() > 0 {
        let before = parts.drop_last();
        assert(all_proper(before)) by {
            assert forall|i: int| 0 <= i < before.len() implies proper(#[trigger] before[i]) by {
                assert(before[i] == parts[i]);
            }
        }
        lemma_walked_parts(base, before);
        let out = walked(base, before);
        assert(proper(parts[parts.len() - 1]));
        match parts.last() {
            PathPart::Root => {
                lemma_root_parts();
            },
            PathPart::Current => {},
            PathPart::Parent => {
                lemma_parts_popped(out);
            },
            PathPart::Normal(name) => {
                lemma_parts_appended(out, name);
                assert(parts_of(out) + seq![PathPart::Normal(name)] =~= parts_of(out).push(
                    PathPart::Normal(name),
                ));
                assert(name[0] != '/');
            },
        }
    }
}

proof fn lemma_stacked_plain(base: Seq<PathPart>, parts: Seq<PathPart>)
    requires
        plain(base),
        all_proper(base),
        all_proper(parts),
    ensures
        plain(stacked(base, parts)),
        all_proper(stacked(base, parts)),
    decreases parts.len(),
{
    if parts.len() > 0 {
        let before = parts.drop_last();
        assert(all_proper(before)) by {
            assert forall|i: int| 0 <= i < before.len() implies proper(#[trigger] before[i]) by {
                assert(before[i] == parts[i]);
            }
        }
        lemma_stacked_plain(base, before);
        assert(proper(parts[parts.len() - 1]));
    }
}

proof fn lemma_stacked_itself(base: Seq<PathPart>, parts: Seq<PathPart>)
    requires
        plain(parts),
    ensures
        stacked(base, parts) == parts,
    decreases parts.len(),
{
    let before = parts.drop_last();
    if parts.len() == 1 {
        assert(stacked(base, parts) =~= parts);
    } else {
        assert(plain(before)) by {
            assert forall|i: int| 0 < i < before.len() implies (#[trigger] before[i]) is Normal by {
                assert(before[i] == parts[i]);
            }
        }
        lemma_stacked_itself(base, before);
        assert(parts[parts.len() - 1] is Normal);
        assert(stacked(base, parts) =~= parts);
    }
}

/// An absolute path that ends in none of the components without a meaning.
spec fn tidy(p: Seq<char>) -> bool {
    absolute(p) && settled(p, 1) == p
}

proof fn lemma_tidy_appended(d: Seq<char>, name: Seq<char>)
    requires
        tidy(d),
        proper(PathPart::Normal(name)),
    ensures
        tidy(appended(d, name)),
        popped(appended(d, name)) == d,
{
    let s = appended(d, name);
    assert(name[0] != '/');
    lemma_last_slash(s, 1);
    if d.len() == 1 {
        assert(d =~= seq!['/']);
        assert(s =~= d + name);
        assert(last_slash(s, 1) == -1) by {
            if last_slash(s, 1) >= 1 {
                assert(s[last_slash(s, 1)] == name[last_slash(s, 1) - 1]);
            }
        }
        assert(s.skip(1) =~= name);
        assert(s.take(1) =~= d);
    } else {
        assert(d.last() != '/') by {
            if d.last() == '/' {
                lemma_last_slash(d, 1);
                assert(last_slash(d, 1) == d.len() - 1);
                assert(d.skip(d.len() as int).len() == 0);
                lemma_settled_keeps_front(d.take(d.len() - 1), 1);
            }
        }
        let j = d.len() as int;
        assert(last_slash(s, 1) == j) by {
            assert(s[j] == '/');
            if last_slash(s, 1) > j {
                assert(s[last_slash(s, 1)] == name[last_slash(s, 1) - j - 1]);
            }
        }
        assert(s.skip(j + 1) =~= name);
        assert(s.take(j) =~= d);
    }
}

/// Walking from the root along plain parts, and then on by one part, leads to
/// where the changed parts lead.
proof fn lemma_tidy_step(parts: Seq<PathPart>, part: PathPart)
    requires
        plain(parts),
        all_proper(parts),
    ensures
        tidy(walked(seq!['/'], parts)),
        moved(walked(seq!['/'], parts), part) == walked(seq!['/'], stepped(parts, part)),
    decreases parts.len(),
{
    let root = seq!['/'];
    let out = walked(root, parts);
    let before = parts.drop_last();
    if parts.len() == 1 {
        assert(before.len() == 0);
        assert(out == root);
        assert(popped(root) == root);
    } else {
        assert(plain(before)) by {
            assert forall|i: int| 0 < i < before.len() implies (#[trigger] before[i]) is Normal by {
                assert(before[i] == parts[i]);
            }
        }
        assert(all_proper(before)) by {
            assert forall|i: int| 0 <= i < before.len() implies proper(#[trigger] before[i]) by {
                assert(before[i] == parts[i]);
            }
        }
        lemma_tidy_step(before, PathPart::Current);
        let last = parts[parts.len() - 1];
        assert(last is Normal && proper(last));
        lemma_tidy_appended(walked(root, before), last->Normal_0);
    }
    match part {
        PathPart::Root => {
            let just = seq![PathPart::Root];
            assert(just.drop_last() =~= Seq::<PathPart>::empty());
            assert(walked(root, just.drop_last()) == root);
        },
        PathPart::Normal(name) => {
            assert(parts.push(part).drop_last() =~= parts);
        },
        _ => {},
    }
}

proof fn lemma_tidy_walk(base: Seq<PathPart>, parts: Seq<PathPart>)
    requires
        plain(base),
        all_proper(base),
        all_proper(parts),
    ensures
        walked(walked(seq!['/'], base), parts) == walked(seq!['/'], stacked(base, parts)),
    decreases parts.len(),
{
    if parts.len() > 0 {
        let before = parts.drop_last();
        assert(all_proper(before)) by {
            assert forall|i: int| 0 <= i < before.len() implies proper(#[trigger] before[i]) by {
                assert(before[i] == parts[i]);
            }
        }
        lemma_tidy_walk(base, before);
        lemma_stacked_plain(base, before);
        lemma_tidy_step(stacked(base, before), parts.last());
    }
}

/// From an absolute base every path leads to an absolute one, whose parts are
/// those of the base changed by each part of the path in turn: a name goes in, a
/// `..` takes the last one out but stays at the root, and an absolute path starts
/// at the root anew.
pub proof fn law_normalized_parts(base: Seq<char>, p: Seq<char>)
    requires
        absolute(base),
    ensures
        absolute(normalized(base, p)),
        parts_of(normalized(base, p)) == stacked(parts_of(base), parts_of(p)),
{
    lemma_parts_proper(p, text::split_at_char(p, '/').len());
    lemma_walked_parts(base, parts_of(p));
}

/// From a base without `.` and `..` every path leads to one without them.
pub proof fn law_normalized_is_plain(base: Seq<char>, p: Seq<char>)
    requires
        absolute(base),
        plain(parts_of(base)),
    ensures
        absolute(normalized(base, p)),
        plain(parts_of(normalized(base, p))),
{
    law_normalized_parts(base, p);
    lemma_parts_proper(p, text::split_at_char(p, '/').len());
    lemma_parts_proper(base, text::split_at_char(base, '/').len());
    lemma_stacked_plain(parts_of(base), parts_of(p));
}

/// Where an absolute path leads does not depend on the base.
pub proof fn law_absolute_path_forgets_the_base(base: Seq<char>, other: Seq<char>, p: Seq<char>)
    requires
        absolute(p),
    ensures
        normalized(base, p) == normalized(other, p),
{
    lemma_same_walk(base, other, p, text::split_at_char(p, '/').len());
}

proof fn lemma_same_walk(base: Seq<char>, other: Seq<char>, p: Seq<char>, n: nat)
    requires
        absolute(p),
        n <= text::split_at_char(p, '/').len(),
    ensures
        walked(base, parts_upto(p, n)) == walked(other, parts_upto(p, n)),
    decreases n,
{
    let parts = parts_upto(p, n);
    if n == 0 {
        assert(parts.last() == PathPart::Root);
    } else {
        lemma_same_walk(base, other, p, (n - 1) as nat);
        let before = parts_upto(p, (n - 1) as nat);
        let added = piece_part(text::split_at_char(p, '/')[n - 1], n == 1 && !absolute(p));
        if added.len() == 0 {
            assert(parts =~= before);
        } else {
            assert(parts.drop_last() =~= before);
        }
    }
}

/// Normalizing what has been normalized changes none of its parts, and not the
/// text either if the base was in that form or the path was absolute.
pub proof fn law_normalized_again(base: Seq<char>, p: Seq<char>)
    requires
        absolute(base),
        plain(parts_of(base)),
    ensures
        parts_of(normalized(seq!['/'], normalized(base, p))) == parts_of(normalized(base, p)),
        absolute(p) || normalized(seq!['/'], base) == base ==> normalized(
            seq!['/'],
            normalized(base, p),
        ) == normalized(base, p),
{
    let root = seq!['/'];
    let r = normalized(base, p);
    law_normalized_is_plain(base, p);
    law_normalized_parts(root, r);
    lemma_root_parts();
    lemma_stacked_itself(parts_of(root), parts_of(r));
    lemma_parts_proper(p, text::split_at_char(p, '/').len());
    if absolute(p) {
        law_absolute_path_forgets_the_base(base, root, p);
        lemma_normal_form(root, p);
        assert(walked(root, parts_of(root)) == root) by {
            assert(parts_of(root).drop_last() =~= Seq::<PathPart>::empty());
        }
    } else if normalized(root, base) == base {
        lemma_normal_form(base, p);
    }
}

proof fn lemma_normal_form(base: Seq<char>, p: Seq<char>)
    requires
        absolute(base),
        plain(parts_of(base)),
        normalized(seq!['/'], base) == base,
    ensures
        normalized(seq!['/'], normalized(base, p)) == normalized(base, p),
{
    let root = seq!['/'];
    let b = parts_of(base);
    lemma_parts_proper(p, text::split_at_char(p, '/').len());
    lemma_parts_proper(base, text::split_at_char(base, '/').len());
    law_normalized_parts(base, p);
    lemma_stacked_plain(b, parts_of(p));
    lemma_walked_absolute(root, b);
    lemma_tidy_walk(b, parts_of(p));
    lemma_walked_absolute(base, parts_of(p));
    lemma_walked_absolute(root, parts_of(normalized(base, p)));
}

/// An absolute path stands for itself, and any other is seen from a directory by
/// putting the two together with one slash between them.
pub proof fn law_paths_are_put_together_with_a_slash(
    base: &Vec<char>,
    p: &Vec<char>,
    from_root: bool,
    joined: Vec<char>,
)
    requires
        call_ensures(is_absolute, (p,), from_root),
        call_ensures(join_path, (base, p), joined),
    ensures
        from_root <==> p@.len() > 0 && p@[0] == '/',
        p@.len() > 0 && p@[0] == '/' ==> joined@ == p@,
        (p@.len() == 0 || p@[0] != '/') && base@.len() > 0 && base@.last() != '/' ==> joined@
            == base@ + seq!['/'] + p@,
        (p@.len() == 0 || p@[0] != '/') && (base@.len() == 0 || base@.last() == '/') ==> joined@
            == base@ + p@,
{
    assert(base@.push('/') + p@ =~= base@ + seq!['/'] + p@);
}

/// Whether `name` is one that a file can have.
pub open spec fn file_named(name: Seq<char>) -> bool {
    &&& name.len() > 0
    &&& forall|i: int| 0 <= i < name.len() ==> (#[trigger] name[i]) != '/'
    &&& name != seq!['.']
    &&& name != seq!['.', '.']
}

/// Whether `d` is the root, or starts there and ends neither in a slash nor in a
/// `.` of its own.
pub open spec fn directory_named(d: Seq<char>) -> bool {
    &&& d.len() > 0
    &&& d[0] == '/'
    &&& d.len() > 1 ==> d.last() != '/' && !(d.last() == '.' && d[d.len() - 2] == '/')
}

proof fn lemma_directory_tidy(d: Seq<char>)
    requires
        directory_named(d),
    ensures
        tidy(d),
{
    if d.len() > 1 {
        lemma_last_slash(d, 1);
        let j = last_slash(d, 1);
        let start = last_start(d, 1);
        let last = d.skip(start);
        assert(last.len() > 0);
        if last == seq!['.'] {
            assert(start == d.len() - 1);
            assert(last[0] == d.last());
            assert(d[d.len() - 2] == '/');
        }
    }
}

pub(crate) proof fn lemma_named_below(d: Seq<char>, name: Seq<char>)
    requires
        directory_named(d),
        file_named(name),
    ensures
        ({
            let p = if d.len() == 1 {
                d + name
            } else {
                d + seq!['/'] + name
            };
            &&& p == appended(d, name)
            &&& file_name_of(p) == Some(name)
            &&& parent_of(p) == Some(d)
        }),
{
    lemma_directory_tidy(d);
    assert(proper(PathPart::Normal(name)));
    assert(slash_free(name));
    assert(name[0] != '/');
    lemma_tidy_appended(d, name);
    let s = appended(d, name);
    assert(d.push('/') + name =~= d + seq!['/'] + name);
    if d.len() == 1 {
        assert(d =~= seq!['/']);
    }
    lemma_last_slash(s, 1);
    if d.len() == 1 {
        assert(last_slash(s, 1) == -1) by {
            if last_slash(s, 1) >= 1 {
                assert(s[last_slash(s, 1)] == name[last_slash(s, 1) - 1]);
            }
        }
        assert(s.skip(1) =~= name);
    } else {
        let j = d.len() as int;
        assert(last_slash(s, 1) == j) by {
            assert(s[j] == '/');
            if last_slash(s, 1) > j {
                assert(s[last_slash(s, 1)] == name[last_slash(s, 1) - j - 1]);
            }
        }
        assert(s.skip(j + 1) =~= name);
        assert(s.take(j) =~= d);
    }
}

/// What a path names is told from its last slash: the name stands behind it and
/// the directory before. The root is in no directory and has no name.
pub proof fn law_name_stands_behind_the_last_slash(
    p: &Vec<char>,
    d: Seq<char>,
    name: Seq<char>,
    dir: Option<Vec<char>>,
    own: Option<Vec<char>>,
)
    requires
        call_ensures(parent_path, (p,), dir),
        call_ensures(file_name, (p,), own),
    ensures
        directory_named(d) && d.len() > 1 && file_named(name) && p@ == d + seq!['/'] + name
            ==> dir is Some && dir->0@ == d && own is Some && own->0@ == name,
        file_named(name) && p@ == seq!['/'] + name ==> dir is Some && dir->0@ == seq!['/']
            && own is Some && own->0@ == name,
        file_named(name) && p@ == name ==> dir is Some && dir->0@.len() == 0 && own is Some
            && own->0@ == name,
        p@ == seq!['/'] ==> dir is None && own is None,
        p@.len() == 0 ==> dir is None && own is None,
        directory_named(d) && d.len() > 1 && p@ == d + seq!['/', '.', '.'] ==> dir is Some
            && dir->0@ == d && own is None,
{
    let root = seq!['/'];
    if directory_named(d) && file_named(name) {
        lemma_named_below(d, name);
    }
    if file_named(name) && p@ == root + name {
        lemma_named_below(root, name);
    }
    if file_named(name) && p@ == name {
        assert(slash_free(name));
        assert(name[0] != '/');
        lemma_last_slash(name, 0);
        assert(front_len(name) == 0) by {
            if name[0] == '.' && name.len() == 1 {
                assert(name =~= seq!['.']);
            }
            if name.len() > 1 {
                assert(name[1] != '/');
            }
        }
        assert(last_slash(name, 0) == -1);
        assert(name.skip(0) =~= name);
        assert(name.take(0).len() == 0);
    }
    if directory_named(d) && d.len() > 1 && p@ == d + seq!['/', '.', '.'] {
        lemma_directory_tidy(d);
        let s = p@;
        let up = seq!['.', '.'];
        let j = d.len() as int;
        lemma_last_slash(s, 1);
        assert(s[j] == '/');
        assert(s[j + 1] == '.' && s[j + 2] == '.');
        assert(s.len() == j + 3);
        assert(last_slash(s, 1) == j);
        assert(s.skip(j + 1) =~= up);
        assert(up[0] == '.' && up.len() == 2);
        assert(s.take(j) =~= d);
    }
}

pub(crate) proof fn lemma_parts_step(p: Seq<char>, b: Seq<char>)
    requires
        p.len() > 0,
        slash_free(b),
    ensures
        parts_of(p + seq!['/'] + b) == parts_of(p) + piece_part(b, false),
{
    let s = p + seq!['/'] + b;
    let j = p.len() as int;
    assert(s.skip(j + 1) =~= b);
    assert(s.take(j) =~= p);
    lemma_split_last(s, j);
    let all = text::split_at_char(s, '/');
    let before = text::split_at_char(p, '/');
    assert(all.last() == b);
    assert(before.len() > 0);
    assert forall|i: int| 0 <= i < before.len() implies (#[trigger] all[i]) == before[i] by {}
    lemma_parts_agree(s, p, before.len());
}

proof fn lemma_walked_piece(base: Seq<char>, parts: Seq<PathPart>, b: Seq<char>)
    ensures
        piece_part(b, false).len() == 0 ==> walked(base, parts + piece_part(b, false)) == walked(
            base,
            parts,
        ),
        piece_part(b, false).len() > 0 ==> walked(base, parts + piece_part(b, false)) == moved(
            walked(base, parts),
            piece_part(b, false)[0],
        ),
{
    let more = piece_part(b, false);
    if more.len() == 0 {
        assert(parts + more =~= parts);
    } else {
        assert((parts + more).drop_last() =~= parts);
    }
}

/// Where one more piece of a path leads from `at`: nowhere else for an empty one
/// and a `.`, up for a `..`, and down for a name.
pub open spec fn leads(at: Seq<char>, piece: Seq<char>, to: Seq<char>) -> bool {
    &&& piece.len() == 0 || piece == seq!['.'] ==> to == at
    &&& piece == seq!['.', '.'] && at == seq!['/'] ==> to == at
    &&& forall|d: Seq<char>, name: Seq<char>|
        piece == seq!['.', '.'] && directory_named(d) && d.len() > 1 && file_named(name) && at
            == #[trigger] (d + seq!['/'] + name) ==> to == d
    &&& forall|name: Seq<char>|
        piece == seq!['.', '.'] && file_named(name) && at == #[trigger] (seq!['/'] + name) ==> to
            == seq!['/']
    &&& file_named(piece) ==> to == (if at.last() == '/' {
        at + piece
    } else {
        at + seq!['/'] + piece
    })
}

proof fn lemma_leads(at: Seq<char>, piece: Seq<char>)
    requires
        absolute(at),
        slash_free(piece),
    ensures
        leads(
            at,
            piece,
            if piece_part(piece, false).len() == 0 {
                at
            } else {
                moved(at, piece_part(piece, false)[0])
            },
        ),
{
    let root = seq!['/'];
    let up = seq!['.', '.'];
    let here = seq!['.'];
    assert(up.len() == 2 && here.len() == 1);
    assert forall|d: Seq<char>, name: Seq<char>|
        piece == up && directory_named(d) && d.len() > 1 && file_named(name) && at == #[trigger] (d
            + seq!['/'] + name) implies popped(at) == d by {
        lemma_named_below(d, name);
    }
    assert forall|name: Seq<char>|
        piece == up && file_named(name) && at == #[trigger] (root + name) implies popped(at)
        == root by {
        lemma_named_below(root, name);
    }
    if file_named(piece) {
        assert(piece[0] != '/');
        assert(at.push('/') + piece =~= at + seq!['/'] + piece);
    }
    if at == root {
        assert(popped(root) == root);
    }
}

/// A path is followed piece by piece from the directory that it is seen from,
/// or from the root if it starts there.
pub proof fn law_paths_are_followed_piece_by_piece(
    base: &Vec<char>,
    p: &Vec<char>,
    q: &Vec<char>,
    piece: Seq<char>,
    at: Vec<char>,
    to: Vec<char>,
)
    requires
        call_ensures(normalize_path, (base, p), at),
        call_ensures(normalize_path, (base, q), to),
        base@.len() > 0,
        base@[0] == '/',
        forall|i: int| 0 <= i < piece.len() ==> (#[trigger] piece[i]) != '/',
    ensures
        p@.len() > 0 && q@ == p@ + seq!['/'] + piece ==> leads(at@, piece, to@),
        q@ == piece ==> leads(base@, piece, to@),
        q@ == seq!['/'] + piece ==> leads(seq!['/'], piece, to@),
{
    let root = seq!['/'];
    assert(slash_free(piece));
    if p@.len() > 0 && q@ == p@ + seq!['/'] + piece {
        lemma_walked_absolute(base@, parts_of(p@));
        lemma_walked_absolute(base@, parts_of(q@));
        lemma_parts_step(p@, piece);
        lemma_walked_piece(base@, parts_of(p@), piece);
        lemma_leads(at@, piece);
    }
    if q@ == piece {
        let none = Seq::<PathPart>::empty();
        lemma_split_none(piece);
        reveal_with_fuel(parts_upto, 2);
        assert(!absolute(piece)) by {
            if piece.len() > 0 {
                assert(piece[0] != '/');
            }
        }
        let parts = parts_of(piece);
        assert(parts =~= piece_part(piece, true));
        lemma_walked_absolute(base@, parts);
        lemma_leads(base@, piece);
        if parts.len() > 0 {
            assert(parts.drop_last() =~= none);
            assert(walked(base@, none) == base@);
            if piece == seq!['.'] {
                assert(parts[0] == PathPart::Current);
            } else {
                assert(parts[0] == piece_part(piece, false)[0]);
            }
        }
    }
    if q@ == root + piece {
        let none = Seq::<PathPart>::empty();
        assert(q@.skip(1) =~= piece);
        lemma_parts_last(q@, 0);
        let just = seq![PathPart::Root];
        assert(just.drop_last() =~= none);
        assert(walked(base@, just) == root);
        lemma_walked_absolute(base@, parts_of(q@));
        lemma_walked_piece(base@, just, piece);
        lemma_leads(root, piece);
    }
}


} // verus!
