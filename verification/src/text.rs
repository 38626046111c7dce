//! Text primitives: the handful of string operations that the configuration
//! parser, the path functions and the message builders are made of.
//!
//! Strings are modelled as sequences of characters. Every executable function
//! here is proved equal to a specification function of the same purpose.
use vstd::prelude::*;
use vstd::string::*;

verus! {

/// `String::push` appends one character to the end of the string.
pub assume_specification[ String::push ](s: &mut String, ch: char)
    ensures
        final(s)@ == old(s)@.push(ch),
;

/// The text of bytes that should be UTF-8, with replacement characters for what
/// is not.
pub uninterp spec fn lossy_text(bytes: Seq<u8>) -> Seq<char>;

/// `String::from_utf8_lossy`: the text of the bytes, with replacement characters
/// for what is not UTF-8. It depends on the bytes alone, and bytes that are UTF-8
/// give the text that they encode.
#[verifier::external_body]
pub(crate) fn decode_lossy(bytes: &Vec<u8>) -> (r: String)
    ensures
        r@ == lossy_text(bytes@),
        vstd::utf8::valid_utf8(bytes@) ==> r@ == vstd::utf8::decode_utf8(bytes@),
{
    String::from_utf8_lossy(bytes).into_owned()
}

/// The characters of `s`, in order.
pub fn chars_of(s: &str) -> (r: Vec<char>)
    ensures
        r@ == s@,
{
    let mut out: Vec<char> = Vec::new();
    for c in it: s.chars()
        invariant
            out@ == s@.take(it.index() as int),
            it.seq() == s@,
    {
        out.push(c);
        assert(s@.take(it.index() as int).push(c) =~= s@.take(it.index() + 1));
    }
    assert(s@.take(s@.len() as int) =~= s@);
    out
}

/// The string made of the characters of `v`.
pub fn string_of(v: &Vec<char>) -> (r: String)
    ensures
        r@ == v@,
{
    let mut out = String::new();
    let mut i: usize = 0;
    while i < v.len()
        invariant
            i <= v.len(),
            out@ == v@.take(i as int),
        decreases v.len() - i,
    {
        out.push(v[i]);
        assert(v@.take(i as int).push(v@[i as int]) =~= v@.take(i + 1));
        i = i + 1;
    }
    assert(v@.take(v@.len() as int) =~= v@);
    out
}

/// A copy of the characters of `v` from `from` up to, not including, `to`.
pub fn piece(v: &Vec<char>, from: usize, to: usize) -> (r: Vec<char>)
    requires
        from <= to <= v@.len(),
    ensures
        r@ == v@.subrange(from as int, to as int),
{
    let mut out: Vec<char> = Vec::new();
    let mut i: usize = from;
    while i < to
        invariant
            from <= i <= to <= v@.len(),
            out@ == v@.subrange(from as int, i as int),
        decreases to - i,
    {
        out.push(v[i]);
        assert(v@.subrange(from as int, i as int).push(v@[i as int]) =~= v@.subrange(
            from as int,
            i + 1,
        ));
        i = i + 1;
    }
    out
}

/// Whether two character vectors hold the same text.
pub fn same_text(a: &Vec<char>, b: &Vec<char>) -> (r: bool)
    ensures
        r == (a@ == b@),
{
    if a.len() != b.len() {
        return false;
    }
    let mut i: usize = 0;
    while i < a.len()
        invariant
            i <= a.len(),
            a@.len() == b@.len(),
            forall|j: int| 0 <= j < i ==> a@[j] == b@[j],
        decreases a.len() - i,
    {
        if a[i] != b[i] {
            return false;
        }
        i = i + 1;
    }
    assert(a@ =~= b@);
    true
}

/// Whether `v` spells `s`.
pub fn spells(v: &Vec<char>, s: &str) -> (r: bool)
    ensures
        r == (v@ == s@),
{
    let other = chars_of(s);
    same_text(v, &other)
}

/// Whether two strings hold the same text.
pub fn same_str(a: &str, b: &str) -> (r: bool)
    ensures
        r == (a@ == b@),
{
    let left = chars_of(a);
    spells(&left, b)
}

pub open spec fn has_prefix(s: Seq<char>, prefix: Seq<char>) -> bool {
    prefix.len() <= s.len() && s.take(prefix.len() as int) == prefix
}

/// Whether `v` begins with `prefix`.
pub fn begins_with(v: &Vec<char>, prefix: &str) -> (r: bool)
    ensures
        r == has_prefix(v@, prefix@),
{
    let p = chars_of(prefix);
    if p.len() > v.len() {
        return false;
    }
    let head = piece(v, 0, p.len());
    assert(head@ == v@.take(p@.len() as int));
    same_text(&head, &p)
}

/// Whether `part` stands somewhere in `s`.
pub open spec fn occurs(s: Seq<char>, part: Seq<char>) -> bool {
    exists|i: int| 0 <= i <= s.len() - part.len() && #[trigger] s.subrange(i, i + part.len()) == part
}

/// Whether `part` stands somewhere in `v`.
pub fn contains_text(v: &Vec<char>, part: &Vec<char>) -> (r: bool)
    ensures
        r == occurs(v@, part@),
{
    let total: usize = v.len();
    if part.len() > total {
        return false;
    }
    let last: usize = total - part.len();
    let mut i: usize = 0;
    while i <= last
        invariant
            total == v@.len(),
            last == total - part@.len(),
            i <= last + 1,
            forall|j: int| 0 <= j < i ==> #[trigger] v@.subrange(j, j + part@.len()) != part@,
        decreases last + 1 - i,
    {
        let here = piece(v, i, i + part.len());
        assert(here@ =~= v@.subrange(i as int, i + part@.len()));
        if same_text(&here, part) {
            return true;
        }
        if i == last {
            return false;
        }
        i = i + 1;
    }
    false
}

/// The characters that Unicode lists under `White_Space`.
pub open spec fn whitespace(c: char) -> bool {
    ||| '\u{9}' <= c <= '\u{d}'
    ||| c == '\u{20}'
    ||| c == '\u{85}'
    ||| c == '\u{a0}'
    ||| c == '\u{1680}'
    ||| '\u{2000}' <= c <= '\u{200a}'
    ||| c == '\u{2028}'
    ||| c == '\u{2029}'
    ||| c == '\u{202f}'
    ||| c == '\u{205f}'
    ||| c == '\u{3000}'
}

pub fn is_whitespace(c: char) -> (r: bool)
    ensures
        r == whitespace(c),
{
    ('\u{9}' <= c && c <= '\u{d}') || c == '\u{20}' || c == '\u{85}' || c == '\u{a0}' || c
        == '\u{1680}' || ('\u{2000}' <= c && c <= '\u{200a}') || c == '\u{2028}' || c == '\u{2029}'
        || c == '\u{202f}' || c == '\u{205f}' || c == '\u{3000}'
}

pub open spec fn trimmed_start(s: Seq<char>) -> Seq<char>
    decreases s.len(),
{
    if s.len() > 0 && whitespace(s[0]) {
        trimmed_start(s.skip(1))
    } else {
        s
    }
}

pub open spec fn trimmed_end(s: Seq<char>) -> Seq<char>
    decreases s.len(),
{
    if s.len() > 0 && whitespace(s.last()) {
        trimmed_end(s.drop_last())
    } else {
        s
    }
}

/// `s` without the white space at either end.
pub open spec fn trimmed(s: Seq<char>) -> Seq<char> {
    trimmed_end(trimmed_start(s))
}

/// The first position from `from` on that holds no white space.
fn skip_whitespace(v: &Vec<char>, from: usize) -> (r: usize)
    requires
        from <= v@.len(),
    ensures
        from <= r <= v@.len(),
        trimmed_start(v@.skip(from as int)) == v@.skip(r as int),
        r < v@.len() ==> !whitespace(v@[r as int]),
{
    let mut i: usize = from;
    while i < v.len() && is_whitespace(v[i])
        invariant
            from <= i <= v@.len(),
            trimmed_start(v@.skip(from as int)) == trimmed_start(v@.skip(i as int)),
        decreases v.len() - i,
    {
        assert(v@.skip(i as int).skip(1) =~= v@.skip(i + 1));
        i = i + 1;
    }
    i
}

/// `v` without the white space at either end.
pub fn trim(v: &Vec<char>) -> (r: Vec<char>)
    ensures
        r@ == trimmed(v@),
{
    let start = skip_whitespace(v, 0);
    assert(v@.skip(0) =~= v@);
    let mut end: usize = v.len();
    assert(v@.skip(start as int) =~= v@.subrange(start as int, end as int));
    while end > start && is_whitespace(v[end - 1])
        invariant
            start <= end <= v@.len(),
            trimmed_end(v@.skip(start as int)) == trimmed_end(
                v@.subrange(start as int, end as int),
            ),
        decreases end,
    {
        assert(v@.subrange(start as int, end as int).drop_last() =~= v@.subrange(
            start as int,
            end - 1,
        ));
        end = end - 1;
    }
    piece(v, start, end)
}

/// The length of the leading run of characters that are no white space.
pub open spec fn word_len(s: Seq<char>) -> nat
    decreases s.len(),
{
    if s.len() == 0 || whitespace(s[0]) {
        0
    } else {
        1 + word_len(s.skip(1))
    }
}

proof fn lemma_word_len_bound(s: Seq<char>)
    ensures
        word_len(s) <= s.len(),
    decreases s.len(),
{
    if s.len() > 0 && !whitespace(s[0]) {
        lemma_word_len_bound(s.skip(1));
    }
}

proof fn lemma_trimmed_start_bound(s: Seq<char>)
    ensures
        trimmed_start(s).len() <= s.len(),
        trimmed_start(s).len() > 0 ==> !whitespace(trimmed_start(s)[0]),
    decreases s.len(),
{
    if s.len() > 0 && whitespace(s[0]) {
        lemma_trimmed_start_bound(s.skip(1));
    }
}

/// The words of `s`: the maximal runs of characters that are no white space.
pub open spec fn words_of(s: Seq<char>) -> Seq<Seq<char>>
    decreases s.len(),
{
    let t = trimmed_start(s);
    let n = word_len(t);
    if t.len() == 0 || t.len() > s.len() || !(0 < n <= t.len()) {
        Seq::empty()
    } else {
        seq![t.take(n as int)] + words_of(t.skip(n as int))
    }
}

/// The view of a vector of texts.
pub open spec fn texts(v: Seq<Vec<char>>) -> Seq<Seq<char>> {
    v.map_values(|w: Vec<char>| w@)
}

proof fn lemma_texts_push(v: Seq<Vec<char>>, w: Vec<char>)
    ensures
        texts(v.push(w)) == texts(v).push(w@),
{
    assert(texts(v.push(w)) =~= texts(v).push(w@));
}

pub fn words(v: &Vec<char>) -> (r: Vec<Vec<char>>)
    ensures
        texts(r@) == words_of(v@),
{
    let mut out: Vec<Vec<char>> = Vec::new();
    let mut pos: usize = 0;
    assert(v@.skip(0) =~= v@);
    assert(texts(out@) + words_of(v@) =~= words_of(v@));
    loop
        invariant_except_break
            pos <= v@.len(),
            texts(out@) + words_of(v@.skip(pos as int)) == words_of(v@),
        ensures
            texts(out@) == words_of(v@),
        decreases v.len() - pos,
    {
        let ghost rest = v@.skip(pos as int);
        let start = skip_whitespace(v, pos);
        if start == v.len() {
            assert(words_of(rest) =~= Seq::<Seq<char>>::empty());
            assert(texts(out@) + words_of(rest) =~= texts(out@));
            break;
        }
        let mut end: usize = start;
        let ghost t = v@.skip(start as int);
        while end < v.len() && !is_whitespace(v[end])
            invariant
                start <= end <= v@.len(),
                t == v@.skip(start as int),
                word_len(t) == (end - start) + word_len(v@.skip(end as int)),
            decreases v.len() - end,
        {
            assert(v@.skip(end as int).skip(1) =~= v@.skip(end + 1));
            end = end + 1;
        }
        let word = piece(v, start, end);
        proof {
            lemma_word_len_bound(t);
            lemma_trimmed_start_bound(rest);
            assert(word_len(t) == end - start);
            assert(end > start);
            assert(t.take(end - start) =~= word@);
            assert(t.skip(end - start) =~= v@.skip(end as int));
            lemma_texts_push(out@, word);
            assert(texts(out@).push(word@) + words_of(v@.skip(end as int)) =~= texts(out@) + (seq![
                word@,
            ] + words_of(v@.skip(end as int))));
        }
        out.push(word);
        pos = end;
    }
    out
}

/// The position of the first `sep` in `s`, or the length of `s`.
pub open spec fn find_char(s: Seq<char>, sep: char) -> nat
    decreases s.len(),
{
    if s.len() == 0 || s[0] == sep {
        0
    } else {
        1 + find_char(s.skip(1), sep)
    }
}

pub proof fn lemma_find_char(s: Seq<char>, sep: char)
    ensures
        find_char(s, sep) <= s.len(),
        find_char(s, sep) < s.len() ==> s[find_char(s, sep) as int] == sep,
        forall|i: int| 0 <= i < find_char(s, sep) ==> s[i] != sep,
    decreases s.len(),
{
    if s.len() > 0 && s[0] != sep {
        lemma_find_char(s.skip(1), sep);
        assert forall|i: int| 0 <= i < find_char(s, sep) implies s[i] != sep by {
            if i > 0 {
                assert(s.skip(1)[i - 1] == s[i]);
            }
        }
    }
}

/// The position of the first `sep` from `from` on, or the length of `v`.
pub fn position_of(v: &Vec<char>, from: usize, sep: char) -> (r: usize)
    requires
        from <= v@.len(),
    ensures
        from <= r <= v@.len(),
        r - from == find_char(v@.skip(from as int), sep),
        r < v@.len() ==> v@[r as int] == sep,
{
    let mut i: usize = from;
    while i < v.len() && v[i] != sep
        invariant
            from <= i <= v@.len(),
            find_char(v@.skip(from as int), sep) == (i - from) + find_char(
                v@.skip(i as int),
                sep,
            ),
        decreases v.len() - i,
    {
        assert(v@.skip(i as int).skip(1) =~= v@.skip(i + 1));
        i = i + 1;
    }
    i
}

/// The pieces of `s` between the occurrences of `sep`.
pub open spec fn split_at_char(s: Seq<char>, sep: char) -> Seq<Seq<char>>
    decreases s.len(),
{
    let n = find_char(s, sep);
    if n >= s.len() {
        seq![s]
    } else {
        seq![s.take(n as int)] + split_at_char(s.skip(n as int + 1), sep)
    }
}

pub fn split(v: &Vec<char>, sep: char) -> (r: Vec<Vec<char>>)
    ensures
        texts(r@) == split_at_char(v@, sep),
{
    let mut out: Vec<Vec<char>> = Vec::new();
    let mut pos: usize = 0;
    assert(v@.skip(0) =~= v@);
    assert(texts(out@) + split_at_char(v@, sep) =~= split_at_char(v@, sep));
    loop
        invariant_except_break
            pos <= v@.len(),
            texts(out@) + split_at_char(v@.skip(pos as int), sep) == split_at_char(v@, sep),
        ensures
            texts(out@) == split_at_char(v@, sep),
        decreases v.len() - pos,
    {
        let ghost rest = v@.skip(pos as int);
        let end = position_of(v, pos, sep);
        let part = piece(v, pos, end);
        proof {
            lemma_texts_push(out@, part);
        }
        if end == v.len() {
            assert(part@ =~= rest);
            assert(texts(out@).push(part@) =~= texts(out@) + seq![rest]);
            out.push(part);
            break;
        }
        proof {
            assert(rest.take(end - pos) =~= part@);
            assert(rest.skip(end - pos + 1) =~= v@.skip(end + 1));
            assert(texts(out@).push(part@) + split_at_char(v@.skip(end + 1), sep) =~= texts(out@)
                + (seq![part@] + split_at_char(v@.skip(end + 1), sep)));
        }
        out.push(part);
        pos = end + 1;
    }
    out
}

/// The ASCII lower-case form of a character.
pub open spec fn lower(c: char) -> char {
    if 'A' <= c && c <= 'Z' {
        ((c as u8 + 32) as u8) as char
    } else {
        c
    }
}

pub open spec fn lowered(s: Seq<char>) -> Seq<char> {
    s.map_values(|c: char| lower(c))
}

pub fn lower_char(c: char) -> (r: char)
    ensures
        r == lower(c),
{
    if 'A' <= c && c <= 'Z' {
        ((c as u8) + 32u8) as char
    } else {
        c
    }
}

/// The ASCII lower-case form of a text.
pub fn lowercase(v: &Vec<char>) -> (r: Vec<char>)
    ensures
        r@ == lowered(v@),
{
    let mut out: Vec<char> = Vec::new();
    let mut i: usize = 0;
    while i < v.len()
        invariant
            i <= v.len(),
            out@.len() == i,
            forall|j: int| 0 <= j < i ==> out@[j] == lower(v@[j]),
        decreases v.len() - i,
    {
        out.push(lower_char(v[i]));
        i = i + 1;
    }
    assert(out@ =~= lowered(v@));
    out
}

/// The texts of `parts`, with one blank between neighbours.
pub open spec fn joined(parts: Seq<Seq<char>>) -> Seq<char>
    decreases parts.len(),
{
    if parts.len() == 0 {
        Seq::empty()
    } else if parts.len() == 1 {
        parts[0]
    } else {
        joined(parts.drop_last()).push(' ') + parts.last()
    }
}

pub fn join(parts: &Vec<Vec<char>>) -> (r: Vec<char>)
    ensures
        r@ == joined(texts(parts@)),
{
    let mut out: Vec<char> = Vec::new();
    let mut i: usize = 0;
    let ghost all = texts(parts@);
    while i < parts.len()
        invariant
            i <= parts.len(),
            all == texts(parts@),
            out@ == joined(all.take(i as int)),
        decreases parts.len() - i,
    {
        let ghost before = out@;
        proof {
            assert(all.take(i + 1).drop_last() =~= all.take(i as int));
            assert(all.take(i + 1).last() == parts@[i as int]@);
        }
        if i > 0 {
            out.push(' ');
        } else {
            assert(Seq::<char>::empty() + parts@[i as int]@ =~= parts@[i as int]@);
        }
        push_all(&mut out, &parts[i]);
        i = i + 1;
    }
    assert(all.take(all.len() as int) =~= all);
    out
}

/// Appends the characters of `tail` to `out`.
pub fn push_all(out: &mut Vec<char>, tail: &Vec<char>)
    ensures
        final(out)@ == old(out)@ + tail@,
{
    let ghost start = out@;
    let mut i: usize = 0;
    assert(start + tail@.take(0) =~= start);
    while i < tail.len()
        invariant
            i <= tail.len(),
            out@ == start + tail@.take(i as int),
        decreases tail.len() - i,
    {
        out.push(tail[i]);
        assert((start + tail@.take(i as int)).push(tail@[i as int]) =~= start + tail@.take(i + 1));
        i = i + 1;
    }
    assert(tail@.take(tail@.len() as int) =~= tail@);
}

pub open spec fn digit(c: char) -> bool {
    '0' <= c <= '9'
}

pub open spec fn digit_value(c: char) -> nat {
    (c as u32 - '0' as u32) as nat
}

pub open spec fn digit_char(n: nat) -> char {
    ((n % 10 + 48) as u8) as char
}

/// How many decimal digits `s` begins with.
pub open spec fn digit_run(s: Seq<char>) -> nat
    decreases s.len(),
{
    if s.len() == 0 || !digit(s[0]) {
        0
    } else {
        1 + digit_run(s.skip(1))
    }
}

/// The length of the run of digits that `v` begins with.
pub fn leading_digits(v: &Vec<char>) -> (r: usize)
    ensures
        r == digit_run(v@),
        r <= v@.len(),
{
    let mut i: usize = 0;
    assert(v@.skip(0) =~= v@);
    while i < v.len() && '0' <= v[i] && v[i] <= '9'
        invariant
            i <= v@.len(),
            digit_run(v@) == i + digit_run(v@.skip(i as int)),
        decreases v.len() - i,
    {
        assert(v@.skip(i as int).skip(1) =~= v@.skip(i + 1));
        i = i + 1;
    }
    i
}

/// Why a text is no unsigned integer of the wanted width.
#[derive(Clone, Copy, Debug, PartialEq, Eq, Structural)]
pub enum IntegerError {
    /// The text is empty.
    Empty,
    /// A character that is no decimal digit stands where a digit should.
    InvalidDigit,
    /// The number exceeds the largest value of the type.
    TooLarge,
}

/// The number that the first `n` characters of `s` spell in decimal; the error
/// is the one of the leftmost character that makes the reading fail.
pub open spec fn digits_value(s: Seq<char>, n: nat, max: nat) -> Result<nat, IntegerError>
    decreases n,
{
    if n == 0 {
        Ok(0)
    } else {
        match digits_value(s, (n - 1) as nat, max) {
            Err(e) => Err(e),
            Ok(v) => if !digit(s[n - 1]) {
                Err(IntegerError::InvalidDigit)
            } else if v * 10 + digit_value(s[n - 1]) > max {
                Err(IntegerError::TooLarge)
            } else {
                Ok(v * 10 + digit_value(s[n - 1]))
            },
        }
    }
}

/// The unsigned integer that `s` spells: an optional plus sign, then at least
/// one decimal digit.
pub open spec fn unsigned_value(s: Seq<char>, max: nat) -> Result<nat, IntegerError> {
    if s.len() == 0 {
        Err(IntegerError::Empty)
    } else if s[0] == '+' {
        if s.len() == 1 {
            Err(IntegerError::InvalidDigit)
        } else {
            digits_value(s.skip(1), (s.len() - 1) as nat, max)
        }
    } else {
        digits_value(s, s.len(), max)
    }
}

/// Once the reading of a prefix fails, the reading of the whole fails alike.
proof fn lemma_digits_error_stays(s: Seq<char>, m: nat, n: nat, max: nat)
    requires
        m <= n,
        digits_value(s, m, max) is Err,
    ensures
        digits_value(s, n, max) == digits_value(s, m, max),
    decreases n,
{
    if m < n {
        lemma_digits_error_stays(s, m, (n - 1) as nat, max);
    }
}

/// Reads `v` from position `from` on as decimal digits.
fn parse_digits(v: &Vec<char>, from: usize, max: u64) -> (r: Result<u64, IntegerError>)
    requires
        from <= v@.len(),
    ensures
        match digits_value(v@.skip(from as int), (v@.len() - from) as nat, max as nat) {
            Ok(n) => r == Ok::<u64, IntegerError>(n as u64) && n <= max,
            Err(e) => r == Err::<u64, IntegerError>(e),
        },
{
    let ghost s = v@.skip(from as int);
    let mut value: u64 = 0;
    let mut i: usize = from;
    while i < v.len()
        invariant
            from <= i <= v@.len(),
            s == v@.skip(from as int),
            value <= max,
            digits_value(s, (i - from) as nat, max as nat) == Ok::<nat, IntegerError>(value as nat),
        decreases v.len() - i,
    {
        let c = v[i];
        assert(s[i - from] == c);
        let ghost done = (i - from) as nat;
        if !('0' <= c && c <= '9') {
            proof {
                assert(digits_value(s, done + 1, max as nat) is Err);
                lemma_digits_error_stays(s, done + 1, s.len(), max as nat);
            }
            return Err(IntegerError::InvalidDigit);
        }
        let d: u64 = (c as u32 - '0' as u32) as u64;
        if d > max || value > (max - d) / 10 {
            proof {
                assert(value * 10 + d > max) by {
                    if d <= max {
                        assert(value >= (max - d) / 10 + 1);
                    }
                }
                assert(digits_value(s, done + 1, max as nat) is Err);
                lemma_digits_error_stays(s, done + 1, s.len(), max as nat);
            }
            return Err(IntegerError::TooLarge);
        }
        value = value * 10 + d;
        i = i + 1;
    }
    Ok(value)
}

/// Reads `v` as an unsigned integer no greater than `max`.
pub fn parse_unsigned(v: &Vec<char>, max: u64) -> (r: Result<u64, IntegerError>)
    ensures
        match unsigned_value(v@, max as nat) {
            Ok(n) => r == Ok::<u64, IntegerError>(n as u64) && n <= max,
            Err(e) => r == Err::<u64, IntegerError>(e),
        },
{
    if v.len() == 0 {
        return Err(IntegerError::Empty);
    }
    assert(v@.skip(0) =~= v@);
    if v[0] == '+' {
        if v.len() == 1 {
            Err(IntegerError::InvalidDigit)
        } else {
            parse_digits(v, 1, max)
        }
    } else {
        parse_digits(v, 0, max)
    }
}

/// The decimal numeral of `n`.
pub open spec fn decimal(n: nat) -> Seq<char>
    decreases n,
{
    if n < 10 {
        seq![digit_char(n)]
    } else {
        decimal(n / 10).push(digit_char(n % 10))
    }
}

pub fn decimal_of(n: u64) -> (r: String)
    ensures
        r@ == decimal(n as nat),
    decreases n,
{
    let last: char = ((n % 10) as u8 + 48u8) as char;
    assert(last == digit_char(n as nat));
    if n < 10 {
        let mut out = String::new();
        out.push(last);
        assert(out@ =~= seq![last]);
        out
    } else {
        let mut out = decimal_of(n / 10);
        assert(digit_char(n as nat % 10) == last);
        out.push(last);
        out
    }
}

/// Reading the decimal numeral of a number gives the number back.
pub proof fn law_decimal_reads_back(n: nat, max: nat)
    requires
        n <= max,
    ensures
        unsigned_value(decimal(n), max) == Ok::<nat, IntegerError>(n),
{
    lemma_decimal_digits(n, max);
    lemma_decimal_shape(n);
    assert(decimal(n)[0] != '+');
}

pub(crate) proof fn lemma_decimal_shape(n: nat)
    ensures
        decimal(n).len() > 0,
        forall|i: int| 0 <= i < decimal(n).len() ==> digit(#[trigger] decimal(n)[i]),
    decreases n,
{
    if n >= 10 {
        lemma_decimal_shape(n / 10);
    }
}

proof fn lemma_decimal_digits(n: nat, max: nat)
    requires
        n <= max,
    ensures
        digits_value(decimal(n), decimal(n).len(), max) == Ok::<nat, IntegerError>(n),
    decreases n,
{
    let s = decimal(n);
    if n < 10 {
        assert(digits_value(s, 0, max) == Ok::<nat, IntegerError>(0));
        assert(digits_value(s, 1, max) == Ok::<nat, IntegerError>(n));
    } else {
        lemma_decimal_digits(n / 10, max);
        let t = decimal(n / 10);
        lemma_digits_prefix(s, t, t.len(), max);
        assert(s.last() == digit_char(n % 10));
    }
}

proof fn lemma_digits_prefix(s: Seq<char>, t: Seq<char>, n: nat, max: nat)
    requires
        n <= t.len() <= s.len(),
        forall|i: int| 0 <= i < t.len() ==> s[i] == t[i],
    ensures
        digits_value(s, n, max) == digits_value(t, n, max),
    decreases n,
{
    if n > 0 {
        lemma_digits_prefix(s, t, (n - 1) as nat, max);
    }
}

/// The lower-case form of a text is as long as the text; its letters from `A` to
/// `Z` become those from `a` to `z`, which stand 32 places behind, and nothing
/// else changes.
pub proof fn law_lower_case_changes_only_capitals(s: Seq<char>, i: int)
    requires
        0 <= i < s.len(),
    ensures
        lowered(s).len() == s.len(),
        65 <= s[i] as u32 <= 90 ==> lowered(s)[i] as u32 == s[i] as u32 + 32,
        !(65 <= s[i] as u32 <= 90) ==> lowered(s)[i] == s[i],
        lowered(lowered(s)) == lowered(s),
{
    assert(lowered(lowered(s)) =~= lowered(s));
}

/// White space is the blank, the tab, the ends of lines and pages, and what
/// Unicode adds to them.
pub proof fn law_white_space_is_what_unicode_lists(c: char, r: bool)
    requires
        call_ensures(is_whitespace, (c,), r),
    ensures
        (c as u32) < 0x80 ==> (r <==> c as u32 == 32 || 9 <= c as u32 <= 13),
        c as u32 >= 0x80 ==> (r <==> c as u32 == 0x85 || c as u32 == 0xa0 || c as u32 == 0x1680
            || 0x2000 <= c as u32 <= 0x200a || c as u32 == 0x2028 || c as u32 == 0x2029 || c as u32
            == 0x202f || c as u32 == 0x205f || c as u32 == 0x3000),
{
}

/// Whether every character of a text is white space.
pub open spec fn blank(s: Seq<char>) -> bool {
    forall|i: int| 0 <= i < s.len() ==> whitespace(#[trigger] s[i])
}

proof fn lemma_start_cut(s: Seq<char>) -> (a: int)
    ensures
        0 <= a <= s.len(),
        trimmed_start(s) == s.skip(a),
        blank(s.take(a)),
        a < s.len() ==> !whitespace(s[a]),
    decreases s.len(),
{
    if s.len() > 0 && whitespace(s[0]) {
        let rest = s.skip(1);
        let b = lemma_start_cut(rest);
        assert(rest.skip(b) =~= s.skip(b + 1));
        assert forall|i: int| 0 <= i < b + 1 implies whitespace(#[trigger] s.take(b + 1)[i]) by {
            if i > 0 {
                assert(rest.take(b)[i - 1] == s[i]);
            }
        }
        b + 1
    } else {
        assert(s.skip(0) =~= s);
        0
    }
}

proof fn lemma_end_cut(s: Seq<char>) -> (b: int)
    ensures
        0 <= b <= s.len(),
        trimmed_end(s) == s.take(b),
        blank(s.skip(b)),
        b > 0 ==> !whitespace(s[b - 1]),
    decreases s.len(),
{
    if s.len() > 0 && whitespace(s.last()) {
        let rest = s.drop_last();
        let b = lemma_end_cut(rest);
        assert(rest.take(b) =~= s.take(b));
        assert forall|i: int| 0 <= i < s.len() - b implies whitespace(#[trigger] s.skip(b)[i]) by {
            if i < rest.len() - b {
                assert(rest.skip(b)[i] == s[b + i]);
            }
        }
        b
    } else {
        assert(s.take(s.len() as int) =~= s);
        s.len() as int
    }
}

/// What trimming takes off is white space, at either end, and all of it: the
/// rest neither begins nor ends with any.
pub proof fn law_trimming_takes_off_white_space(s: Seq<char>)
    ensures
        exists|a: int, b: int|
            0 <= a <= b <= s.len() && #[trigger] s.subrange(a, b) == trimmed(s) && blank(s.take(a))
                && blank(s.skip(b)),
        trimmed(s).len() > 0 ==> !whitespace(trimmed(s)[0]) && !whitespace(trimmed(s).last()),
        blank(s) ==> trimmed(s).len() == 0,
{
    let a = lemma_start_cut(s);
    let t = trimmed_start(s);
    let c = lemma_end_cut(t);
    let b = a + c;
    assert(s.subrange(a, b) =~= trimmed(s));
    assert forall|i: int| 0 <= i < s.len() - b implies whitespace(#[trigger] s.skip(b)[i]) by {
        assert(t.skip(c)[i] == s[b + i]);
    }
    if c > 0 {
        assert(t[0] == s[a]);
    }
}

/// Whether a text can be a word: it is not empty and holds no white space.
pub open spec fn wordlike(s: Seq<char>) -> bool {
    s.len() > 0 && forall|i: int| 0 <= i < s.len() ==> !whitespace(#[trigger] s[i])
}

proof fn lemma_word_len_of(w: Seq<char>, rest: Seq<char>)
    requires
        forall|i: int| 0 <= i < w.len() ==> !whitespace(#[trigger] w[i]),
        rest.len() > 0 ==> whitespace(rest[0]),
    ensures
        word_len(w + rest) == w.len(),
    decreases w.len(),
{
    let s = w + rest;
    if w.len() > 0 {
        let v = w.skip(1);
        assert forall|i: int| 0 <= i < v.len() implies !whitespace(#[trigger] v[i]) by {
            assert(v[i] == w[i + 1]);
        }
        lemma_word_len_of(v, rest);
        assert(s.skip(1) =~= v + rest);
        assert(s[0] == w[0]);
    } else if rest.len() > 0 {
        assert(s[0] == rest[0]);
    }
}

proof fn lemma_leading_blanks(pad: Seq<char>, s: Seq<char>)
    requires
        blank(pad),
    ensures
        trimmed_start(pad + s) == trimmed_start(s),
    decreases pad.len(),
{
    let t = pad + s;
    if pad.len() > 0 {
        let rest = pad.skip(1);
        assert(t[0] == pad[0]);
        assert forall|i: int| 0 <= i < rest.len() implies whitespace(#[trigger] rest[i]) by {
            assert(rest[i] == pad[i + 1]);
        }
        lemma_leading_blanks(rest, s);
        assert(t.skip(1) =~= rest + s);
    } else {
        assert(t =~= s);
    }
}

/// A text is read word by word: blanks in front are passed over, a word reaches
/// up to the next white space, and what follows is read likewise.
pub proof fn law_words_are_read_one_by_one(pad: Seq<char>, word: Seq<char>, rest: Seq<char>)
    requires
        blank(pad),
        wordlike(word),
        rest.len() > 0 ==> whitespace(rest[0]),
    ensures
        words_of(pad + word + rest) == seq![word] + words_of(rest),
        words_of(pad).len() == 0,
{
    let s = pad + word + rest;
    let t = word + rest;
    assert(s =~= pad + t);
    lemma_leading_blanks(pad, t);
    assert(t[0] == word[0]);
    assert(trimmed_start(s) == t);
    lemma_word_len_of(word, rest);
    assert(t.take(word.len() as int) =~= word);
    assert(t.skip(word.len() as int) =~= rest);
    assert(pad =~= pad + Seq::<char>::empty());
    lemma_leading_blanks(pad, Seq::empty());
}

/// Words that are joined by blanks are the words of what comes out.
pub proof fn law_joined_words_read_back(parts: Seq<Seq<char>>)
    requires
        forall|i: int| 0 <= i < parts.len() ==> wordlike(#[trigger] parts[i]),
    ensures
        words_of(joined(parts)) == parts,
    decreases parts.len(),
{
    let none = Seq::<char>::empty();
    if parts.len() == 0 {
        lemma_words_of_nothing();
        assert(words_of(joined(parts)) =~= parts);
    } else if parts.len() == 1 {
        let w = parts[0];
        law_words_are_read_one_by_one(none, w, none);
        lemma_words_of_nothing();
        assert(none + w + none =~= w);
        assert(words_of(w) =~= parts);
    } else {
        let tail = parts.drop_first();
        assert forall|i: int| 0 <= i < tail.len() implies wordlike(#[trigger] tail[i]) by {
            assert(tail[i] == parts[i + 1]);
        }
        law_joined_words_read_back(tail);
        lemma_joined_first(parts);
        let rest = seq![' '] + joined(tail);
        assert(joined(parts) =~= none + parts[0] + rest);
        law_words_are_read_one_by_one(none, parts[0], rest);
        lemma_leading_blanks(seq![' '], joined(tail));
        lemma_words_of_padded(seq![' '], joined(tail));
        assert(words_of(joined(parts)) =~= parts);
    }
}

proof fn lemma_words_of_nothing()
    ensures
        words_of(Seq::<char>::empty()).len() == 0,
{
}

proof fn lemma_words_of_padded(pad: Seq<char>, s: Seq<char>)
    requires
        blank(pad),
    ensures
        words_of(pad + s) == words_of(s),
{
    lemma_leading_blanks(pad, s);
    lemma_trimmed_start_bound(s);
    lemma_trimmed_start_bound(pad + s);
}

proof fn lemma_joined_first(parts: Seq<Seq<char>>)
    requires
        parts.len() >= 2,
    ensures
        joined(parts) == parts[0] + seq![' '] + joined(parts.drop_first()),
    decreases parts.len(),
{
    let tail = parts.drop_first();
    if parts.len() == 2 {
        assert(parts.drop_last()[0] == parts[0]);
        assert(joined(parts.drop_last()) == parts[0]);
        assert(joined(tail) == parts[1]);
        assert(joined(parts) =~= parts[0] + seq![' '] + joined(tail));
    } else {
        let head = parts.drop_last();
        lemma_joined_first(head);
        assert(head.drop_first() =~= tail.drop_last());
        assert(head[0] == parts[0]);
        assert(joined(tail) == joined(tail.drop_last()).push(' ') + parts.last());
        assert(joined(parts) =~= parts[0] + seq![' '] + joined(tail));
    }
}

/// A text is split at each separator: a first piece without one stands by
/// itself, and what is behind the separator is split likewise.
pub proof fn law_text_is_split_at_each_separator(part: Seq<char>, sep: char, rest: Seq<char>)
    requires
        forall|i: int| 0 <= i < part.len() ==> part[i] != sep,
    ensures
        split_at_char(part, sep) == seq![part],
        split_at_char(part + seq![sep] + rest, sep) == seq![part] + split_at_char(rest, sep),
{
    let s = part + seq![sep] + rest;
    lemma_find_char(part, sep);
    lemma_find_char(s, sep);
    let n = find_char(s, sep) as int;
    assert(s[part.len() as int] == sep);
    if n < part.len() {
        assert(s[n] == part[n]);
    }
    assert(n == part.len());
    assert(s.take(n) =~= part);
    assert(s.skip(n + 1) =~= rest);
}

/// A number is read digit by digit: a digit behind a number counts ten times the
/// number and itself, if that is no more than the largest allowed; anything but
/// a digit is refused, wherever it stands. A plus sign in front changes nothing.
pub proof fn law_numbers_are_decimal(s: Seq<char>, c: char, max: nat)
    requires
        s.len() > 0,
        s[0] != '+',
    ensures
        unsigned_value(s, max) matches Ok(n) ==> {
            &&& n <= max
            &&& 48 <= c as u32 <= 57 && n * 10 + (c as u32 - 48) <= max ==> unsigned_value(
                s.push(c),
                max,
            ) == Ok::<nat, IntegerError>((n * 10 + (c as u32 - 48)) as nat)
            &&& 48 <= c as u32 <= 57 && n * 10 + (c as u32 - 48) > max ==> unsigned_value(
                s.push(c),
                max,
            ) == Err::<nat, IntegerError>(IntegerError::TooLarge)
            &&& !(48 <= c as u32 <= 57) ==> unsigned_value(s.push(c), max) == Err::<
                nat,
                IntegerError,
            >(IntegerError::InvalidDigit)
        },
        unsigned_value(s, max) is Err ==> unsigned_value(s.push(c), max) == unsigned_value(s, max),
        unsigned_value(seq!['+'] + s, max) == unsigned_value(s, max),
        unsigned_value(Seq::empty(), max) == Err::<nat, IntegerError>(IntegerError::Empty),
        unsigned_value(seq!['+'], max) == Err::<nat, IntegerError>(IntegerError::InvalidDigit),
        48 <= c as u32 <= 57 && c as u32 - 48 <= max ==> unsigned_value(seq![c], max) == Ok::<
            nat,
            IntegerError,
        >((c as u32 - 48) as nat),
{
    let t = s.push(c);
    lemma_digits_prefix(t, s, s.len(), max);
    assert((seq!['+'] + s).skip(1) =~= s);
    assert(t[t.len() - 1] == c);
    let one = seq![c];
    assert(digits_value(one, 0, max) == Ok::<nat, IntegerError>(0));
    assert(digits_value(one, 1, max) == digits_value(one, one.len(), max));
    lemma_digits_bound(s, s.len(), max);
}

proof fn lemma_digits_bound(s: Seq<char>, n: nat, max: nat)
    ensures
        digits_value(s, n, max) matches Ok(v) ==> v <= max,
    decreases n,
{
}

/// Whether a text stands in another is decided by looking at every place.
pub proof fn law_text_is_found_wherever_it_stands(
    v: &Vec<char>,
    part: &Vec<char>,
    r: bool,
    before: Seq<char>,
    after: Seq<char>,
)
    requires
        call_ensures(contains_text, (v, part), r),
    ensures
        v@ == before + part@ + after ==> r,
        r ==> exists|i: int|
            0 <= i <= v@.len() - part@.len() && #[trigger] v@.subrange(i, i + part@.len()) == part@,
{
    if v@ == before + part@ + after {
        let i = before.len() as int;
        assert(v@.subrange(i, i + part@.len()) =~= part@);
    }
}

} // verus!
