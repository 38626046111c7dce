//! Paths of the system as text.
//!
//! A path of the system need not be Unicode. Its text is that of the path where
//! it is, and otherwise has one character for each byte: the ASCII characters
//! stand for themselves, and each other byte has a stand-in out of the last
//! block of private characters. The text gives the path back.
use vstd::prelude::*;
use vstd::string::*;

use crate::text;

verus! {

/// `char::from_u32` gives the character with this number, and nothing for a
/// number that no character has.
pub assume_specification[ char::from_u32 ](i: u32) -> (r: Option<char>)
    ensures
        r == char_numbered(i),
;

/// The character with this number; a surrogate has none, nor has a number behind
/// the last character.
pub open spec fn char_numbered(i: u32) -> Option<char> {
    if vstd::utf8::is_scalar(i) {
        Some(i as char)
    } else {
        None
    }
}

/// A path as the system hands it out.
#[derive(Debug)]
pub enum NativePath {
    /// The text of a path that is Unicode.
    Text(String),
    /// The bytes of any other path.
    Bytes(Vec<u8>),
}

impl NativePath {
    /// The bytes of the path.
    pub open spec fn bytes(self) -> Seq<u8> {
        match self {
            NativePath::Text(text) => vstd::utf8::encode_utf8(text@),
            NativePath::Bytes(bytes) => bytes@,
        }
    }
}

/// Whether a character stands for a byte.
pub open spec fn stand_in(c: char) -> bool {
    0x10ff80 <= c as u32 <= 0x10ffff
}

/// Whether no character of a text stands for a byte.
pub open spec fn ordinary(s: Seq<char>) -> bool {
    forall|i: int| 0 <= i < s.len() ==> !stand_in(#[trigger] s[i])
}

/// The character that stands for a byte.
pub open spec fn byte_char(b: u8) -> char {
    if b < 0x80 {
        b as char
    } else {
        (0x10ff00 + b as u32) as u32 as char
    }
}

/// The text that stands for bytes one by one.
pub open spec fn byte_text(bytes: Seq<u8>) -> Seq<char> {
    bytes.map_values(|b: u8| byte_char(b))
}

/// The path that a text names, as the text of a path.
pub open spec fn quoted(s: Seq<char>) -> Seq<char> {
    if ordinary(s) {
        s
    } else {
        byte_text(vstd::utf8::encode_utf8(s))
    }
}

/// The text of a path.
pub open spec fn path_text(path: NativePath) -> Seq<char> {
    match path {
        NativePath::Text(text) => quoted(text@),
        NativePath::Bytes(bytes) => byte_text(bytes@),
    }
}

/// The text of a path that may not be known.
pub open spec fn known_text(path: Option<NativePath>) -> Option<Seq<char>> {
    match path {
        Some(path) => Some(path_text(path)),
        None => None,
    }
}

/// The bytes that a character of a path's text stands for.
pub open spec fn char_bytes(c: char) -> Seq<u8> {
    if stand_in(c) {
        seq![(c as u32 - 0x10ff00) as u8]
    } else {
        vstd::utf8::encode_scalar(c as u32)
    }
}

/// The bytes of the path that a text stands for.
pub open spec fn path_bytes(s: Seq<char>) -> Seq<u8>
    decreases s.len(),
{
    if s.len() == 0 {
        Seq::empty()
    } else {
        path_bytes(s.drop_last()) + char_bytes(s.last())
    }
}

/// A path as it is shown: with replacement characters for what is not Unicode.
pub open spec fn shown(s: Seq<char>) -> Seq<char> {
    if ordinary(s) {
        s
    } else {
        text::lossy_text(path_bytes(s))
    }
}

fn is_stand_in(c: char) -> (r: bool)
    ensures
        r == stand_in(c),
{
    let n: u32 = c as u32;
    0x10ff80 <= n && n <= 0x10ffff
}

fn is_ordinary(v: &Vec<char>) -> (r: bool)
    ensures
        r == ordinary(v@),
{
    let mut i: usize = 0;
    while i < v.len()
        invariant
            i <= v@.len(),
            forall|j: int| 0 <= j < i ==> !stand_in(#[trigger] v@[j]),
        decreases v.len() - i,
    {
        if is_stand_in(v[i]) {
            return false;
        }
        i = i + 1;
    }
    true
}

fn char_for(b: u8) -> (r: char)
    ensures
        r == byte_char(b),
{
    if b < 0x80 {
        b as char
    } else {
        match char::from_u32(0x10ff00 + b as u32) {
            Some(c) => c,
            None => {
                assert(vstd::utf8::is_scalar((0x10ff00 + b as u32) as u32));
                ' '
            },
        }
    }
}

fn text_for(bytes: &[u8]) -> (r: Vec<char>)
    ensures
        r@ == byte_text(bytes@),
{
    let mut out: Vec<char> = Vec::new();
    let mut i: usize = 0;
    while i < bytes.len()
        invariant
            i <= bytes@.len(),
            out@ == byte_text(bytes@.take(i as int)),
        decreases bytes.len() - i,
    {
        out.push(char_for(bytes[i]));
        assert(out@ =~= byte_text(bytes@.take(i + 1)));
        i = i + 1;
    }
    assert(bytes@.take(bytes@.len() as int) =~= bytes@);
    out
}

/// The path that a text names, as the text of a path.
pub(crate) fn quote(v: Vec<char>) -> (r: Vec<char>)
    ensures
        r@ == quoted(v@),
{
    if is_ordinary(&v) {
        v
    } else {
        let s = text::string_of(&v);
        text_for(s.as_str().as_bytes())
    }
}

/// The text of a path.
pub fn text_of_path(path: NativePath) -> (r: String)
    ensures
        r@ == path_text(path),
{
    match path {
        NativePath::Text(s) => text::string_of(&quote(text::chars_of(s.as_str()))),
        NativePath::Bytes(bytes) => text::string_of(&text_for(bytes.as_slice())),
    }
}

/// The text of a path that may not be known.
pub(crate) fn text_if_known(path: Option<NativePath>) -> (r: Option<String>)
    ensures
        match r {
            Some(text) => known_text(path) == Some(text@),
            None => known_text(path) is None,
        },
{
    match path {
        Some(path) => Some(text_of_path(path)),
        None => None,
    }
}

/// The bytes of the path that a text stands for.
pub fn bytes_of_path(s: &str) -> (r: Vec<u8>)
    ensures
        r@ == path_bytes(s@),
{
    let v = text::chars_of(s);
    let mut out: Vec<u8> = Vec::new();
    let mut i: usize = 0;
    assert(v@.take(0) =~= Seq::<char>::empty());
    while i < v.len()
        invariant
            i <= v@.len(),
            out@ == path_bytes(v@.take(i as int)),
        decreases v.len() - i,
    {
        assert(v@.take(i + 1).drop_last() =~= v@.take(i as int));
        let c = v[i];
        let ghost before = out@;
        if is_stand_in(c) {
            let n: u32 = c as u32;
            out.push((n - 0x10ff00) as u8);
            assert(out@ =~= before + char_bytes(c));
        } else {
            let mut one = String::new();
            one.push(c);
            let bytes = one.as_str().as_bytes();
            proof {
                reveal_with_fuel(vstd::utf8::encode_utf8, 2);
                assert(one@ =~= seq![c]);
                assert(one@.drop_first() =~= Seq::<char>::empty());
                assert(bytes@ =~= char_bytes(c));
            }
            let mut k: usize = 0;
            while k < bytes.len()
                invariant
                    k <= bytes@.len(),
                    out@ == before + bytes@.take(k as int),
                decreases bytes.len() - k,
            {
                out.push(bytes[k]);
                assert(out@ =~= before + bytes@.take(k + 1));
                k = k + 1;
            }
            assert(bytes@.take(bytes@.len() as int) =~= bytes@);
        }
        i = i + 1;
    }
    assert(v@.take(v@.len() as int) =~= v@);
    out
}

/// A path as it is shown: with replacement characters for what is not Unicode.
pub(crate) fn show(v: &Vec<char>) -> (r: Vec<char>)
    ensures
        r@ == shown(v@),
        vstd::utf8::valid_utf8(path_bytes(v@)) ==> r@ == vstd::utf8::decode_utf8(path_bytes(v@)),
{
    if is_ordinary(v) {
        let copy = text::piece(v, 0, v.len());
        assert(copy@ =~= v@);
        proof {
            lemma_ordinary_bytes(v@);
            vstd::utf8::encode_utf8_decode_utf8(v@);
        }
        copy
    } else {
        let bytes = bytes_of_path(text::string_of(v).as_str());
        text::chars_of(text::decode_lossy(&bytes).as_str())
    }
}

/// A path as it is shown: with replacement characters for what is not Unicode.
/// A path that is Unicode is shown as it is.
pub fn show_path(s: &str) -> (r: String)
    ensures
        r@ == shown(s@),
        vstd::utf8::valid_utf8(path_bytes(s@)) ==> r@ == vstd::utf8::decode_utf8(path_bytes(s@)),
{
    text::string_of(&show(&text::chars_of(s)))
}

/// `head` followed by a path as it is shown.
pub(crate) fn naming(head: &str, path: &str) -> (r: String)
    ensures
        r@ == head@ + shown(path@),
{
    let mut out = String::from_str(head);
    out.append(show_path(path).as_str());
    out
}

proof fn lemma_bytes_first(s: Seq<char>)
    requires
        s.len() > 0,
    ensures
        path_bytes(s) == char_bytes(s[0]) + path_bytes(s.drop_first()),
    decreases s.len(),
{
    if s.len() == 1 {
        assert(s.drop_last() =~= Seq::<char>::empty());
        assert(s.drop_first() =~= Seq::<char>::empty());
        assert(path_bytes(s) =~= char_bytes(s[0]) + path_bytes(s.drop_first()));
    } else {
        lemma_bytes_first(s.drop_last());
        assert(s.drop_last().drop_first() =~= s.drop_first().drop_last());
        assert(path_bytes(s) =~= char_bytes(s[0]) + path_bytes(s.drop_first()));
    }
}

proof fn lemma_ordinary_bytes(s: Seq<char>)
    requires
        ordinary(s),
    ensures
        path_bytes(s) == vstd::utf8::encode_utf8(s),
    decreases s.len(),
{
    if s.len() > 0 {
        let rest = s.drop_first();
        assert(ordinary(rest)) by {
            assert forall|i: int| 0 <= i < rest.len() implies !stand_in(#[trigger] rest[i]) by {
                assert(rest[i] == s[i + 1]);
            }
        }
        lemma_bytes_first(s);
        lemma_ordinary_bytes(rest);
    }
}

proof fn lemma_byte_char(b: u8)
    ensures
        char_bytes(byte_char(b)) == seq![b],
{
    if b < 0x80 {
        let n = b as u32;
        assert(vstd::utf8::leading_byte_width_1(n) == b) by {
            assert(b < 0x80 ==> (b as u32 & 0x7f) as u8 == b) by (bit_vector);
        }
    }
    assert(char_bytes(byte_char(b)) =~= seq![b]);
}

proof fn lemma_byte_text(bytes: Seq<u8>)
    ensures
        path_bytes(byte_text(bytes)) == bytes,
    decreases bytes.len(),
{
    let t = byte_text(bytes);
    if bytes.len() > 0 {
        assert(t.drop_last() =~= byte_text(bytes.drop_last()));
        lemma_byte_text(bytes.drop_last());
        lemma_byte_char(bytes.last());
        assert(path_bytes(t) =~= bytes);
    } else {
        assert(path_bytes(t) =~= bytes);
    }
}

/// The text of a path gives the path back, byte for byte.
pub proof fn law_path_text_gives_the_path_back(path: NativePath)
    ensures
        path_bytes(path_text(path)) == path.bytes(),
{
    match path {
        NativePath::Text(text) => {
            if ordinary(text@) {
                lemma_ordinary_bytes(text@);
            } else {
                lemma_byte_text(vstd::utf8::encode_utf8(text@));
            }
        },
        NativePath::Bytes(bytes) => {
            lemma_byte_text(bytes@);
        },
    }
}

/// The bytes of a path that is put together are those of its parts.
pub proof fn law_path_bytes_add_up(a: Seq<char>, b: Seq<char>)
    ensures
        path_bytes(a + b) == path_bytes(a) + path_bytes(b),
    decreases b.len(),
{
    if b.len() == 0 {
        assert(a + b =~= a);
        assert(path_bytes(a + b) =~= path_bytes(a) + path_bytes(b));
    } else {
        assert((a + b).drop_last() =~= a + b.drop_last());
        law_path_bytes_add_up(a, b.drop_last());
        assert(path_bytes(a + b) =~= path_bytes(a) + path_bytes(b));
    }
}

/// A path is turned into text and back into its bytes without loss. The text of
/// a path that is Unicode is that text, and is what is shown, unless it holds a
/// character that stands for a byte.
pub proof fn law_paths_survive_as_text(
    path: NativePath,
    written: String,
    read: &str,
    bytes: Vec<u8>,
    shown_as: String,
)
    requires
        call_ensures(text_of_path, (path,), written),
        read@ == written@,
        call_ensures(bytes_of_path, (read,), bytes),
        call_ensures(show_path, (read,), shown_as),
    ensures
        path matches NativePath::Text(text) ==> bytes@ == vstd::utf8::encode_utf8(text@),
        path matches NativePath::Bytes(raw) ==> bytes@ == raw@,
        path matches NativePath::Text(text) ==> ((forall|i: int|
            0 <= i < text@.len() ==> (#[trigger] text@[i]) as u32 <= 0x10ff7f) ==> written@ == text@
            && shown_as@ == text@),
{
    law_path_text_gives_the_path_back(path);
    if let NativePath::Text(text) = path {
        if forall|i: int| 0 <= i < text@.len() ==> (#[trigger] text@[i]) as u32 <= 0x10ff7f {
            assert(ordinary(text@));
        }
    }
}

} // verus!
