//! Text in the making and text cut out of text, on top of the crates
//! `string_builder` and `substring`; and which characters are white space.
//! The contracts of the functions that call those crates, and of
//! `char::is_whitespace`, are taken on trust.

use vstd::prelude::*;
use vstd::string::*;
use vstd::utf8::*;
use string_builder::Builder;
use substring::Substring;

verus! {

/// `string_builder::Builder`, a growable byte buffer. Verus sees nothing inside
/// it; what it holds is spoken of through [`builder_bytes`].
#[verifier::external_type_specification]
#[verifier::external_body]
pub struct ExBuilder(string_builder::Builder);

/// The bytes that a `Builder` holds, in the order in which they were appended.
pub uninterp spec fn builder_bytes(b: Builder) -> Seq<u8>;

/// Whether `char::is_whitespace` holds of `c` (the Unicode property
/// `White_Space`).
pub uninterp spec fn unicode_white_space(c: char) -> bool;

/// `Builder::default`: a builder that holds no bytes yet.
#[verifier::external_body]
fn builder_new() -> (b: Builder)
    ensures
        builder_bytes(b) == Seq::<u8>::empty(),
{
    Builder::default()
}

/// `Builder::append` with a `char`: the builder gains the UTF-8 encoding of
/// `c` at its end.
#[verifier::external_body]
fn builder_append_char(b: &mut Builder, c: char)
    ensures
        builder_bytes(*final(b)) == builder_bytes(*old(b)) + encode_utf8(seq![c]),
{
    b.append(c)
}

/// `Builder::append` with a `&str`: the builder gains the bytes of `s` at its
/// end.
#[verifier::external_body]
fn builder_append_str(b: &mut Builder, s: &str)
    ensures
        builder_bytes(*final(b)) == builder_bytes(*old(b)) + encode_utf8(s@),
{
    b.append(s)
}

/// `Builder::string`: the bytes decoded as UTF-8, or nothing where they are
/// no valid UTF-8.
#[verifier::external_body]
fn builder_string(b: Builder) -> (res: Option<String>)
    ensures
        res is Some <==> valid_utf8(builder_bytes(b)),
        res is Some ==> res->0@ == decode_utf8(builder_bytes(b)),
{
    b.string().ok()
}

/// `Substring::substring` on `str`: the characters from index `start` up to,
/// not including, index `end`, both cut down to the length of `s`; nothing
/// where `end <= start`.
#[verifier::external_body]
pub(crate) fn substring<'a>(s: &'a str, start: usize, end: usize) -> (res: &'a str)
    ensures
        res@ == spec_substring(s@, start as int, end as int),
{
    s.substring(start, end)
}

/// `char::is_whitespace`.
pub assume_specification[ char::is_whitespace ](c: char) -> (res: bool)
    ensures
        res == unicode_white_space(c),
;

/// For each character of `src`, whether it is white space to Unicode.
pub open spec fn white_space_mask(src: Seq<char>) -> Seq<bool> {
    Seq::new(src.len(), |i: int| unicode_white_space(src[i]))
}

/// Marks the characters of `src` that are white space to Unicode.
pub fn classify(src: &str) -> (mask: Vec<bool>)
    ensures
        mask@ == white_space_mask(src@),
{
    let len = src.unicode_len();
    let mut mask: Vec<bool> = Vec::new();
    let mut i: usize = 0;
    while i < len
        invariant
            i <= len,
            len == src@.len(),
            mask@ == white_space_mask(src@.take(i as int)),
        decreases len - i,
    {
        mask.push(src.get_char(i).is_whitespace());
        assert(mask@ =~= white_space_mask(src@.take(i + 1)));
        i += 1;
    }
    assert(src@.take(len as int) =~= src@);
    mask
}

/// The characters of `s` from index `start` up to, not including, index
/// `end`, where indices beyond the end of `s` stand for its end.
pub open spec fn spec_substring(s: Seq<char>, start: int, end: int) -> Seq<char> {
    if end <= start {
        Seq::empty()
    } else {
        let a = if start < s.len() { start } else { s.len() as int };
        let b = if end < s.len() { end } else { s.len() as int };
        s.subrange(a, b)
    }
}

/// Encoding a text piece by piece gives the encoding of the whole.
pub proof fn lemma_encode_concat(a: Seq<char>, b: Seq<char>)
    ensures
        encode_utf8(a + b) == encode_utf8(a) + encode_utf8(b),
    decreases a.len(),
{
    if a.len() == 0 {
        assert(a + b =~= b);
        assert(encode_utf8(a) + encode_utf8(b) =~= encode_utf8(b));
    } else {
        lemma_encode_concat(a.drop_first(), b);
        assert((a + b).drop_first() =~= a.drop_first() + b);
        assert((a + b)[0] == a[0]);
        assert(encode_utf8(a + b) =~= encode_utf8(a) + encode_utf8(b));
    }
}

/// A text under construction.
pub struct TextBuf {
    inner: Builder,
}

impl View for TextBuf {
    type V = Seq<char>;

    closed spec fn view(&self) -> Seq<char> {
        decode_utf8(builder_bytes(self.inner))
    }
}

impl TextBuf {
    /// The buffer holds the encoding of a text.
    pub closed spec fn wf(&self) -> bool {
        valid_utf8(builder_bytes(self.inner))
    }

    /// A buffer that holds the empty text.
    pub fn new() -> (buf: Self)
        ensures
            buf.wf(),
            buf@ == Seq::<char>::empty(),
    {
        let buf = TextBuf { inner: builder_new() };
        proof {
            assert(valid_utf8(Seq::<u8>::empty()));
            assert(decode_utf8(Seq::<u8>::empty()) =~= Seq::<char>::empty());
        }
        buf
    }

    /// Adds `c` at the end.
    pub fn push(&mut self, c: char)
        requires
            old(self).wf(),
        ensures
            final(self).wf(),
            final(self)@ == old(self)@.push(c),
    {
        proof {
            let bytes = builder_bytes(self.inner);
            decode_utf8_encode_utf8(bytes);
            lemma_encode_concat(self@, seq![c]);
            encode_utf8_valid_utf8(self@ + seq![c]);
            encode_utf8_decode_utf8(self@ + seq![c]);
            assert(self@ + seq![c] =~= self@.push(c));
        }
        builder_append_char(&mut self.inner, c);
    }

    /// Adds `s` at the end.
    pub fn push_str(&mut self, s: &str)
        requires
            old(self).wf(),
        ensures
            final(self).wf(),
            final(self)@ == old(self)@ + s@,
    {
        proof {
            let bytes = builder_bytes(self.inner);
            decode_utf8_encode_utf8(bytes);
            lemma_encode_concat(self@, s@);
            encode_utf8_valid_utf8(self@ + s@);
            encode_utf8_decode_utf8(self@ + s@);
        }
        builder_append_str(&mut self.inner, s);
    }

    /// The text that was collected.
    pub fn finish(self) -> (text: String)
        requires
            self.wf(),
        ensures
            text@ == self@,
    {
        match builder_string(self.inner) {
            Some(text) => text,
            None => String::new(),
        }
    }
}

} // verus!
