use vstd::prelude::*;
use vstd::std_specs::iter::IteratorSpec;
use vstd::string::StringSliceAdditionalSpecFns;
use vstd::utf8::{char_is_scalar, encode_scalar, encode_utf8};

verus! {

broadcast use
    vstd::string::group_string_axioms,
    vstd::slice::group_slice_axioms;

/// The byte position at which the character at `char_index` starts, in the
/// UTF-8 form of `text`.
pub open spec fn char_to_byte_offset(text: Seq<char>, char_index: int) -> int {
    encode_utf8(text.take(char_index)).len() as int
}

/// Encoding a concatenation encodes each part in place.
proof fn lemma_encode_utf8_concat(a: Seq<char>, b: Seq<char>)
    ensures
        encode_utf8(a + b) == encode_utf8(a) + encode_utf8(b),
    decreases a.len(),
{
    if a.len() == 0 {
        assert(a + b =~= b);
        assert(encode_utf8(a) + encode_utf8(b) =~= encode_utf8(b));
    } else {
        assert((a + b).drop_first() =~= a.drop_first() + b);
        lemma_encode_utf8_concat(a.drop_first(), b);
        assert((a + b)[0] == a[0]);
        assert(encode_scalar(a[0] as u32) + (encode_utf8(a.drop_first()) + encode_utf8(b))
            =~= (encode_scalar(a[0] as u32) + encode_utf8(a.drop_first())) + encode_utf8(b));
    }
}

/// How many bytes the UTF-8 encoding of `c` takes.
fn char_utf8_width(c: char) -> (w: usize)
    ensures
        w == encode_scalar(c as u32).len(),
{
    proof {
        char_is_scalar(c);
    }
    let u = c as u32;
    if u <= 0x7F {
        1
    } else if u <= 0x7FF {
        2
    } else if u <= 0xFFFF {
        3
    } else {
        4
    }
}

/// Walks the characters of `s` and returns the byte position at which the
/// character at `char_index` starts; `include_end` additionally admits the
/// position one past the last character, at the total byte length.
fn byte_offset_of_char(s: &str, char_index: u32, include_end: bool) -> (r: Option<usize>)
    ensures
        r is Some <==> (char_index < s@.len() || (include_end && char_index == s@.len())),
        r matches Some(b) ==> b == char_to_byte_offset(s@, char_index as int),
{
    let total = s.as_bytes().len();
    let mut it = s.chars();
    let mut n: u32 = 0;
    let mut byte_pos: usize = 0;
    loop
        invariant
            n <= char_index,
            n <= s@.len(),
            it.remaining() == s@.skip(n as int),
            byte_pos == encode_utf8(s@.take(n as int)).len(),
            total == s.spec_bytes().len(),
            byte_pos <= total,
        decreases s@.len() - n,
    {
        match it.next() {
            Some(c) => {
                proof {
                    assert(s@.skip(n as int)[0] == s@[n as int]);
                    assert(it.remaining() =~= s@.skip(n as int + 1));
                }
                if n == char_index {
                    return Some(byte_pos);
                }
                proof {
                    assert(seq![c].drop_first() =~= Seq::<char>::empty());
                    assert(encode_utf8(seq![c]) =~= encode_scalar(c as u32)
                        + encode_utf8(Seq::<char>::empty()));
                    assert(encode_utf8(seq![c]) =~= encode_scalar(c as u32));
                    lemma_encode_utf8_concat(s@.take(n as int), seq![c]);
                    assert(s@.take(n as int) + seq![c] =~= s@.take(n as int + 1));
                    lemma_encode_utf8_concat(s@.take(n as int + 1), s@.skip(n as int + 1));
                    assert(s@.take(n as int + 1) + s@.skip(n as int + 1) =~= s@);
                }
                let width = char_utf8_width(c);
                byte_pos = byte_pos + width;
                n = n + 1;
            },
            None => {
                proof {
                    assert(s@.skip(n as int).len() == 0);
                    assert(s@.take(n as int) =~= s@);
                }
                if include_end && n == char_index {
                    return Some(byte_pos);
                }
                return None;
            },
        }
    }
}

/// Positions within a piece of text counted in characters, translated to the
/// byte positions that the same text occupies in its UTF-8 form.
pub trait CharIndexing {
    /// The characters of this text.
    spec fn chars_view(&self) -> Seq<char>;

    /// The byte position at which the character at `char_index` starts, or
    /// `None` when there is no such character.
    fn char_to_byte_index(&self, char_index: u32) -> (r: Option<usize>)
        ensures
            r is Some <==> char_index < self.chars_view().len(),
            r matches Some(b) ==> b == char_to_byte_offset(self.chars_view(), char_index as int),
    ;

    /// As `char_to_byte_index`, but also accepts the position one past the
    /// last character, translating it to the total byte length.
    fn char_to_byte_index_open_end(&self, char_index: u32) -> (r: Option<usize>)
        ensures
            r is Some <==> char_index <= self.chars_view().len(),
            r matches Some(b) ==> b == char_to_byte_offset(self.chars_view(), char_index as int),
    ;

    /// Translates a character range to the matching byte range, or `None`
    /// when either endpoint has no character at it.
    fn char_to_byte_range(&self, char_range: std::ops::Range<u32>) -> (r: Option<
        std::ops::Range<usize>,
    >)
        ensures
            r is Some <==> (char_range.start < self.chars_view().len() && char_range.end
                < self.chars_view().len()),
            r matches Some(br) ==> {
                &&& br.start == char_to_byte_offset(self.chars_view(), char_range.start as int)
                &&& br.end == char_to_byte_offset(self.chars_view(), char_range.end as int)
            },
    ;

    /// Translates a character range to the matching byte range, falling back
    /// to the start of the text for an out-of-range start and to the end of
    /// the text for an out-of-range end.
    fn char_to_byte_range_clamped(&self, char_range: std::ops::Range<u32>) -> (r: std::ops::Range<
        usize,
    >)
        ensures
            r.start == if char_range.start <= self.chars_view().len() {
                char_to_byte_offset(self.chars_view(), char_range.start as int)
            } else {
                0
            },
            r.end == if char_range.end <= self.chars_view().len() {
                char_to_byte_offset(self.chars_view(), char_range.end as int)
            } else {
                encode_utf8(self.chars_view()).len() as int
            },
    ;
}

impl CharIndexing for str {
    open spec fn chars_view(&self) -> Seq<char> {
        self@
    }

    fn char_to_byte_index(&self, char_index: u32) -> (r: Option<usize>) {
        byte_offset_of_char(self, char_index, false)
    }

    fn char_to_byte_index_open_end(&self, char_index: u32) -> (r: Option<usize>) {
        byte_offset_of_char(self, char_index, true)
    }

    fn char_to_byte_range(&self, char_range: std::ops::Range<u32>) -> (r: Option<
        std::ops::Range<usize>,
    >) {
        let start = match self.char_to_byte_index(char_range.start) {
            Some(b) => b,
            None => {
                return None;
            },
        };
        let end = match self.char_to_byte_index(char_range.end) {
            Some(b) => b,
            None => {
                return None;
            },
        };
        Some(start..end)
    }

    fn char_to_byte_range_clamped(&self, char_range: std::ops::Range<u32>) -> (r: std::ops::Range<
        usize,
    >) {
        let start = match self.char_to_byte_index_open_end(char_range.start) {
            Some(b) => b,
            None => 0,
        };
        let end = match self.char_to_byte_index_open_end(char_range.end) {
            Some(b) => b,
            None => {
                proof {
                    assert(self@.take(self@.len() as int) =~= self@);
                }
                self.as_bytes().len()
            },
        };
        start..end
    }
}

} // verus!
