//! The source text of one file, read by byte ranges.
use vstd::prelude::*;
use vstd::string::StringSliceAdditionalSpecFns;
use vstd::utf8::{
    decode_utf8, encode_utf8, is_char_boundary, is_char_boundary_iff_not_is_continuation_byte,
    is_char_boundary_start_end_of_seq,
};

verus! {

broadcast use vstd::utf8::encode_utf8_valid_utf8, vstd::utf8::encode_utf8_decode_utf8;

/// `start..end` lies within `bytes` and both ends fall on character boundaries.
pub open spec fn valid_range(bytes: Seq<u8>, start: int, end: int) -> bool {
    0 <= start <= end <= bytes.len() && is_char_boundary(bytes, start) && is_char_boundary(
        bytes,
        end,
    )
}

/// The characters that the bytes `start..end` encode.
pub open spec fn text_in(bytes: Seq<u8>, start: int, end: int) -> Seq<char> {
    decode_utf8(bytes.subrange(start, end))
}

/// A row and column in a tree-sitter tree.
#[verifier::external_type_specification]
pub struct ExPoint(tree_sitter::Point);

/// A tree-sitter range: its bytes, and its rows and columns.
#[verifier::external_type_specification]
pub struct ExRange(tree_sitter::Range);

/// The full text of one source file; every node of its syntax tree points into it by bytes.
pub struct FileContext(String);

impl View for FileContext {
    type V = Seq<char>;

    /// The characters of the source.
    closed spec fn view(&self) -> Seq<char> {
        self.0@
    }
}

impl FileContext {
    /// The UTF-8 bytes of the source.
    pub open spec fn bytes(&self) -> Seq<u8> {
        encode_utf8(self@)
    }

    /// A context holding a copy of `source`.
    pub fn new(source: &str) -> (r: FileContext)
        ensures
            r@ == source@,
    {
        FileContext(source.to_owned())
    }

    /// The whole source text.
    pub fn as_str(&self) -> (r: &str)
        ensures
            r@ == self@,
            r.spec_bytes() == self.bytes(),
    {
        self.0.as_str()
    }

    /// The length of the source in bytes.
    pub fn byte_len(&self) -> (r: usize)
        ensures
            r == self.bytes().len(),
    {
        self.0.as_str().as_bytes().len()
    }

    /// The byte at `i`.
    pub fn byte_at(&self, i: usize) -> (r: u8)
        requires
            i < self.bytes().len(),
        ensures
            r == self.bytes()[i as int],
    {
        self.0.as_str().as_bytes()[i]
    }

    /// Tells whether `start..end` is a range this context can be read at.
    pub fn is_valid_range(&self, start: usize, end: usize) -> (r: bool)
        ensures
            r == valid_range(self.bytes(), start as int, end as int),
    {
        let s = self.0.as_str();
        start <= end && end <= s.as_bytes().len() && s.is_char_boundary(start) && s.is_char_boundary(end)
    }

    /// The text of the bytes `start..end`.
    pub fn source_for_start_end(&self, start: usize, end: usize) -> (r: &str)
        requires
            valid_range(self.bytes(), start as int, end as int),
        ensures
            r@ == text_in(self.bytes(), start as int, end as int),
    {
        let s = self.0.as_str();
        let ghost b = s.spec_bytes();
        let (head, _) = s.split_at(end);
        proof {
            let hb = head.spec_bytes();
            assert(hb == b.subrange(0, end as int));
            if start == end {
                is_char_boundary_start_end_of_seq(hb);
            } else if start > 0 {
                is_char_boundary_iff_not_is_continuation_byte(b, start as int);
                is_char_boundary_iff_not_is_continuation_byte(hb, start as int);
            }
        }
        let (_, mid) = head.split_at(start);
        proof {
            assert(mid.spec_bytes() == b.subrange(start as int, end as int));
            assert(decode_utf8(encode_utf8(mid@)) == mid@);
        }
        mid
    }

    /// The text of the bytes that `range` covers.
    pub fn source_for_range(&self, range: &tree_sitter::Range) -> (r: &str)
        requires
            valid_range(self.bytes(), range.start_byte as int, range.end_byte as int),
        ensures
            r@ == text_in(self.bytes(), range.start_byte as int, range.end_byte as int),
    {
        self.source_for_start_end(range.start_byte, range.end_byte)
    }

    /// The text of the bytes `start..end`, or `None` where that is no range of this source.
    pub fn checked_source(&self, start: usize, end: usize) -> (r: Option<&str>)
        ensures
            r is Some <==> valid_range(self.bytes(), start as int, end as int),
            r matches Some(t) ==> t@ == text_in(self.bytes(), start as int, end as int),
    {
        if self.is_valid_range(start, end) {
            Some(self.source_for_start_end(start, end))
        } else {
            None
        }
    }
}

impl std::str::FromStr for FileContext {
    type Err = crate::javadoc::DocError;

    fn from_str(s: &str) -> Result<FileContext, crate::javadoc::DocError> {
        Ok(FileContext::new(s))
    }
}

} // verus!
