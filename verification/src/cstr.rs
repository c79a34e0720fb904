//! Byte strings in the form that the privileged operation reads: the text,
//! then one NUL byte, and no NUL before it.

use vstd::prelude::*;
use vstd::string::StringSliceAdditionalSpecFns;
use vstd::utf8::{encode_utf8, is_ascii_chars, is_ascii_chars_encode_utf8};

verus! {

/// No byte of the text is NUL.
pub open spec fn nul_free(text: Seq<u8>) -> bool {
    forall|i: int| 0 <= i < text.len() ==> #[trigger] text[i] != 0
}

/// Every character of the text is an ASCII character other than NUL.
pub open spec fn plain_ascii(text: Seq<char>) -> bool {
    forall|i: int| 0 <= i < text.len() ==> '\u{1}' <= #[trigger] text[i] <= '\u{7f}'
}

/// The UTF-8 bytes of a text of ASCII characters other than NUL hold no NUL.
pub proof fn lemma_plain_ascii_nul_free(text: Seq<char>)
    requires
        plain_ascii(text),
    ensures
        nul_free(encode_utf8(text)),
{
    assert(is_ascii_chars(text));
    is_ascii_chars_encode_utf8(text);
}

/// An owned NUL-terminated byte string. Its view is the text before the
/// terminator.
pub struct CStrBuf {
    bytes: Vec<u8>,
}

impl View for CStrBuf {
    type V = Seq<u8>;

    closed spec fn view(&self) -> Seq<u8> {
        self.bytes@.drop_last()
    }
}

impl CStrBuf {
    #[verifier::type_invariant]
    spec fn terminated(&self) -> bool {
        &&& self.bytes@.len() >= 1
        &&& self.bytes@.last() == 0
        &&& nul_free(self.bytes@.drop_last())
    }

    /// Copies the text and terminates it, unless it holds a NUL byte.
    pub fn from_bytes(text: &[u8]) -> (r: Option<CStrBuf>)
        ensures
            r is Some <==> nul_free(text@),
            r matches Some(c) ==> c@ == text@,
    {
        let mut bytes: Vec<u8> = Vec::new();
        let mut i: usize = 0;
        while i < text.len()
            invariant
                0 <= i <= text@.len(),
                bytes@ == text@.take(i as int),
                nul_free(bytes@),
            decreases text@.len() - i,
        {
            let c: u8 = text[i];
            if c == 0 {
                return None;
            }
            bytes.push(c);
            i = i + 1;
        }
        bytes.push(0);
        assert(bytes@.drop_last() == text@);
        Some(CStrBuf { bytes })
    }

    /// Terminates the UTF-8 bytes of the text, unless it holds a NUL.
    pub fn new(text: &str) -> (r: Option<CStrBuf>)
        ensures
            r is Some <==> nul_free(text.spec_bytes()),
            r matches Some(c) ==> c@ == text.spec_bytes(),
    {
        CStrBuf::from_bytes(text.as_bytes())
    }

    /// The bytes with their terminator, as they are handed to the
    /// privileged operation.
    pub fn as_bytes_with_nul(&self) -> (bytes: &[u8])
        ensures
            bytes@ == self@.push(0),
            nul_free(self@),
    {
        proof {
            use_type_invariant(self);
        }
        self.bytes.as_slice()
    }
}

} // verus!
