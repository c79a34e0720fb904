//! Key acquisition: where the key text comes from, and how the content of
//! the key file becomes that text.

use vstd::prelude::*;
use vstd::string::StringSliceAdditionalSpecFns;
use vstd::utf8::{
    encode_utf8_valid_utf8, is_char_boundary_iff_not_is_continuation_byte,
    is_char_boundary_start_end_of_seq,
};

verus! {

/// The mount that exposes the host's key material to this process. It is
/// made once and never undone here.
pub struct TransportMount {
    /// Tag of the transport filesystem; it is also given as the mount source.
    pub fs_type: String,
    /// Directory on which the transport filesystem is mounted.
    pub target: String,
    /// Options handed to the filesystem, such as the directory it exposes.
    pub options: String,
}

/// What a [`TransportMount`] holds.
pub struct TransportMountView {
    pub fs_type: Seq<char>,
    pub target: Seq<char>,
    pub options: Seq<char>,
}

impl View for TransportMount {
    type V = TransportMountView;

    open spec fn view(&self) -> TransportMountView {
        TransportMountView {
            fs_type: self.fs_type@,
            target: self.target@,
            options: self.options@,
        }
    }
}

/// Carriage return or line feed.
pub open spec fn is_line_ending(c: u8) -> bool {
    c == 0x0d || c == 0x0a
}

/// How much of the text is left once the line endings at its end are gone.
pub open spec fn trimmed_len(text: Seq<u8>) -> nat
    decreases text.len(),
{
    if text.len() > 0 && is_line_ending(text.last()) {
        trimmed_len(text.drop_last())
    } else {
        text.len()
    }
}

/// The text without the line endings at its end.
pub open spec fn trim_spec(text: Seq<u8>) -> Seq<u8> {
    text.take(trimmed_len(text) as int)
}

/// The trimmed text is the longest beginning of the text that does not end
/// in a line ending: it ends in none, and all that was cut is line endings.
pub proof fn lemma_trimmed_len(text: Seq<u8>)
    ensures
        trimmed_len(text) <= text.len(),
        trimmed_len(text) > 0 ==> !is_line_ending(text[trimmed_len(text) - 1]),
        forall|i: int| trimmed_len(text) <= i < text.len() ==> is_line_ending(#[trigger] text[i]),
    decreases text.len(),
{
    if text.len() > 0 && is_line_ending(text.last()) {
        let shorter = text.drop_last();
        lemma_trimmed_len(shorter);
        assert forall|i: int| trimmed_len(text) <= i < text.len() implies is_line_ending(
            #[trigger] text[i],
        ) by {
            if i < shorter.len() {
                assert(text[i] == shorter[i]);
            }
        }
    }
}

fn is_line_ending_byte(c: u8) -> (b: bool)
    ensures
        b == is_line_ending(c),
{
    c == 0x0d || c == 0x0a
}

/// Drops the carriage returns and line feeds at the end of the content of
/// the key file. Line endings elsewhere stay.
pub fn trim_line_endings(text: &str) -> (trimmed: &str)
    ensures
        trimmed.spec_bytes() == trim_spec(text.spec_bytes()),
        trimmed.spec_bytes().len() > 0 ==> !is_line_ending(trimmed.spec_bytes().last()),
{
    let bytes = text.as_bytes();
    let mut end: usize = bytes.len();
    assert(bytes@.take(end as int) == bytes@);
    while end > 0 && is_line_ending_byte(bytes[end - 1])
        invariant
            end <= bytes@.len(),
            trimmed_len(bytes@) == trimmed_len(bytes@.take(end as int)),
        decreases end,
    {
        proof {
            assert(bytes@.take(end as int).drop_last() == bytes@.take(end - 1));
        }
        end = end - 1;
    }
    proof {
        lemma_trimmed_len(bytes@);
        encode_utf8_valid_utf8(text@);
        if end == bytes@.len() {
            is_char_boundary_start_end_of_seq(bytes@);
        } else {
            is_char_boundary_iff_not_is_continuation_byte(bytes@, end as int);
        }
    }
    let (trimmed, _) = text.split_at(end);
    trimmed
}

} // verus!
