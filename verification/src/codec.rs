//! The byte codec: key text to key bytes and back.
//!
//! A key is written as groups of two hexadecimal digits joined by `-`, one
//! group per byte: `c7-32-b3-...`. Decoding accepts either letter case;
//! encoding writes lower case.

use crate::codec_laws::lemma_stray_byte_rejected;
use crate::error::BootError;
use vstd::prelude::*;
use vstd::string::StringSliceAdditionalSpecFns;

verus! {

/// The byte that stands between two groups: `-`.
pub const SEPARATOR: u8 = 0x2d;

/// Number of bytes in the key of a filesystem image.
pub const KEY_LEN: usize = 16;

/// `0`-`9`, `A`-`F` or `a`-`f`.
pub open spec fn is_hex_digit(c: u8) -> bool {
    ||| 0x30 <= c <= 0x39
    ||| 0x41 <= c <= 0x46
    ||| 0x61 <= c <= 0x66
}

/// The number a hexadecimal digit stands for.
pub open spec fn hex_digit_value(c: u8) -> int {
    if 0x30 <= c <= 0x39 {
        c - 0x30
    } else if 0x41 <= c <= 0x46 {
        c - 0x41 + 10
    } else {
        c - 0x61 + 10
    }
}

/// The groups of a text, read left to right: a separator opens a new group,
/// any other byte extends the last one. A text with `k` separators has
/// `k + 1` groups, some of them possibly empty.
pub open spec fn split_groups(text: Seq<u8>) -> Seq<Seq<u8>>
    decreases text.len(),
{
    if text.len() == 0 {
        seq![Seq::<u8>::empty()]
    } else {
        let before = split_groups(text.drop_last());
        if text.last() == SEPARATOR {
            before.push(Seq::<u8>::empty())
        } else {
            before.drop_last().push(before.last().push(text.last()))
        }
    }
}

/// A group that stands for a byte: exactly two hexadecimal digits.
pub open spec fn valid_group(group: Seq<u8>) -> bool {
    &&& group.len() == 2
    &&& is_hex_digit(group[0])
    &&& is_hex_digit(group[1])
}

/// The byte that a valid group stands for.
pub open spec fn group_value(group: Seq<u8>) -> u8 {
    (16 * hex_digit_value(group[0]) + hex_digit_value(group[1])) as u8
}

/// The text has exactly `expected_len` groups and each of them is valid.
pub open spec fn well_formed_key_text(text: Seq<u8>, expected_len: nat) -> bool {
    let groups = split_groups(text);
    &&& groups.len() == expected_len
    &&& forall|i: int| 0 <= i < groups.len() ==> valid_group(#[trigger] groups[i])
}

/// Some byte of the text is neither a separator nor a hexadecimal digit.
pub open spec fn has_stray_byte(text: Seq<u8>) -> bool {
    exists|i: int|
        0 <= i < text.len() && #[trigger] text[i] != SEPARATOR && !is_hex_digit(text[i])
}

/// What a text decodes to: the bytes of its groups, in order, if it is well
/// formed for the expected length, and nothing otherwise.
pub open spec fn decode_spec(text: Seq<u8>, expected_len: nat) -> Option<Seq<u8>> {
    if well_formed_key_text(text, expected_len) {
        Some(split_groups(text).map_values(|group: Seq<u8>| group_value(group)))
    } else {
        None
    }
}

/// The groups written one after the other with a separator between each two.
pub open spec fn join_groups(groups: Seq<Seq<u8>>) -> Seq<u8>
    decreases groups.len(),
{
    if groups.len() == 0 {
        Seq::<u8>::empty()
    } else if groups.len() == 1 {
        groups[0]
    } else {
        join_groups(groups.drop_last()) + seq![SEPARATOR] + groups.last()
    }
}

/// The lower-case digit for a number below sixteen.
pub open spec fn lower_hex_digit(v: int) -> u8 {
    if v < 10 {
        (0x30 + v) as u8
    } else {
        (0x61 + (v - 10)) as u8
    }
}

/// The canonical group of a byte: its two lower-case digits, high one first.
pub open spec fn hex_pair(b: u8) -> Seq<u8> {
    seq![lower_hex_digit(b as int / 16), lower_hex_digit(b as int % 16)]
}

/// The canonical text of a key.
pub open spec fn encode_spec(key: Seq<u8>) -> Seq<u8> {
    join_groups(key.map_values(|b: u8| hex_pair(b)))
}

/// Splitting a text never yields an empty list of groups.
pub proof fn lemma_split_nonempty(text: Seq<u8>)
    ensures
        split_groups(text).len() >= 1,
    decreases text.len(),
{
    if text.len() > 0 {
        lemma_split_nonempty(text.drop_last());
    }
}

/// The groups of a prefix, but for the last, are groups of the whole text;
/// the last group of the prefix is the beginning of a group of the whole text.
pub proof fn lemma_split_prefix(text: Seq<u8>, end: int)
    requires
        0 <= end <= text.len(),
    ensures
        1 <= split_groups(text.take(end)).len() <= split_groups(text).len(),
        forall|j: int|
            0 <= j < split_groups(text.take(end)).len() - 1 ==> split_groups(text)[j]
                == #[trigger] split_groups(text.take(end))[j],
        split_groups(text.take(end)).last().is_prefix_of(
            split_groups(text)[split_groups(text.take(end)).len() - 1],
        ),
    decreases text.len(),
{
    lemma_split_nonempty(text.take(end));
    if end == text.len() {
        assert(text.take(end) == text);
    } else {
        let shorter = text.drop_last();
        assert(shorter.take(end) == text.take(end));
        lemma_split_prefix(shorter, end);
        lemma_split_nonempty(shorter);
    }
}

fn hex_digit(c: u8) -> (digit: Option<u8>)
    ensures
        digit is Some <==> is_hex_digit(c),
        digit matches Some(d) ==> d == hex_digit_value(c) && d < 16,
{
    if 0x30 <= c && c <= 0x39 {
        Some(c - 0x30)
    } else if 0x41 <= c && c <= 0x46 {
        Some(c - 0x41 + 10)
    } else if 0x61 <= c && c <= 0x66 {
        Some(c - 0x61 + 10)
    } else {
        None
    }
}

/// Reads the text once from left to right, group by group, and stops at the
/// first byte that cannot belong to a well-formed text.
fn scan_key_text(text: &[u8], expected_len: usize) -> (r: Result<Vec<u8>, BootError>)
    ensures
        match r {
            Ok(key) => decode_spec(text@, expected_len as nat) == Some(key@),
            Err(e) => e == BootError::MalformedKey && decode_spec(text@, expected_len as nat)
                is None,
        },
{
    let mut key: Vec<u8> = Vec::new();
    // Digits seen of the group that is being read, and their value so far.
    let mut width: usize = 0;
    let mut value: u8 = 0;
    let mut i: usize = 0;
    while i < text.len()
        invariant
            0 <= i <= text@.len(),
            width <= 2,
            ({
                let read = split_groups(text@.take(i as int));
                &&& read.len() == key@.len() + 1
                &&& forall|j: int|
                    0 <= j < key@.len() ==> valid_group(#[trigger] read[j]) && key@[j]
                        == group_value(read[j])
                &&& read.last().len() == width
                &&& forall|k: int| 0 <= k < width ==> is_hex_digit(#[trigger] read.last()[k])
                &&& width == 0 ==> value == 0
                &&& width == 1 ==> value == hex_digit_value(read.last()[0])
                &&& width == 2 ==> value == group_value(read.last())
            }),
        decreases text@.len() - i,
    {
        let c: u8 = text[i];
        let ghost before = split_groups(text@.take(i as int));
        let ghost after = split_groups(text@.take(i + 1));
        proof {
            assert(text@.take(i + 1).drop_last() == text@.take(i as int));
            lemma_split_prefix(text@, i + 1);
        }
        if c == SEPARATOR {
            if width != 2 {
                assert(after[key@.len() as int] == before.last());
                return Err(BootError::MalformedKey);
            }
            key.push(value);
            width = 0;
            value = 0;
        } else {
            match hex_digit(c) {
                Some(digit) => {
                    if width == 2 {
                        return Err(BootError::MalformedKey);
                    }
                    value = if width == 0 {
                        digit
                    } else {
                        value * 16 + digit
                    };
                    width = width + 1;
                },
                None => {
                    assert(after.last()[width as int] == c);
                    return Err(BootError::MalformedKey);
                },
            }
        }
        i = i + 1;
    }
    assert(text@.take(i as int) == text@);
    if width != 2 {
        return Err(BootError::MalformedKey);
    }
    key.push(value);
    if key.len() != expected_len {
        return Err(BootError::MalformedKey);
    }
    Ok(key)
}

/// Decodes a key text given as bytes.
///
/// Succeeds exactly on the texts that are well formed for `expected_len`;
/// every other text is a malformed key. In particular a text with another
/// number of groups is one, and so is a text with a byte that is neither a
/// separator nor a hexadecimal digit.
pub fn decode_bytes(text: &[u8], expected_len: usize) -> (r: Result<Vec<u8>, BootError>)
    ensures
        match r {
            Ok(key) => decode_spec(text@, expected_len as nat) == Some(key@),
            Err(e) => e == BootError::MalformedKey && decode_spec(text@, expected_len as nat)
                is None,
        },
        split_groups(text@).len() != expected_len ==> r == Err::<Vec<u8>, BootError>(
            BootError::MalformedKey,
        ),
        has_stray_byte(text@) ==> r == Err::<Vec<u8>, BootError>(BootError::MalformedKey),
{
    proof {
        if has_stray_byte(text@) {
            lemma_stray_byte_rejected(text@, expected_len as nat);
        }
    }
    scan_key_text(text, expected_len)
}

fn lower_digit(v: u8) -> (c: u8)
    requires
        v < 16,
    ensures
        c == lower_hex_digit(v as int),
{
    if v < 10 {
        0x30 + v
    } else {
        0x61 + (v - 10)
    }
}

/// Writes a key in its canonical text: two lower-case digits per byte,
/// joined by separators.
pub fn encode(key: &[u8]) -> (text: Vec<u8>)
    ensures
        text@ == encode_spec(key@),
{
    let mut text: Vec<u8> = Vec::new();
    let mut i: usize = 0;
    while i < key.len()
        invariant
            0 <= i <= key@.len(),
            text@ == encode_spec(key@.take(i as int)),
        decreases key@.len() - i,
    {
        let b: u8 = key[i];
        proof {
            let pairs = key@.take(i + 1).map_values(|b: u8| hex_pair(b));
            assert(pairs.drop_last() == key@.take(i as int).map_values(|b: u8| hex_pair(b)));
        }
        if i > 0 {
            text.push(SEPARATOR);
        }
        text.push(lower_digit(b / 16));
        text.push(lower_digit(b % 16));
        i = i + 1;
    }
    assert(key@.take(i as int) == key@);
    text
}

/// Decodes a key text into `expected_len` bytes.
///
/// The text is read as its UTF-8 bytes; see [`decode_bytes`].
pub fn decode(text: &str, expected_len: usize) -> (r: Result<Vec<u8>, BootError>)
    ensures
        match r {
            Ok(key) => decode_spec(text.spec_bytes(), expected_len as nat) == Some(key@),
            Err(e) => e == BootError::MalformedKey && decode_spec(
                text.spec_bytes(),
                expected_len as nat,
            ) is None,
        },
        split_groups(text.spec_bytes()).len() != expected_len ==> r == Err::<Vec<u8>, BootError>(
            BootError::MalformedKey,
        ),
        has_stray_byte(text.spec_bytes()) ==> r == Err::<Vec<u8>, BootError>(
            BootError::MalformedKey,
        ),
{
    decode_bytes(text.as_bytes(), expected_len)
}

/// Decodes a key text into `bytes`, whose length is the expected number of
/// groups. On failure `bytes` is left as it was.
pub fn parse_str_to_bytes(arg_str: &str, bytes: &mut [u8]) -> (r: Result<(), BootError>)
    ensures
        final(bytes)@.len() == old(bytes)@.len(),
        match r {
            Ok(()) => decode_spec(arg_str.spec_bytes(), old(bytes)@.len()) == Some(final(bytes)@),
            Err(e) => e == BootError::MalformedKey && decode_spec(
                arg_str.spec_bytes(),
                old(bytes)@.len(),
            ) is None && final(bytes)@ == old(bytes)@,
        },
        split_groups(arg_str.spec_bytes()).len() != old(bytes)@.len() ==> r == Err::<
            (),
            BootError,
        >(BootError::MalformedKey),
        has_stray_byte(arg_str.spec_bytes()) ==> r == Err::<(), BootError>(
            BootError::MalformedKey,
        ),
{
    let key = match decode_bytes(arg_str.as_bytes(), bytes.len()) {
        Ok(key) => key,
        Err(e) => {
            return Err(e);
        },
    };
    let mut i: usize = 0;
    while i < key.len()
        invariant
            0 <= i <= key@.len(),
            bytes@.len() == key@.len(),
            forall|j: int| 0 <= j < i ==> bytes@[j] == key@[j],
        decreases key@.len() - i,
    {
        bytes[i] = key[i];
        i = i + 1;
    }
    Ok(())
}

/// The key of a filesystem image: sixteen secret bytes.
pub struct KeyMaterial {
    pub bytes: [u8; KEY_LEN],
}

impl View for KeyMaterial {
    type V = Seq<u8>;

    open spec fn view(&self) -> Seq<u8> {
        self.bytes@
    }
}

/// Decodes the text of an image key.
pub fn decode_key(text: &str) -> (r: Result<KeyMaterial, BootError>)
    ensures
        match r {
            Ok(key) => decode_spec(text.spec_bytes(), KEY_LEN as nat) == Some(key@),
            Err(e) => e == BootError::MalformedKey && decode_spec(text.spec_bytes(), KEY_LEN as nat)
                is None,
        },
        split_groups(text.spec_bytes()).len() != KEY_LEN ==> r matches Err(
            BootError::MalformedKey,
        ),
        has_stray_byte(text.spec_bytes()) ==> r matches Err(BootError::MalformedKey),
{
    let mut bytes: [u8; KEY_LEN] = [0u8; KEY_LEN];
    match parse_str_to_bytes(text, &mut bytes) {
        Ok(()) => Ok(KeyMaterial { bytes }),
        Err(e) => Err(e),
    }
}

} // verus!
