//! What holds of the byte codec beyond the contract of each function:
//! splitting and joining undo each other, and so do decoding and encoding,
//! up to letter case.

use crate::ascii::{ascii_lower, lower_case};
use crate::codec::{
    decode_spec, encode_spec, group_value, has_stray_byte, hex_pair, is_hex_digit, join_groups,
    lemma_split_nonempty, split_groups, valid_group, SEPARATOR,
};
use vstd::prelude::*;

verus! {

/// Joining the groups of a text gives the text back.
pub proof fn lemma_join_split(text: Seq<u8>)
    ensures
        join_groups(split_groups(text)) == text,
    decreases text.len(),
{
    if text.len() > 0 {
        let shorter = text.drop_last();
        let before = split_groups(shorter);
        let groups = split_groups(text);
        lemma_join_split(shorter);
        lemma_split_nonempty(shorter);
        if text.last() == SEPARATOR {
            assert(groups.drop_last() =~= before);
        } else if before.len() > 1 {
            assert(groups.drop_last() =~= before.drop_last());
            assert(join_groups(groups) =~= join_groups(before).push(text.last()));
        }
    }
}

/// Bytes that hold no separator, written after a text, extend its last group.
pub proof fn lemma_split_extend(text: Seq<u8>, tail: Seq<u8>)
    requires
        forall|i: int| 0 <= i < tail.len() ==> tail[i] != SEPARATOR,
    ensures
        split_groups(text + tail) == split_groups(text).drop_last().push(
            split_groups(text).last() + tail,
        ),
    decreases tail.len(),
{
    lemma_split_nonempty(text);
    if tail.len() > 0 {
        let shorter = tail.drop_last();
        let open_group = split_groups(text).last();
        lemma_split_extend(text, shorter);
        assert((text + tail).drop_last() =~= text + shorter);
        assert((open_group + shorter).push(tail.last()) =~= open_group + tail);
    }
}

/// Splitting the joined groups gives the groups back, provided there is at
/// least one group and none of them holds a separator.
pub proof fn lemma_split_join(groups: Seq<Seq<u8>>)
    requires
        groups.len() >= 1,
        forall|g: int, i: int|
            0 <= g < groups.len() && 0 <= i < groups[g].len() ==> #[trigger] groups[g][i]
                != SEPARATOR,
    ensures
        split_groups(join_groups(groups)) == groups,
    decreases groups.len(),
{
    if groups.len() == 1 {
        lemma_split_extend(Seq::<u8>::empty(), groups[0]);
    } else {
        let front = groups.drop_last();
        let opened = join_groups(front) + seq![SEPARATOR];
        lemma_split_join(front);
        assert(opened.drop_last() =~= join_groups(front));
        lemma_split_extend(opened, groups.last());
    }
}

/// Lower-casing goes through a join: the separator has no case.
pub proof fn lemma_lower_case_join(groups: Seq<Seq<u8>>)
    ensures
        lower_case(join_groups(groups)) == join_groups(
            groups.map_values(|group: Seq<u8>| lower_case(group)),
        ),
    decreases groups.len(),
{
    if groups.len() > 1 {
        let lowered = groups.map_values(|group: Seq<u8>| lower_case(group));
        lemma_lower_case_join(groups.drop_last());
        assert(lowered.drop_last() =~= groups.drop_last().map_values(
            |group: Seq<u8>| lower_case(group),
        ));
        assert(lower_case(join_groups(groups)) =~= lower_case(join_groups(groups.drop_last()))
            + seq![SEPARATOR] + lower_case(groups.last()));
    }
}

/// The canonical group of the byte that a valid group stands for is that
/// group in lower case.
pub proof fn lemma_hex_pair_of_group(group: Seq<u8>)
    requires
        valid_group(group),
    ensures
        hex_pair(group_value(group)) == lower_case(group),
{
}

/// Round trip from text: encoding what a well-formed text decodes to gives
/// the text back in lower case.
pub proof fn lemma_encode_decode(text: Seq<u8>, expected_len: nat)
    requires
        decode_spec(text, expected_len) is Some,
    ensures
        encode_spec(decode_spec(text, expected_len).unwrap()) == lower_case(text),
{
    let groups = split_groups(text);
    let key = decode_spec(text, expected_len).unwrap();
    let pairs = key.map_values(|b: u8| hex_pair(b));
    let lowered = groups.map_values(|group: Seq<u8>| lower_case(group));
    assert forall|i: int| 0 <= i < groups.len() implies pairs[i] == lowered[i] by {
        lemma_hex_pair_of_group(groups[i]);
    }
    assert(pairs =~= lowered);
    lemma_lower_case_join(groups);
    lemma_join_split(text);
}

/// Round trip from bytes: the canonical text of a key that is not empty
/// decodes to that key.
pub proof fn lemma_decode_encode(key: Seq<u8>)
    requires
        key.len() >= 1,
    ensures
        decode_spec(encode_spec(key), key.len()) == Some(key),
{
    let pairs = key.map_values(|b: u8| hex_pair(b));
    assert forall|i: int| 0 <= i < pairs.len() implies valid_group(#[trigger] pairs[i])
        && group_value(pairs[i]) == key[i] by {}
    lemma_split_join(pairs);
}

/// Lower-casing goes through a split as well: it makes no separator and
/// unmakes none.
pub proof fn lemma_split_lower_case(text: Seq<u8>)
    ensures
        split_groups(lower_case(text)) == split_groups(text).map_values(
            |group: Seq<u8>| lower_case(group),
        ),
    decreases text.len(),
{
    assert(lower_case(Seq::<u8>::empty()) =~= Seq::<u8>::empty());
    if text.len() > 0 {
        let shorter = text.drop_last();
        let open_group = split_groups(shorter).last();
        lemma_split_lower_case(shorter);
        lemma_split_nonempty(shorter);
        assert(lower_case(text).drop_last() =~= lower_case(shorter));
        if text.last() != SEPARATOR {
            assert(lower_case(open_group.push(text.last())) =~= lower_case(open_group).push(
                ascii_lower(text.last()),
            ));
        }
    }
}

/// Decoding does not look at the letter case: a text and its lower case
/// decode alike, or both are malformed.
pub proof fn lemma_decode_ignores_case(text: Seq<u8>, expected_len: nat)
    ensures
        decode_spec(lower_case(text), expected_len) == decode_spec(text, expected_len),
{
    let groups = split_groups(text);
    let lowered = split_groups(lower_case(text));
    lemma_split_lower_case(text);
    assert forall|i: int| 0 <= i < groups.len() implies valid_group(#[trigger] lowered[i])
        == valid_group(groups[i]) && (valid_group(groups[i]) ==> group_value(lowered[i])
        == group_value(groups[i])) by {}
    if decode_spec(text, expected_len) is Some {
        assert(decode_spec(lower_case(text), expected_len).unwrap() =~= decode_spec(
            text,
            expected_len,
        ).unwrap());
    } else if groups.len() == expected_len {
        let bad = choose|i: int| 0 <= i < groups.len() && !valid_group(#[trigger] groups[i]);
        assert(!valid_group(lowered[bad]));
    }
}

/// Every byte of a text that is not a separator lies in one of its groups.
pub proof fn lemma_byte_in_group(text: Seq<u8>, i: int) -> (place: (int, int))
    requires
        0 <= i < text.len(),
        text[i] != SEPARATOR,
    ensures
        0 <= place.0 < split_groups(text).len(),
        0 <= place.1 < split_groups(text)[place.0].len(),
        split_groups(text)[place.0][place.1] == text[i],
    decreases text.len(),
{
    let shorter = text.drop_last();
    let before = split_groups(shorter);
    lemma_split_nonempty(shorter);
    if i == text.len() - 1 {
        (before.len() - 1, before.last().len() as int)
    } else {
        lemma_byte_in_group(shorter, i)
    }
}

/// A byte that is neither a separator nor a hexadecimal digit makes the
/// text malformed, whatever length is expected.
pub proof fn lemma_stray_byte_rejected(text: Seq<u8>, expected_len: nat)
    requires
        has_stray_byte(text),
    ensures
        decode_spec(text, expected_len) is None,
{
    let i = choose|i: int|
        0 <= i < text.len() && #[trigger] text[i] != SEPARATOR && !is_hex_digit(text[i]);
    lemma_byte_in_group(text, i);
}

/// A text whose number of groups is not the expected one is malformed.
pub proof fn lemma_group_count_rejected(text: Seq<u8>, expected_len: nat)
    requires
        split_groups(text).len() != expected_len,
    ensures
        decode_spec(text, expected_len) is None,
{
}

/// The two bytes at the place of group `k` in a text of two-byte groups.
pub open spec fn pair_at(text: Seq<u8>, k: int) -> Seq<u8> {
    text.subrange(3 * k, 3 * k + 2)
}

/// The byte after group `k` is a separator.
pub open spec fn separator_after(text: Seq<u8>, k: int) -> bool {
    text[3 * k + 2] == SEPARATOR
}

/// The shape of a well-formed text, place by place: `n` pairs of
/// hexadecimal digits with one separator between each two, and nothing
/// else.
pub open spec fn has_key_layout(text: Seq<u8>, n: nat) -> bool {
    &&& n >= 1
    &&& text.len() == 3 * n - 1
    &&& forall|k: int| 0 <= k < n ==> valid_group(#[trigger] pair_at(text, k))
    &&& forall|k: int| 0 <= k < n - 1 ==> #[trigger] separator_after(text, k)
}

/// Where the groups and separators lie in a join of two-byte groups.
pub proof fn lemma_join_pairs(groups: Seq<Seq<u8>>)
    requires
        groups.len() >= 1,
        forall|k: int| 0 <= k < groups.len() ==> (#[trigger] groups[k]).len() == 2,
    ensures
        join_groups(groups).len() == 3 * groups.len() - 1,
        forall|k: int|
            0 <= k < groups.len() ==> pair_at(join_groups(groups), k) == #[trigger] groups[k],
        forall|k: int|
            0 <= k < groups.len() - 1 ==> #[trigger] separator_after(join_groups(groups), k),
    decreases groups.len(),
{
    if groups.len() > 1 {
        let joined = join_groups(groups);
        let front = groups.drop_last();
        let before = join_groups(front);
        lemma_join_pairs(front);
        assert forall|k: int| 0 <= k < groups.len() implies pair_at(joined, k)
            == #[trigger] groups[k] by {
            if k < front.len() {
                assert(pair_at(before, k) == front[k]);
            }
        }
        assert forall|k: int| 0 <= k < groups.len() - 1 implies #[trigger] separator_after(
            joined,
            k,
        ) by {
            if k < front.len() - 1 {
                assert(separator_after(before, k));
            }
        }
    }
}

/// A text is well formed for `n` bytes exactly when it has the layout of
/// `n` pairs, and then byte `k` of the key is the value of pair `k`.
pub proof fn lemma_key_layout(text: Seq<u8>, n: nat)
    ensures
        decode_spec(text, n) is Some <==> has_key_layout(text, n),
        has_key_layout(text, n) ==> decode_spec(text, n) == Some(
            Seq::new(n, |k: int| group_value(pair_at(text, k))),
        ),
{
    let groups = split_groups(text);
    lemma_split_nonempty(text);
    if has_key_layout(text, n) {
        let pairs = Seq::new(n, |k: int| pair_at(text, k));
        let joined = join_groups(pairs);
        lemma_join_pairs(pairs);
        assert forall|i: int| 0 <= i < text.len() implies joined[i] == text[i] by {
            let k = i / 3;
            if i % 3 == 2 {
                assert(separator_after(joined, k));
                assert(separator_after(text, k));
            } else {
                assert(pair_at(joined, k) == pairs[k]);
            }
        }
        assert(joined =~= text);
        assert forall|g: int, i: int|
            0 <= g < pairs.len() && 0 <= i < pairs[g].len() implies #[trigger] pairs[g][i]
            != SEPARATOR by {}
        lemma_split_join(pairs);
    }
    if decode_spec(text, n) is Some {
        lemma_join_split(text);
        lemma_join_pairs(groups);
        assert forall|k: int| 0 <= k < n implies valid_group(#[trigger] pair_at(text, k)) by {
            assert(pair_at(text, k) == groups[k]);
        }
        assert(decode_spec(text, n).unwrap() =~= Seq::new(
            n,
            |k: int| group_value(pair_at(text, k)),
        ));
    }
}

} // verus!
