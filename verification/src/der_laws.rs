//! What a reader of the encodings finds in them again.

use vstd::prelude::*;

use crate::der::{
    arc_values, arcs_octets, base128, base128_head, be_bytes, be_value, der_base128_encode,
    der_bit_string, der_encode_int, der_len, der_object_identifier, der_sequence, integer_content,
    joined, length_octets, oid_content, stripped, tlv,
};

verus! {

// ---------------------------------------------------------------------
// Reading
// ---------------------------------------------------------------------

/// How many length octets stand at the front of `bytes`.
pub open spec fn length_size(bytes: Seq<u8>) -> int {
    if bytes[0] < 0x80 {
        1
    } else {
        1 + (bytes[0] - 0x80)
    }
}

/// The length that the octets at the front of `bytes` denote.
pub open spec fn length_value(bytes: Seq<u8>) -> nat {
    if bytes[0] < 0x80 {
        bytes[0] as nat
    } else {
        be_value(bytes.subrange(1, length_size(bytes)))
    }
}

/// The content of the value at the front of `bytes`.
pub open spec fn value_content(bytes: Seq<u8>) -> Seq<u8> {
    let after = bytes.skip(1);
    let from = 1 + length_size(after);
    bytes.subrange(from, from + length_value(after))
}

/// What follows the value at the front of `bytes`.
pub open spec fn after_value(bytes: Seq<u8>) -> Seq<u8> {
    let after = bytes.skip(1);
    bytes.skip(1 + length_size(after) + length_value(after))
}

/// The number at the front of `bytes` in groups of seven bits.
pub open spec fn base128_value(bytes: Seq<u8>, acc: nat) -> nat
    decreases bytes.len(),
{
    if bytes.len() == 0 {
        acc
    } else if bytes[0] < 0x80 {
        acc * 128 + bytes[0] as nat
    } else {
        base128_value(bytes.drop_first(), acc * 128 + (bytes[0] - 0x80) as nat)
    }
}

// ---------------------------------------------------------------------
// Lemmas
// ---------------------------------------------------------------------

proof fn lemma_be_round_trip(n: nat)
    ensures
        be_value(be_bytes(n)) == n,
    decreases n,
{
    if n > 0 {
        lemma_be_round_trip(n / 256);
        let low = (n % 256) as u8;
        assert(be_bytes(n).drop_last() == be_bytes(n / 256));
        assert(be_bytes(n).last() == low);
    }
}

/// A leading zero does not change the number that bytes denote.
pub proof fn lemma_be_leading_zero(bytes: Seq<u8>)
    ensures
        be_value(seq![0u8] + bytes) == be_value(bytes),
    decreases bytes.len(),
{
    let whole = seq![0u8] + bytes;
    if bytes.len() == 0 {
        assert(whole.drop_last() == Seq::<u8>::empty());
        assert(whole.last() == 0);
        reveal_with_fuel(be_value, 2);
    } else {
        lemma_be_leading_zero(bytes.drop_last());
        assert(whole.drop_last() == seq![0u8] + bytes.drop_last());
    }
}

proof fn lemma_stripped(raw: Seq<u8>)
    requires
        raw.len() > 0,
    ensures
        0 < stripped(raw).len() <= raw.len(),
        stripped(raw).len() == 1 || stripped(raw)[0] != 0,
        be_value(stripped(raw)) == be_value(raw),
    decreases raw.len(),
{
    if raw.len() > 1 && raw[0] == 0 {
        lemma_stripped(raw.drop_first());
        lemma_be_leading_zero(raw.drop_first());
        assert(raw == seq![0u8] + raw.drop_first());
    }
}

proof fn lemma_base128_head(n: nat, tail: Seq<u8>, acc: nat)
    requires
        acc == 0,
    ensures
        base128_value(base128_head(n) + tail, acc) == base128_value(tail, n),
    decreases n,
{
    if n == 0 {
        assert(base128_head(n) + tail == tail);
    } else {
        let octet = (0x80 + n % 128) as u8;
        let next = seq![octet] + tail;
        assert(base128_head(n) + tail == base128_head(n / 128) + next);
        lemma_base128_head(n / 128, next, acc);
        assert(next.drop_first() == tail);
        assert(next[0] == octet);
        assert((n / 128) * 128 + n % 128 == n);
    }
}

// ---------------------------------------------------------------------
// Laws
// ---------------------------------------------------------------------

/// The length octets say where they end and which length they stand for,
/// whatever follows them.
pub proof fn law_length_reads_back(len: nat, rest: Seq<u8>)
    requires
        len <= usize::MAX,
    ensures
        length_size(length_octets(len) + rest) == length_octets(len).len(),
        length_value(length_octets(len) + rest) == len,
{
    let whole = length_octets(len) + rest;
    crate::der::lemma_be_bytes_len(len);
    if len >= 0x80 {
        let bytes = be_bytes(len);
        assert(whole[0] == (0x80 + bytes.len()) as u8);
        assert(whole.subrange(1, 1 + bytes.len() as int) == bytes);
        lemma_be_round_trip(len);
    }
}

/// A value says where it ends: its tag, its content and what follows it are
/// read back.
pub proof fn law_value_reads_back(tag: u8, content: Seq<u8>, rest: Seq<u8>)
    requires
        content.len() <= usize::MAX,
    ensures
        (tlv(tag, content) + rest)[0] == tag,
        value_content(tlv(tag, content) + rest) == content,
        after_value(tlv(tag, content) + rest) == rest,
{
    let whole = tlv(tag, content) + rest;
    law_length_reads_back(content.len(), content + rest);
    assert(whole.skip(1) == length_octets(content.len()) + (content + rest));
    let from = 1 + length_octets(content.len()).len() as int;
    assert(whole.subrange(from, from + content.len()) == content);
    assert(whole.skip(from + content.len()) == rest);
}

/// The content of an INTEGER denotes the number that was written, has its
/// sign bit clear, and is as short as that allows.
pub proof fn law_integer_content_is_minimal(raw: Seq<u8>)
    requires
        raw.len() > 0,
    ensures
        be_value(integer_content(raw)) == be_value(raw),
        0 < integer_content(raw).len() <= raw.len() + 1,
        integer_content(raw)[0] < 0x80,
        integer_content(raw).len() > 1 && integer_content(raw)[0] == 0 ==> integer_content(raw)[1]
            >= 0x80,
{
    lemma_stripped(raw);
    lemma_be_leading_zero(stripped(raw));
}

/// An arc is read back from its octets, whatever follows them.
pub proof fn law_arc_reads_back(n: nat, rest: Seq<u8>)
    ensures
        base128_value(base128(n) + rest, 0) == n,
{
    let low = (n % 128) as u8;
    let tail = seq![low] + rest;
    assert(base128(n) + rest == base128_head(n / 128) + tail);
    lemma_base128_head(n / 128, tail, 0);
    assert(tail[0] == low);
    assert((n / 128) * 128 + n % 128 == n);
}

/// The bytes of a number have no zero in front.
proof fn lemma_be_bytes_first(n: nat)
    requires
        n > 0,
    ensures
        be_bytes(n).len() > 0,
        be_bytes(n)[0] != 0,
    decreases n,
{
    if n >= 256 {
        lemma_be_bytes_first(n / 256);
    } else {
        assert(be_bytes(n / 256) =~= Seq::<u8>::empty());
    }
}

/// The octets of an arc are as few as can be: the first is not an empty group,
/// and all but the last are marked as followed by another one.
pub proof fn law_arc_is_minimal(n: nat)
    ensures
        base128(n).len() > 0,
        base128(n).last() < 0x80,
        forall|i: int| 0 <= i < base128(n).len() - 1 ==> #[trigger] base128(n)[i] >= 0x80,
        base128(n).len() > 1 ==> base128(n)[0] != 0x80,
{
    lemma_base128_head_shape(n / 128);
    let head = base128_head(n / 128);
    assert forall|i: int| 0 <= i < base128(n).len() - 1 implies #[trigger] base128(n)[i] >= 0x80 by {
        assert(base128(n)[i] == head[i]);
    }
    if base128(n).len() > 1 {
        assert(base128(n)[0] == head[0]);
    }
}

proof fn lemma_base128_head_shape(n: nat)
    ensures
        forall|i: int| 0 <= i < base128_head(n).len() ==> #[trigger] base128_head(n)[i] >= 0x80,
        n > 0 ==> base128_head(n).len() > 0 && base128_head(n)[0] != 0x80,
        n == 0 ==> base128_head(n).len() == 0,
    decreases n,
{
    if n > 0 {
        lemma_base128_head_shape(n / 128);
        let s = base128_head(n);
        let d = base128_head(n / 128);
        assert forall|i: int| 0 <= i < s.len() implies #[trigger] s[i] >= 0x80 by {
            if i < d.len() {
                assert(s[i] == d[i]);
            }
        }
        if n >= 128 {
            assert(s[0] == d[0]);
        }
    }
}

/// The octets of arcs are those of one arc after the other.
pub proof fn law_arcs_follow_each_other(arcs: Seq<nat>, n: nat)
    ensures
        arcs_octets(Seq::empty()) == Seq::<u8>::empty(),
        arcs_octets(arcs.push(n)) == arcs_octets(arcs) + base128(n),
{
    assert(arcs.push(n).drop_last() =~= arcs);
}

/// Encodings that are joined stand one after the other.
pub proof fn law_parts_follow_each_other(parts: Seq<Vec<u8>>, part: Vec<u8>)
    ensures
        joined(Seq::empty()) == Seq::<u8>::empty(),
        joined(parts.push(part)) == joined(parts) + part@,
{
    assert(parts.push(part).drop_last() =~= parts);
}

// ---------------------------------------------------------------------
// What is written
// ---------------------------------------------------------------------

/// A length is one octet below 128; otherwise one octet says how many follow,
/// and those denote the length without a zero in front.
pub proof fn law_length_is_written(len: usize, r: Vec<u8>)
    requires
        call_ensures(der_len, (len,), r),
    ensures
        len < 0x80 ==> r@ == seq![len as u8],
        len >= 0x80 ==> r@.len() == 1 + (r@[0] - 0x80) && r@.len() > 1 && r@[1] != 0 && be_value(
            r@.skip(1),
        ) == len,
{
    if len >= 0x80 {
        crate::der::lemma_be_bytes_len(len as nat);
        lemma_be_bytes_first(len as nat);
        lemma_be_round_trip(len as nat);
        assert(r@.skip(1) =~= be_bytes(len as nat));
        assert(r@[1] == be_bytes(len as nat)[0]);
    }
}

/// Whether bytes are one value with a tag and a content, and nothing else.
pub open spec fn is_value(bytes: Seq<u8>, tag: u8, content: Seq<u8>) -> bool {
    &&& bytes[0] == tag
    &&& value_content(bytes) == content
    &&& after_value(bytes).len() == 0
}

proof fn lemma_is_value(bytes: Vec<u8>, tag: u8, content: Seq<u8>)
    requires
        bytes@ == tlv(tag, content),
    ensures
        is_value(bytes@, tag, content),
{
    assert(bytes@.len() == bytes.len());
    assert(content.len() <= bytes@.len());
    law_value_reads_back(tag, content, Seq::empty());
    assert(tlv(tag, content) + Seq::<u8>::empty() =~= tlv(tag, content));
}

/// A SEQUENCE holds its parts one after the other, and nothing else.
pub proof fn law_sequence_holds_parts(parts: &[Vec<u8>], r: Vec<u8>)
    requires
        call_ensures(der_sequence, (parts,), r),
    ensures
        is_value(r@, 0x30, joined(parts@)),
{
    lemma_is_value(r, 0x30, joined(parts@));
}

/// A BIT STRING holds its bytes, after an octet that says that all bits count.
pub proof fn law_bit_string_holds_bytes(bytes: &[u8], r: Vec<u8>)
    requires
        call_ensures(der_bit_string, (bytes,), r),
    ensures
        is_value(r@, 0x03, seq![0u8] + bytes@),
{
    lemma_is_value(r, 0x03, seq![0u8] + bytes@);
}

/// An OBJECT IDENTIFIER holds one octet for its first two arcs, then the
/// others one after the other.
pub proof fn law_object_identifier_holds_arcs(arcs: &[u32], r: Vec<u8>)
    requires
        call_ensures(der_object_identifier, (arcs,), r),
        arcs@.len() >= 2,
    ensures
        is_value(
            r@,
            0x06,
            seq![((arcs@[0] * 40 + arcs@[1]) % 256) as u8] + arcs_octets(
                arcs@.skip(2).map_values(|a: u32| a as nat),
            ),
        ),
{
    let content = oid_content(arc_values(arcs@));
    lemma_is_value(r, 0x06, content);
    assert(arc_values(arcs@).skip(2) =~= arcs@.skip(2).map_values(|a: u32| a as nat));
}

/// Every identifier whose first arc is below two and whose second is below
/// forty can be encoded, and so can one whose first arc is two.
pub proof fn law_object_identifiers_can_be_encoded(arcs: &[u32])
    requires
        arcs@.len() >= 2,
        (arcs@[0] < 2 && arcs@[1] < 40) || (arcs@[0] == 2 && arcs@[1] <= u32::MAX - 80),
    ensures
        call_requires(der_object_identifier, (arcs,)),
{
}

/// An INTEGER denotes the number that was given, with its sign bit clear and
/// as short as that allows.
pub proof fn law_integer_is_written(raw: &[u8], r: Vec<u8>)
    requires
        call_ensures(der_encode_int, (raw,), r),
        raw@.len() > 0,
    ensures
        r@[0] == 0x02,
        after_value(r@).len() == 0,
        be_value(value_content(r@)) == be_value(raw@),
        value_content(r@).len() > 0,
        value_content(r@)[0] < 0x80,
        value_content(r@).len() > 1 && value_content(r@)[0] == 0 ==> value_content(r@)[1] >= 0x80,
{
    lemma_is_value(r, 0x02, integer_content(raw@));
    law_integer_content_is_minimal(raw@);
}

/// The octets of an arc are put after what was written, and read back as the
/// arc.
pub proof fn law_arc_is_appended(value: u32, out: &mut Vec<u8>)
    requires
        call_ensures(der_base128_encode, (value, out), ()),
    ensures
        final(out)@.len() > old(out)@.len(),
        final(out)@.take(old(out)@.len() as int) == old(out)@,
        base128_value(final(out)@.skip(old(out)@.len() as int), 0) == value,
{
    law_arc_reads_back(value as nat, Seq::empty());
    let octets = base128(value as nat);
    assert(octets + Seq::<u8>::empty() =~= octets);
    assert(final(out)@.skip(old(out)@.len() as int) =~= octets);
    assert(final(out)@.take(old(out)@.len() as int) =~= old(out)@);
    law_arc_is_minimal(value as nat);
}

} // verus!
