//! Writing ASN.1 values in DER, as far as keys and signatures need it.

use vstd::prelude::*;

verus! {

/// The tag of a SEQUENCE.
pub const ASN1_SEQUENCE_TAG: u8 = 0x30;

/// The tag of an INTEGER.
pub const ASN1_INTEGER_TAG: u8 = 0x02;

/// The tag of an OBJECT IDENTIFIER.
pub const ASN1_OBJECT_IDENTIFIER_TAG: u8 = 0x06;

/// The tag of a BIT STRING.
pub const ASN1_BIT_STRING_TAG: u8 = 0x03;

/// The first content octet of a BIT STRING that uses all bits of its last
/// octet.
pub const ASN1_BIT_STRING_ZERO_UNUSED_BITS: u8 = 0x00;

// ---------------------------------------------------------------------
// Lengths
// ---------------------------------------------------------------------

/// The number that big-endian bytes denote.
pub open spec fn be_value(bytes: Seq<u8>) -> nat
    decreases bytes.len(),
{
    if bytes.len() == 0 {
        0
    } else {
        be_value(bytes.drop_last()) * 256 + bytes.last() as nat
    }
}

/// The big-endian bytes of `n`, without leading zeros.
pub open spec fn be_bytes(n: nat) -> Seq<u8>
    decreases n,
{
    if n == 0 {
        Seq::empty()
    } else {
        be_bytes(n / 256).push((n % 256) as u8)
    }
}

/// The length octets of a value with `len` content octets.
pub open spec fn length_octets(len: nat) -> Seq<u8> {
    if len < 0x80 {
        seq![len as u8]
    } else {
        seq![(0x80 + be_bytes(len).len()) as u8] + be_bytes(len)
    }
}

/// Appends the big-endian bytes of `n`.
fn push_be_bytes(n: usize, out: &mut Vec<u8>)
    ensures
        final(out)@ == old(out)@ + be_bytes(n as nat),
    decreases n,
{
    if n > 0 {
        push_be_bytes(n / 256, out);
        out.push((n % 256) as u8);
    }
    assert(out@ == old(out)@ + be_bytes(n as nat));
}

/// A number below two to the power of sixty-four has at most eight bytes.
pub proof fn lemma_be_bytes_len(n: nat)
    ensures
        n <= u64::MAX ==> be_bytes(n).len() <= 8,
        n <= u64::MAX / 0x100 ==> be_bytes(n).len() <= 7,
        n <= u64::MAX / 0x1_0000 ==> be_bytes(n).len() <= 6,
        n <= u64::MAX / 0x100_0000 ==> be_bytes(n).len() <= 5,
        n <= u64::MAX / 0x1_0000_0000 ==> be_bytes(n).len() <= 4,
        n <= u64::MAX / 0x100_0000_0000 ==> be_bytes(n).len() <= 3,
        n <= u64::MAX / 0x1_0000_0000_0000 ==> be_bytes(n).len() <= 2,
        n <= u64::MAX / 0x100_0000_0000_0000 ==> be_bytes(n).len() <= 1,
        n == 0 ==> be_bytes(n).len() == 0,
    decreases n,
{
    if n > 0 {
        lemma_be_bytes_len(n / 256);
    }
}

/// The length octets of a value with `len` content octets.
pub fn der_len(len: usize) -> (r: Vec<u8>)
    ensures
        r@ == length_octets(len as nat),
{
    let mut out: Vec<u8> = Vec::new();
    if len < 0x80 {
        out.push(len as u8);
        assert(out@ == length_octets(len as nat));
    } else {
        let mut bytes: Vec<u8> = Vec::new();
        push_be_bytes(len, &mut bytes);
        proof {
            lemma_be_bytes_len(len as nat);
            assert(bytes@ == be_bytes(len as nat));
        }
        out.push(0x80 + bytes.len() as u8);
        out.append(&mut bytes);
        assert(out@ == length_octets(len as nat));
    }
    out
}

// ---------------------------------------------------------------------
// Values
// ---------------------------------------------------------------------

/// A value: its tag, its length, its content.
pub open spec fn tlv(tag: u8, content: Seq<u8>) -> Seq<u8> {
    seq![tag] + length_octets(content.len()) + content
}

/// Writes a value with the given content.
fn der_value(tag: u8, content: &[u8]) -> (r: Vec<u8>)
    ensures
        r@ == tlv(tag, content@),
{
    let mut out: Vec<u8> = Vec::new();
    out.push(tag);
    let mut length = der_len(content.len());
    out.append(&mut length);
    out.extend_from_slice(content);
    assert(out@ == tlv(tag, content@));
    out
}

/// Several encodings, one after the other.
pub open spec fn joined(parts: Seq<Vec<u8>>) -> Seq<u8>
    decreases parts.len(),
{
    if parts.len() == 0 {
        Seq::empty()
    } else {
        joined(parts.drop_last()) + parts.last()@
    }
}

/// Writes a SEQUENCE of values that are encoded already.
pub fn der_sequence(parts: &[Vec<u8>]) -> (r: Vec<u8>)
    ensures
        r@ == tlv(ASN1_SEQUENCE_TAG, joined(parts@)),
{
    let mut content: Vec<u8> = Vec::new();
    let mut i: usize = 0;
    while i < parts.len()
        invariant
            i <= parts@.len(),
            content@ == joined(parts@.take(i as int)),
        decreases parts.len() - i,
    {
        content.extend_from_slice(parts[i].as_slice());
        assert(parts@.take(i + 1).drop_last() == parts@.take(i as int));
        i = i + 1;
    }
    assert(parts@.take(i as int) == parts@);
    der_value(ASN1_SEQUENCE_TAG, content.as_slice())
}

/// Writes a BIT STRING of whole bytes.
pub fn der_bit_string(bytes: &[u8]) -> (r: Vec<u8>)
    ensures
        r@ == tlv(ASN1_BIT_STRING_TAG, seq![ASN1_BIT_STRING_ZERO_UNUSED_BITS] + bytes@),
{
    let mut body: Vec<u8> = Vec::new();
    body.push(ASN1_BIT_STRING_ZERO_UNUSED_BITS);
    body.extend_from_slice(bytes);
    assert(body@ == seq![ASN1_BIT_STRING_ZERO_UNUSED_BITS] + bytes@);
    der_value(ASN1_BIT_STRING_TAG, body.as_slice())
}

// ---------------------------------------------------------------------
// Object identifiers
// ---------------------------------------------------------------------

/// The octets of `n` in groups of seven bits, each marked as followed by
/// another one.
pub open spec fn base128_head(n: nat) -> Seq<u8>
    decreases n,
{
    if n == 0 {
        Seq::empty()
    } else {
        base128_head(n / 128).push((0x80 + n % 128) as u8)
    }
}

/// The octets of an arc: groups of seven bits, all but the last one marked.
pub open spec fn base128(n: nat) -> Seq<u8> {
    base128_head(n / 128).push((n % 128) as u8)
}

/// The octets of the arcs, one arc after the other.
pub open spec fn arcs_octets(arcs: Seq<nat>) -> Seq<u8>
    decreases arcs.len(),
{
    if arcs.len() == 0 {
        Seq::empty()
    } else {
        arcs_octets(arcs.drop_last()) + base128(arcs.last())
    }
}

/// The content octets of an object identifier. The first two arcs share one
/// octet.
pub open spec fn oid_content(arcs: Seq<nat>) -> Seq<u8> {
    seq![((arcs[0] * 40 + arcs[1]) % 256) as u8] + arcs_octets(arcs.skip(2))
}

/// Arcs as natural numbers.
pub open spec fn arc_values(arcs: Seq<u32>) -> Seq<nat> {
    arcs.map_values(|a: u32| a as nat)
}

/// Whether the first two arcs are those of an object identifier.
pub open spec fn valid_arcs(arcs: Seq<u32>) -> bool {
    arcs.len() >= 2 && arcs[0] <= 2 && (arcs[0] == 2 || arcs[1] < 40)
}

/// Appends the marked octets of `value`.
fn push_base128_head(value: u32, out: &mut Vec<u8>)
    ensures
        final(out)@ == old(out)@ + base128_head(value as nat),
    decreases value,
{
    if value > 0 {
        push_base128_head(value / 128, out);
        out.push((0x80 + value % 128) as u8);
    }
    assert(out@ == old(out)@ + base128_head(value as nat));
}

/// Appends the octets of an arc.
pub fn der_base128_encode(value: u32, out: &mut Vec<u8>)
    ensures
        final(out)@ == old(out)@ + base128(value as nat),
{
    push_base128_head(value / 128, out);
    out.push((value % 128) as u8);
    assert(out@ == old(out)@ + base128(value as nat));
}

/// Writes an OBJECT IDENTIFIER.
pub fn der_object_identifier(arcs: &[u32]) -> (r: Vec<u8>)
    requires
        valid_arcs(arcs@),
        arcs@[0] * 40 + arcs@[1] <= u32::MAX,
    ensures
        r@ == tlv(ASN1_OBJECT_IDENTIFIER_TAG, oid_content(arc_values(arcs@))),
{
    let mut body: Vec<u8> = Vec::new();
    body.push(((arcs[0] * 40 + arcs[1]) % 256) as u8);
    let ghost values = arc_values(arcs@);
    let ghost rest = values.skip(2);
    let mut i: usize = 2;
    assert(rest.take(0) == Seq::<nat>::empty());
    while i < arcs.len()
        invariant
            2 <= i <= arcs@.len(),
            values == arc_values(arcs@),
            rest == values.skip(2),
            body@ == seq![((values[0] * 40 + values[1]) % 256) as u8] + arcs_octets(
                rest.take(i - 2),
            ),
        decreases arcs.len() - i,
    {
        der_base128_encode(arcs[i], &mut body);
        assert(rest.take(i - 1).drop_last() == rest.take(i - 2));
        assert(rest.take(i - 1).last() == arcs@[i as int] as nat);
        i = i + 1;
    }
    assert(rest.take(i - 2) == rest);
    der_value(ASN1_OBJECT_IDENTIFIER_TAG, body.as_slice())
}

// ---------------------------------------------------------------------
// Integers
// ---------------------------------------------------------------------

/// `raw` without the leading zeros that are not needed to keep one byte.
pub open spec fn stripped(raw: Seq<u8>) -> Seq<u8>
    decreases raw.len(),
{
    if raw.len() > 1 && raw[0] == 0 {
        stripped(raw.drop_first())
    } else {
        raw
    }
}

/// The content octets of the non-negative INTEGER with the big-endian bytes
/// `raw`: the shortest that keep the sign bit clear.
pub open spec fn integer_content(raw: Seq<u8>) -> Seq<u8> {
    let value = stripped(raw);
    if value[0] >= 0x80 {
        seq![0u8] + value
    } else {
        value
    }
}

/// Writes the non-negative INTEGER with the big-endian bytes `raw`.
pub fn der_encode_int(raw: &[u8]) -> (r: Vec<u8>)
    requires
        raw@.len() > 0,
    ensures
        r@ == tlv(ASN1_INTEGER_TAG, integer_content(raw@)),
{
    let mut start: usize = 0;
    assert(raw@.skip(0) == raw@);
    while start < raw.len() - 1 && raw[start] == 0
        invariant
            start < raw@.len(),
            stripped(raw@) == stripped(raw@.skip(start as int)),
        decreases raw.len() - start,
    {
        assert(raw@.skip(start as int).drop_first() == raw@.skip(start + 1));
        start = start + 1;
    }
    assert(stripped(raw@) == raw@.skip(start as int));
    let mut value: Vec<u8> = Vec::new();
    if raw[start] >= 0x80 {
        value.push(0);
    }
    value.extend_from_slice(vstd::slice::slice_subrange(raw, start, raw.len()));
    assert(value@ == integer_content(raw@));
    der_value(ASN1_INTEGER_TAG, value.as_slice())
}

} // verus!
