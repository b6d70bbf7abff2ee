//! The signed bytes of a permission stand for its fields and for nothing else.

use vstd::prelude::*;
use vstd::utf8::{encode_utf8, encode_utf8_decode_utf8};

use crate::number::{digit_char, hex};
use crate::permission::{
    canonical_permission_bytes, canonical_text, check_algorithm, field_line, key_line,
    p256_public_key, p256_signature, p256_verification, signature_verdict, verify_signature,
};
use crate::registry::CandidatePermission;
use crate::text::debug_text;
use crate::timestamp::civil_time;
use crate::timestamp_laws::{law_rfc3339_identifies_instant, law_rfc3339_is_one_line};

verus! {

// ---------------------------------------------------------------------
// Lines
// ---------------------------------------------------------------------

/// Two texts of lines that are equal have equal first lines and equal rests.
proof fn lemma_first_line(a: Seq<char>, ra: Seq<char>, b: Seq<char>, rb: Seq<char>)
    requires
        !a.contains('\n'),
        !b.contains('\n'),
        a + seq!['\n'] + ra == b + seq!['\n'] + rb,
    ensures
        a == b,
        ra == rb,
{
    let s = a + seq!['\n'] + ra;
    let t = b + seq!['\n'] + rb;
    assert(s[a.len() as int] == '\n');
    assert(t[b.len() as int] == '\n');
    if a.len() < b.len() {
        assert(t[a.len() as int] == b[a.len() as int]);
        assert(b.contains('\n'));
    }
    if b.len() < a.len() {
        assert(s[b.len() as int] == a[b.len() as int]);
        assert(a.contains('\n'));
    }
    assert(s.take(a.len() as int) == a);
    assert(t.take(b.len() as int) == b);
    assert(s.skip(a.len() as int + 1) == ra);
    assert(t.skip(b.len() as int + 1) == rb);
}

/// The same, of lines with the same label.
proof fn lemma_first_field(
    label: Seq<char>,
    a: Seq<char>,
    ra: Seq<char>,
    b: Seq<char>,
    rb: Seq<char>,
)
    requires
        !label.contains('\n'),
        !a.contains('\n'),
        !b.contains('\n'),
        field_line(label, a) + ra == field_line(label, b) + rb,
    ensures
        a == b,
        ra == rb,
{
    lemma_no_newline_concat(label, a);
    lemma_no_newline_concat(label, b);
    lemma_first_line(label + a, ra, label + b, rb);
    assert((label + a).skip(label.len() as int) == a);
    assert((label + b).skip(label.len() as int) == b);
}

proof fn lemma_no_newline_concat(a: Seq<char>, b: Seq<char>)
    requires
        !a.contains('\n'),
        !b.contains('\n'),
    ensures
        !(a + b).contains('\n'),
{
    if (a + b).contains('\n') {
        let i = choose|i: int| 0 <= i < (a + b).len() && (a + b)[i] == '\n';
        if i < a.len() {
            assert(a[i] == '\n');
        } else {
            assert(b[i - a.len()] == '\n');
        }
    }
}

// ---------------------------------------------------------------------
// Hexadecimal
// ---------------------------------------------------------------------

proof fn lemma_hex_digit(a: int, b: int)
    requires
        0 <= a < 16,
        0 <= b < 16,
    ensures
        digit_char(a) != '\n',
        digit_char(a) == digit_char(b) ==> a == b,
{
    assert(a < 10 ==> digit_char(a) as int == '0' as int + a);
    assert(a >= 10 ==> digit_char(a) as int == 'a' as int + a - 10);
    assert(b < 10 ==> digit_char(b) as int == '0' as int + b);
    assert(b >= 10 ==> digit_char(b) as int == 'a' as int + b - 10);
}

proof fn lemma_hex_one_line(bytes: Seq<u8>)
    ensures
        !hex(bytes).contains('\n'),
        hex(bytes).len() == 2 * bytes.len(),
    decreases bytes.len(),
{
    if bytes.len() > 0 {
        lemma_hex_one_line(bytes.drop_last());
        let high = bytes.last() as int / 16;
        let low = bytes.last() as int % 16;
        lemma_hex_digit(high, low);
        lemma_hex_digit(low, high);
        let tail = seq![digit_char(high), digit_char(low)];
        assert(!tail.contains('\n'));
        lemma_no_newline_concat(hex(bytes.drop_last()), tail);
    }
}

proof fn lemma_hex_injective(a: Seq<u8>, b: Seq<u8>)
    requires
        hex(a) == hex(b),
    ensures
        a == b,
    decreases a.len(),
{
    lemma_hex_one_line(a);
    lemma_hex_one_line(b);
    if a.len() > 0 {
        let x = hex(a);
        let y = hex(b);
        let n = x.len() as int;
        lemma_hex_one_line(a.drop_last());
        lemma_hex_one_line(b.drop_last());
        assert(x.take(n - 2) == hex(a.drop_last()));
        assert(y.take(n - 2) == hex(b.drop_last()));
        lemma_hex_injective(a.drop_last(), b.drop_last());
        let p = a.last() as int;
        let q = b.last() as int;
        assert(x[n - 2] == digit_char(p / 16) && y[n - 2] == digit_char(q / 16));
        assert(x[n - 1] == digit_char(p % 16) && y[n - 1] == digit_char(q % 16));
        lemma_hex_digit(p / 16, q / 16);
        lemma_hex_digit(p % 16, q % 16);
        assert(a == a.drop_last().push(a.last()));
        assert(b == b.drop_last().push(b.last()));
    } else {
        assert(a == b);
    }
}

// ---------------------------------------------------------------------
// Labels
// ---------------------------------------------------------------------

proof fn lemma_labels()
    ensures
        !"agent-gateway-permission-v1"@.contains('\n'),
        !"permission_id="@.contains('\n'),
        !"signing_key_id="@.contains('\n'),
        !"subject_identity="@.contains('\n'),
        !"subject_public_key_spki_der="@.contains('\n'),
        !"destination="@.contains('\n'),
        !"not_before="@.contains('\n'),
        !"not_after="@.contains('\n'),
        "subject_public_key_spki_der="@.len() > 0,
        "destination="@.len() > 0,
        "subject_public_key_spki_der="@[0] == 's',
        "destination="@[0] == 'd',
{
    reveal_strlit("agent-gateway-permission-v1");
    reveal_strlit("permission_id=");
    reveal_strlit("signing_key_id=");
    reveal_strlit("subject_identity=");
    reveal_strlit("subject_public_key_spki_der=");
    reveal_strlit("destination=");
    reveal_strlit("not_before=");
    reveal_strlit("not_after=");
}

/// The part of the signed text that starts with the key, if there is one.
spec fn from_key(c: CandidatePermission) -> Seq<char> {
    key_line(c.subject_public_key_spki_der) + from_destination(c)
}

spec fn from_destination(c: CandidatePermission) -> Seq<char> {
    field_line("destination="@, c.destination@) + from_not_before(c)
}

spec fn from_not_before(c: CandidatePermission) -> Seq<char> {
    field_line("not_before="@, civil_time(c.permission_not_before@).rfc3339_text()) + (field_line(
        "not_after="@,
        civil_time(c.permission_not_after@).rfc3339_text(),
    ) + Seq::empty())
}

proof fn lemma_canonical_shape(c: CandidatePermission)
    ensures
        canonical_text(c) == field_line("agent-gateway-permission-v1"@, Seq::empty()) + (field_line(
            "permission_id="@,
            c.permission_id@,
        ) + (field_line("signing_key_id="@, c.signing_key_id@) + (field_line(
            "subject_identity="@,
            c.subject_identity@,
        ) + from_key(c)))),
{
    let l1 = field_line("agent-gateway-permission-v1"@, Seq::empty());
    let l2 = field_line("permission_id="@, c.permission_id@);
    let l3 = field_line("signing_key_id="@, c.signing_key_id@);
    let l4 = field_line("subject_identity="@, c.subject_identity@);
    let l5 = key_line(c.subject_public_key_spki_der);
    let l6 = field_line("destination="@, c.destination@);
    let l7 = field_line("not_before="@, civil_time(c.permission_not_before@).rfc3339_text());
    let l8 = field_line("not_after="@, civil_time(c.permission_not_after@).rfc3339_text());
    lemma_regroup(l1 + l2 + l3 + l4 + l5 + l6, l7, l8);
    lemma_regroup(l1 + l2 + l3 + l4 + l5, l6, l7 + l8);
    lemma_regroup(l1 + l2 + l3 + l4, l5, l6 + (l7 + l8));
    lemma_regroup(l1 + l2 + l3, l4, l5 + (l6 + (l7 + l8)));
    lemma_regroup(l1 + l2, l3, l4 + (l5 + (l6 + (l7 + l8))));
    lemma_regroup(l1, l2, l3 + (l4 + (l5 + (l6 + (l7 + l8)))));
    assert(l8 + Seq::<char>::empty() =~= l8);
}

proof fn lemma_regroup(a: Seq<char>, b: Seq<char>, c: Seq<char>)
    ensures
        a + b + c == a + (b + c),
{
    assert(a + b + c =~= a + (b + c));
}

proof fn lemma_keys_agree(a: CandidatePermission, b: CandidatePermission)
    requires
        from_key(a) == from_key(b),
    ensures
        a.subject_public_key_spki_der is Some <==> b.subject_public_key_spki_der is Some,
        a.subject_public_key_spki_der matches Some(k) ==> k@
            == b.subject_public_key_spki_der->0@,
        from_destination(a) == from_destination(b),
{
    lemma_labels();
    let label = "subject_public_key_spki_der="@;
    match (a.subject_public_key_spki_der, b.subject_public_key_spki_der) {
        (Some(k), Some(l)) => {
            lemma_hex_one_line(k@);
            lemma_hex_one_line(l@);
            lemma_first_field(label, hex(k@), from_destination(a), hex(l@), from_destination(b));
            lemma_hex_injective(k@, l@);
        },
        (None, None) => {
            assert(from_key(a) == from_destination(a));
            assert(from_key(b) == from_destination(b));
        },
        (Some(k), None) => {
            assert(from_key(a)[0] == 's');
            assert(from_key(b)[0] == 'd');
        },
        (None, Some(l)) => {
            assert(from_key(a)[0] == 'd');
            assert(from_key(b)[0] == 's');
        },
    }
}

// ---------------------------------------------------------------------
// The law
// ---------------------------------------------------------------------

/// Whether the free texts of a permission are single lines.
pub open spec fn fields_are_lines(c: CandidatePermission) -> bool {
    &&& !c.permission_id@.contains('\n')
    &&& !c.signing_key_id@.contains('\n')
    &&& !c.subject_identity@.contains('\n')
    &&& !c.destination@.contains('\n')
}

/// Whether two permissions grant the same thing: every field that a signature
/// is to cover agrees.
pub open spec fn same_grant(a: CandidatePermission, b: CandidatePermission) -> bool {
    &&& a.permission_id@ == b.permission_id@
    &&& a.signing_key_id@ == b.signing_key_id@
    &&& a.subject_identity@ == b.subject_identity@
    &&& a.subject_public_key_spki_der is Some <==> b.subject_public_key_spki_der is Some
    &&& a.subject_public_key_spki_der is Some ==> a.subject_public_key_spki_der->0@
        == b.subject_public_key_spki_der->0@
    &&& a.destination@ == b.destination@
    &&& a.permission_not_before@ == b.permission_not_before@
    &&& a.permission_not_after@ == b.permission_not_after@
}

/// Permissions whose signed bytes are the same grant the same thing, so that
/// no field can change under a good signature.
pub proof fn law_signed_bytes_fix_every_field(a: CandidatePermission, b: CandidatePermission)
    requires
        fields_are_lines(a),
        fields_are_lines(b),
        encode_utf8(canonical_text(a)) == encode_utf8(canonical_text(b)),
    ensures
        same_grant(a, b),
{
    encode_utf8_decode_utf8(canonical_text(a));
    encode_utf8_decode_utf8(canonical_text(b));
    assert(canonical_text(a) == canonical_text(b));
    lemma_labels();
    lemma_canonical_shape(a);
    lemma_canonical_shape(b);
    let sa = field_line("subject_identity="@, a.subject_identity@) + from_key(a);
    let sb = field_line("subject_identity="@, b.subject_identity@) + from_key(b);
    let ka = field_line("signing_key_id="@, a.signing_key_id@) + sa;
    let kb = field_line("signing_key_id="@, b.signing_key_id@) + sb;
    let pa = field_line("permission_id="@, a.permission_id@) + ka;
    let pb = field_line("permission_id="@, b.permission_id@) + kb;
    lemma_first_field("agent-gateway-permission-v1"@, Seq::empty(), pa, Seq::empty(), pb);
    lemma_first_field("permission_id="@, a.permission_id@, ka, b.permission_id@, kb);
    lemma_first_field("signing_key_id="@, a.signing_key_id@, sa, b.signing_key_id@, sb);
    lemma_first_field(
        "subject_identity="@,
        a.subject_identity@,
        from_key(a),
        b.subject_identity@,
        from_key(b),
    );
    lemma_keys_agree(a, b);
    lemma_first_field(
        "destination="@,
        a.destination@,
        from_not_before(a),
        b.destination@,
        from_not_before(b),
    );
    let from_a = civil_time(a.permission_not_before@).rfc3339_text();
    let from_b = civil_time(b.permission_not_before@).rfc3339_text();
    let to_a = civil_time(a.permission_not_after@).rfc3339_text();
    let to_b = civil_time(b.permission_not_after@).rfc3339_text();
    law_rfc3339_is_one_line(a.permission_not_before@);
    law_rfc3339_is_one_line(b.permission_not_before@);
    law_rfc3339_is_one_line(a.permission_not_after@);
    law_rfc3339_is_one_line(b.permission_not_after@);
    lemma_first_field(
        "not_before="@,
        from_a,
        field_line("not_after="@, to_a) + Seq::empty(),
        from_b,
        field_line("not_after="@, to_b) + Seq::empty(),
    );
    lemma_first_field("not_after="@, to_a, Seq::empty(), to_b, Seq::empty());
    law_rfc3339_identifies_instant(a.permission_not_before@, b.permission_not_before@);
    law_rfc3339_identifies_instant(a.permission_not_after@, b.permission_not_after@);
}

// ---------------------------------------------------------------------
// What is signed
// ---------------------------------------------------------------------

/// The signed text of a permission that is bound to a key, line by line.
pub proof fn law_signed_text_names_every_field(c: CandidatePermission)
    requires
        c.subject_public_key_spki_der is Some,
    ensures
        canonical_text(c) == "agent-gateway-permission-v1\npermission_id="@ + c.permission_id@
            + "\nsigning_key_id="@ + c.signing_key_id@ + "\nsubject_identity="@
            + c.subject_identity@ + "\nsubject_public_key_spki_der="@ + hex(
            c.subject_public_key_spki_der->0@,
        ) + "\ndestination="@ + c.destination@ + "\nnot_before="@ + civil_time(
            c.permission_not_before@,
        ).rfc3339_text() + "\nnot_after="@ + civil_time(c.permission_not_after@).rfc3339_text()
            + "\n"@,
{
    lemma_joined_labels();
    let n = seq!['\n'];
    let y1 = "agent-gateway-permission-v1"@ + Seq::<char>::empty();
    let y2 = y1 + (n + "permission_id="@) + c.permission_id@;
    let y3 = y2 + (n + "signing_key_id="@) + c.signing_key_id@;
    let y4 = y3 + (n + "subject_identity="@) + c.subject_identity@;
    let key = hex(c.subject_public_key_spki_der->0@);
    let y5 = y4 + (n + "subject_public_key_spki_der="@) + key;
    let y6 = y5 + (n + "destination="@) + c.destination@;
    let from = civil_time(c.permission_not_before@).rfc3339_text();
    let to = civil_time(c.permission_not_after@).rfc3339_text();
    let y7 = y6 + (n + "not_before="@) + from;
    lemma_next_line(y1, "permission_id="@, c.permission_id@);
    lemma_next_line(y2, "signing_key_id="@, c.signing_key_id@);
    lemma_next_line(y3, "subject_identity="@, c.subject_identity@);
    lemma_next_line(y4, "subject_public_key_spki_der="@, key);
    lemma_next_line(y5, "destination="@, c.destination@);
    lemma_next_line(y6, "not_before="@, from);
    lemma_next_line(y7, "not_after="@, to);
    lemma_regroup(y1, n, "permission_id="@);
}

/// The same for a permission that is bound to no key: the line of the key is
/// missing.
pub proof fn law_signed_text_without_key(c: CandidatePermission)
    requires
        c.subject_public_key_spki_der is None,
    ensures
        canonical_text(c) == "agent-gateway-permission-v1\npermission_id="@ + c.permission_id@
            + "\nsigning_key_id="@ + c.signing_key_id@ + "\nsubject_identity="@
            + c.subject_identity@ + "\ndestination="@ + c.destination@ + "\nnot_before="@
            + civil_time(c.permission_not_before@).rfc3339_text() + "\nnot_after="@ + civil_time(
            c.permission_not_after@,
        ).rfc3339_text() + "\n"@,
{
    lemma_joined_labels();
    let n = seq!['\n'];
    let y1 = "agent-gateway-permission-v1"@ + Seq::<char>::empty();
    let y2 = y1 + (n + "permission_id="@) + c.permission_id@;
    let y3 = y2 + (n + "signing_key_id="@) + c.signing_key_id@;
    let y4 = y3 + (n + "subject_identity="@) + c.subject_identity@;
    let y6 = y4 + (n + "destination="@) + c.destination@;
    let from = civil_time(c.permission_not_before@).rfc3339_text();
    let to = civil_time(c.permission_not_after@).rfc3339_text();
    let y7 = y6 + (n + "not_before="@) + from;
    lemma_next_line(y1, "permission_id="@, c.permission_id@);
    lemma_next_line(y2, "signing_key_id="@, c.signing_key_id@);
    lemma_next_line(y3, "subject_identity="@, c.subject_identity@);
    assert(y4 + n + Seq::<char>::empty() =~= y4 + n);
    lemma_next_line(y4, "destination="@, c.destination@);
    lemma_next_line(y6, "not_before="@, from);
    lemma_next_line(y7, "not_after="@, to);
    lemma_regroup(y1, n, "permission_id="@);
}

/// A line after a line break, with the break in front of its label.
proof fn lemma_next_line(before: Seq<char>, label: Seq<char>, value: Seq<char>)
    ensures
        before + seq!['\n'] + field_line(label, value) == before + (seq!['\n'] + label) + value
            + seq!['\n'],
{
    assert(before + seq!['\n'] + field_line(label, value) =~= before + (seq!['\n'] + label) + value
        + seq!['\n']);
}

/// The line breaks between labels, apart from the labels.
proof fn lemma_joined_labels()
    ensures
        "agent-gateway-permission-v1\npermission_id="@ == "agent-gateway-permission-v1"@
            + Seq::<char>::empty() + seq!['\n'] + "permission_id="@,
        "\nsigning_key_id="@ == seq!['\n'] + "signing_key_id="@,
        "\nsubject_identity="@ == seq!['\n'] + "subject_identity="@,
        "\nsubject_public_key_spki_der="@ == seq!['\n'] + "subject_public_key_spki_der="@,
        "\ndestination="@ == seq!['\n'] + "destination="@,
        "\nnot_before="@ == seq!['\n'] + "not_before="@,
        "\nnot_after="@ == seq!['\n'] + "not_after="@,
        "\n"@ == seq!['\n'],
{
    reveal_strlit("agent-gateway-permission-v1\npermission_id=");
    reveal_strlit("agent-gateway-permission-v1");
    reveal_strlit("permission_id=");
    reveal_strlit("\nsigning_key_id=");
    reveal_strlit("signing_key_id=");
    reveal_strlit("\nsubject_identity=");
    reveal_strlit("subject_identity=");
    reveal_strlit("\nsubject_public_key_spki_der=");
    reveal_strlit("subject_public_key_spki_der=");
    reveal_strlit("\ndestination=");
    reveal_strlit("destination=");
    reveal_strlit("\nnot_before=");
    reveal_strlit("not_before=");
    reveal_strlit("\nnot_after=");
    reveal_strlit("not_after=");
    reveal_strlit("\n");
    assert("agent-gateway-permission-v1\npermission_id="@ =~= "agent-gateway-permission-v1"@
        + Seq::<char>::empty() + seq!['\n'] + "permission_id="@);
    assert("\nsigning_key_id="@ =~= seq!['\n'] + "signing_key_id="@);
    assert("\nsubject_identity="@ =~= seq!['\n'] + "subject_identity="@);
    assert("\nsubject_public_key_spki_der="@ =~= seq!['\n'] + "subject_public_key_spki_der="@);
    assert("\ndestination="@ =~= seq!['\n'] + "destination="@);
    assert("\nnot_before="@ =~= seq!['\n'] + "not_before="@);
    assert("\nnot_after="@ =~= seq!['\n'] + "not_after="@);
    assert("\n"@ =~= seq!['\n']);
}

/// The bytes that are signed are the signed text in UTF-8.
pub proof fn law_signed_bytes_are_text(c: CandidatePermission, r: Vec<u8>)
    requires
        call_ensures(canonical_permission_bytes, (&c,), r),
    ensures
        r@ == encode_utf8(canonical_text(c)),
{
}

// ---------------------------------------------------------------------
// Which signatures are good
// ---------------------------------------------------------------------

/// A signature is good exactly where the signing key has the one algorithm,
/// its encoding reads as a P-256 key, the signature reads as one, and that
/// key verifies it over the signed text. Nothing else about the permission
/// matters.
pub proof fn law_signature_is_good_iff(c: CandidatePermission)
    ensures
        signature_verdict(c) is Ok <==> c.signer_algorithm@ == "ecdsa_p256_sha256"@ && (
        p256_public_key(c.signer_public_key_spki_der@) matches Ok(key) && (p256_signature(
            c.signature@,
        ) matches Ok(signature) && p256_verification(
            key,
            encode_utf8(canonical_text(c)),
            signature,
        ) is Ok)),
{
    reveal(signature_verdict);
}

/// Verifying a permission succeeds exactly where its signature is good.
pub proof fn law_good_signatures_verify(c: CandidatePermission, r: Result<(), String>)
    requires
        call_ensures(verify_signature, (&c,), r),
    ensures
        r is Ok <==> c.signer_algorithm@ == "ecdsa_p256_sha256"@ && (p256_public_key(
            c.signer_public_key_spki_der@,
        ) matches Ok(key) && (p256_signature(c.signature@) matches Ok(signature)
            && p256_verification(key, encode_utf8(canonical_text(c)), signature) is Ok)),
{
    law_signature_is_good_iff(c);
}

/// Which other fields a permission has does not matter to its verdict, once
/// the signed text, the signature and the signing key are the same.
pub proof fn law_verdict_rests_on_signature(a: CandidatePermission, b: CandidatePermission)
    requires
        canonical_text(a) == canonical_text(b),
        a.signature@ == b.signature@,
        a.signer_algorithm@ == b.signer_algorithm@,
        a.signer_public_key_spki_der@ == b.signer_public_key_spki_der@,
    ensures
        signature_verdict(a) == signature_verdict(b),
{
    reveal(signature_verdict);
}

/// Where a signature is not good, the reason is the algorithm, or else what is
/// wrong with the key, or else with the signature, or else with the two
/// together over the signed text.
pub proof fn law_bad_signature_is_explained(c: CandidatePermission, r: Result<(), String>)
    requires
        call_ensures(verify_signature, (&c,), r),
        r is Err,
    ensures
        ({
            let key = p256_public_key(c.signer_public_key_spki_der@);
            let signature = p256_signature(c.signature@);
            let reason = (r->Err_0)@;
            if c.signer_algorithm@ != "ecdsa_p256_sha256"@ {
                reason == "unsupported signer algorithm "@ + debug_text(c.signer_algorithm@)
            } else if key is Err {
                reason == key->Err_0
            } else if signature is Err {
                reason == signature->Err_0
            } else {
                p256_verification(key->Ok_0, encode_utf8(canonical_text(c)), signature->Ok_0)
                    == Err::<(), Seq<char>>(reason)
            }
        }),
{
    reveal(signature_verdict);
}

/// A signing key may have one algorithm only.
pub proof fn law_only_one_algorithm(algorithm: &str, r: Result<(), String>)
    requires
        call_ensures(check_algorithm, (algorithm,), r),
    ensures
        r is Ok <==> algorithm@ == "ecdsa_p256_sha256"@,
        r is Err ==> (r->Err_0)@ == "unsupported signer algorithm "@ + debug_text(algorithm@),
{
}

} // verus!
