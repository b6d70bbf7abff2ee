//! The grammar of addresses: which texts are addresses, from the parts that
//! they are put together of.

use vstd::prelude::*;

use crate::address::{
    double_colon, group_count, groups, is_group, is_ipv4, is_ipv6, is_number, is_octet,
    is_scoped_ipv6, is_socket_addr, socket_addr_text, split_on,
};
use crate::number_laws::{all_digits, is_digit, law_digits, lemma_scan, said};
use crate::text::{first_index, lemma_first_index, lemma_first_index_unique};

verus! {

// ---------------------------------------------------------------------
// Pieces
// ---------------------------------------------------------------------

/// Pieces put together, with a character between each two.
pub open spec fn put_together(pieces: Seq<Seq<char>>, c: char) -> Seq<char>
    decreases pieces.len(),
{
    if pieces.len() == 0 {
        Seq::empty()
    } else if pieces.len() == 1 {
        pieces[0]
    } else {
        pieces[0] + seq![c] + put_together(pieces.drop_first(), c)
    }
}

/// What a text is split into has nothing of the character left, and put
/// together again it is the text.
pub proof fn law_split_is_put_together(s: Seq<char>, c: char)
    ensures
        split_on(s, c).len() > 0,
        forall|i: int| 0 <= i < split_on(s, c).len() ==> !(#[trigger] split_on(s, c)[i]).contains(c),
        put_together(split_on(s, c), c) == s,
    decreases s.len(),
{
    lemma_first_index(s, c);
    let k = first_index(s, c);
    let pieces = split_on(s, c);
    if k < s.len() {
        let rest = s.skip(k + 1);
        law_split_is_put_together(rest, c);
        assert(pieces.drop_first() =~= split_on(rest, c));
        assert forall|i: int| 0 <= i < pieces.len() implies !(#[trigger] pieces[i]).contains(c) by {
            if i > 0 {
                assert(pieces[i] == split_on(rest, c)[i - 1]);
            } else {
                assert(pieces[0] == s.take(k));
            }
        }
        assert(s =~= s.take(k) + seq![c] + rest);
    }
}

/// Pieces that are put together are split again.
pub proof fn law_put_together_is_split(pieces: Seq<Seq<char>>, c: char)
    requires
        pieces.len() > 0,
        forall|i: int| 0 <= i < pieces.len() ==> !(#[trigger] pieces[i]).contains(c),
    ensures
        split_on(put_together(pieces, c), c) == pieces,
    decreases pieces.len(),
{
    let s = put_together(pieces, c);
    assert(!pieces[0].contains(c));
    if pieces.len() == 1 {
        lemma_first_index(s, c);
        assert(split_on(s, c) =~= pieces);
    } else {
        let tail = pieces.drop_first();
        assert forall|i: int| 0 <= i < tail.len() implies !(#[trigger] tail[i]).contains(c) by {
            assert(tail[i] == pieces[i + 1]);
        }
        law_put_together_is_split(tail, c);
        let k = pieces[0].len() as int;
        assert(s[k] == c);
        assert forall|i: int| 0 <= i < k implies s[i] != c by {
            assert(s[i] == pieces[0][i]);
        }
        lemma_first_index_unique(s, c, k);
        assert(s.take(k) =~= pieces[0]);
        assert(s.skip(k + 1) =~= put_together(tail, c));
        assert(split_on(s, c) =~= pieces);
    }
}

// ---------------------------------------------------------------------
// Groups and quads
// ---------------------------------------------------------------------

/// One to four hexadecimal digits.
pub open spec fn is_hex_group(s: Seq<char>) -> bool {
    1 <= s.len() <= 4 && all_digits(s, 16)
}

/// Decimal digits that say a number up to 255, without a zero in front.
pub open spec fn is_byte(s: Seq<char>) -> bool {
    1 <= s.len() <= 3 && all_digits(s, 10) && said(s, 10) <= 255 && (s.len() > 1 ==> s[0] != '0')
}

/// Four bytes with dots between them.
pub open spec fn is_quad(s: Seq<char>) -> bool {
    exists|a: Seq<char>, b: Seq<char>, c: Seq<char>, d: Seq<char>|
        is_byte(a) && is_byte(b) && is_byte(c) && is_byte(d) && s == #[trigger] dotted(a, b, c, d)
}

/// Four texts with dots between them.
pub open spec fn dotted(a: Seq<char>, b: Seq<char>, c: Seq<char>, d: Seq<char>) -> Seq<char> {
    a + seq!['.'] + b + seq!['.'] + c + seq!['.'] + d
}

proof fn lemma_group(s: Seq<char>)
    ensures
        is_group(s) <==> is_hex_group(s),
        is_hex_group(s) ==> !s.contains(':') && !s.contains('.'),
{
    assert forall|i: int| 0 <= i < s.len() implies (crate::number::digit_value(
        #[trigger] s[i],
        16,
    ) is Some <==> is_digit(s[i], 16)) by {
        law_digits(s[i], 16);
    }
    if is_hex_group(s) {
        assert forall|i: int| 0 <= i < s.len() implies s[i] != ':' && s[i] != '.' by {
            assert(is_digit(s[i], 16));
        }
    }
    if is_group(s) {
        assert forall|i: int| 0 <= i < s.len() implies is_digit(#[trigger] s[i], 16) by {}
    }
}

proof fn lemma_byte(s: Seq<char>)
    ensures
        is_octet(s) <==> is_byte(s),
        is_byte(s) ==> !s.contains(':') && !s.contains('.') && s.len() > 0,
{
    lemma_scan(s, 10, 255, 0);
    if is_byte(s) {
        assert forall|i: int| 0 <= i < s.len() implies s[i] != ':' && s[i] != '.' by {
            assert(is_digit(s[i], 10));
        }
    }
}

/// Four pieces put together with dots.
proof fn lemma_four(p: Seq<Seq<char>>)
    requires
        p.len() == 4,
    ensures
        put_together(p, '.') == dotted(p[0], p[1], p[2], p[3]),
{
    let p1 = p.drop_first();
    let p2 = p1.drop_first();
    let p3 = p2.drop_first();
    assert(p1[0] == p[1] && p2[0] == p[2] && p3[0] == p[3]);
    assert(p1.len() == 3 && p2.len() == 2 && p3.len() == 1);
    let d = seq!['.'];
    assert(put_together(p3, '.') == p[3]);
    assert(put_together(p2, '.') == p[2] + d + p[3]);
    assert(put_together(p1, '.') == p[1] + d + (p[2] + d + p[3]));
    assert(put_together(p, '.') == p[0] + d + (p[1] + d + (p[2] + d + p[3])));
    assert(p[0] + d + (p[1] + d + (p[2] + d + p[3])) =~= dotted(p[0], p[1], p[2], p[3]));
}

proof fn lemma_dotted_chars(a: Seq<char>, b: Seq<char>, c: Seq<char>, d: Seq<char>)
    requires
        !a.contains(':'),
        !b.contains(':'),
        !c.contains(':'),
        !d.contains(':'),
    ensures
        !dotted(a, b, c, d).contains(':'),
        dotted(a, b, c, d).contains('.'),
{
    let s = dotted(a, b, c, d);
    assert(s[a.len() as int] == '.');
    if s.contains(':') {
        let i = choose|i: int| 0 <= i < s.len() && s[i] == ':';
        let (la, lb, lc) = (a.len() as int, b.len() as int, c.len() as int);
        if i < la {
            assert(a[i] == ':');
        } else if la < i < la + 1 + lb {
            assert(b[i - la - 1] == ':');
        } else if la + 1 + lb < i < la + lb + lc + 2 {
            assert(c[i - la - lb - 2] == ':');
        } else if i > la + lb + lc + 2 {
            assert(d[i - la - lb - lc - 3] == ':');
        }
    }
}

/// An IPv4 address is four bytes with dots between them.
pub proof fn law_ipv4(s: Seq<char>)
    ensures
        is_ipv4(s) <==> is_quad(s),
        is_quad(s) ==> !s.contains(':') && s.contains('.'),
{
    if is_ipv4(s) {
        let p = split_on(s, '.');
        law_split_is_put_together(s, '.');
        lemma_four(p);
        lemma_byte(p[0]);
        lemma_byte(p[1]);
        lemma_byte(p[2]);
        lemma_byte(p[3]);
        assert(is_octet(p[0]) && is_octet(p[1]) && is_octet(p[2]) && is_octet(p[3]));
        assert(s == dotted(p[0], p[1], p[2], p[3]));
    }
    if is_quad(s) {
        lemma_quad_is_ipv4(s);
    }
}

proof fn lemma_quad_is_ipv4(s: Seq<char>)
    requires
        is_quad(s),
    ensures
        is_ipv4(s),
        !s.contains(':'),
        s.contains('.'),
{
    let (a, b, c, d) = choose|a: Seq<char>, b: Seq<char>, c: Seq<char>, d: Seq<char>|
        is_byte(a) && is_byte(b) && is_byte(c) && is_byte(d) && s == #[trigger] dotted(a, b, c, d);
    lemma_byte(a);
    lemma_byte(b);
    lemma_byte(c);
    lemma_byte(d);
    let q = seq![a, b, c, d];
    lemma_four(q);
    assert forall|i: int| 0 <= i < q.len() implies !(#[trigger] q[i]).contains('.') by {}
    law_put_together_is_split(q, '.');
    assert(split_on(s, '.') == q);
    assert forall|i: int| 0 <= i < 4 implies is_octet(#[trigger] q[i]) by {}
    lemma_dotted_chars(a, b, c, d);
}

// ---------------------------------------------------------------------
// IPv6
// ---------------------------------------------------------------------

/// Whether pieces are groups of an IPv6 address, the last of which may be a
/// quad where that is allowed.
pub open spec fn are_groups(pieces: Seq<Seq<char>>, quad: bool) -> bool {
    &&& pieces.len() > 0
    &&& forall|i: int| 0 <= i < pieces.len() - 1 ==> is_hex_group(#[trigger] pieces[i])
    &&& is_hex_group(pieces.last()) || (quad && is_quad(pieces.last()))
}

/// How many groups pieces stand for: a quad stands for two.
pub open spec fn weight(pieces: Seq<Seq<char>>) -> int {
    if is_hex_group(pieces.last()) {
        pieces.len() as int
    } else {
        pieces.len() + 1int
    }
}

/// Whether a text is that many groups with colons between them. No groups are
/// the empty text.
pub open spec fn is_side(s: Seq<char>, n: int, quad: bool) -> bool {
    ||| n == 0 && s.len() == 0
    ||| exists|pieces: Seq<Seq<char>>|
        are_groups(pieces, quad) && weight(pieces) == n && s == #[trigger] put_together(pieces, ':')
}

proof fn lemma_pieces(pieces: Seq<Seq<char>>, quad: bool)
    requires
        are_groups(pieces, quad),
    ensures
        forall|i: int|
            0 <= i < pieces.len() ==> !(#[trigger] pieces[i]).contains(':') && pieces[i].len() > 0,
{
    assert forall|i: int| 0 <= i < pieces.len() implies !(#[trigger] pieces[i]).contains(':')
        && pieces[i].len() > 0 by {
        lemma_group(pieces[i]);
        law_ipv4(pieces[i]);
        if i == pieces.len() - 1 && !is_hex_group(pieces[i]) {
            assert(is_quad(pieces[i]));
            assert(pieces[i].contains('.'));
        }
    }
}

proof fn lemma_side(s: Seq<char>, n: int, quad: bool)
    requires
        n >= 0,
    ensures
        groups(s, quad) == Some(n as nat) <==> is_side(s, n, quad),
{
    law_split_is_put_together(s, ':');
    let p = split_on(s, ':');
    if s.len() > 0 && groups(s, quad) is Some {
        assert forall|i: int| 0 <= i < p.len() - 1 implies is_hex_group(#[trigger] p[i]) by {
            lemma_group(p[i]);
        }
        lemma_group(p.last());
        law_ipv4(p.last());
        assert(are_groups(p, quad));
        assert(groups(s, quad) == Some(weight(p) as nat));
        assert(s == put_together(p, ':'));
    }
    if exists|pieces: Seq<Seq<char>>|
        are_groups(pieces, quad) && weight(pieces) == n && s == #[trigger] put_together(pieces, ':') {
        let q = choose|pieces: Seq<Seq<char>>|
            are_groups(pieces, quad) && weight(pieces) == n && s == #[trigger] put_together(
                pieces,
                ':',
            );
        lemma_pieces(q, quad);
        law_put_together_is_split(q, ':');
        assert(p == q);
        lemma_no_double_colon(q);
        assert(s.len() > 0);
        assert forall|i: int| 0 <= i < q.len() - 1 implies is_group(#[trigger] q[i]) by {
            lemma_group(q[i]);
        }
        lemma_group(q.last());
        law_ipv4(q.last());
        assert(group_count(q, quad) == Some(n as nat));
    }
}

/// Groups with colons between them have no two colons side by side, and none
/// at their ends.
proof fn lemma_no_double_colon(pieces: Seq<Seq<char>>)
    requires
        pieces.len() > 0,
        forall|i: int|
            0 <= i < pieces.len() ==> !(#[trigger] pieces[i]).contains(':') && pieces[i].len() > 0,
    ensures
        ({
            let s = put_together(pieces, ':');
            &&& s.len() > 0
            &&& s[0] != ':'
            &&& s.last() != ':'
            &&& forall|i: int| 0 <= i < s.len() - 1 ==> !(#[trigger] s[i] == ':' && s[i + 1] == ':')
        }),
    decreases pieces.len(),
{
    let s = put_together(pieces, ':');
    let first = pieces[0];
    assert(!first.contains(':') && first.len() > 0);
    assert(first[0] != ':' && first[first.len() - 1] != ':');
    if pieces.len() > 1 {
        let tail = pieces.drop_first();
        assert forall|i: int| 0 <= i < tail.len() implies !(#[trigger] tail[i]).contains(':')
            && tail[i].len() > 0 by {
            assert(tail[i] == pieces[i + 1]);
        }
        lemma_no_double_colon(tail);
        let t = put_together(tail, ':');
        let k = first.len() as int;
        assert(s[0] == first[0]);
        assert(s.last() == t.last());
        assert forall|i: int| 0 <= i < s.len() - 1 implies !(#[trigger] s[i] == ':' && s[i + 1]
            == ':') by {
            if i < k {
                assert(s[i] == first[i]);
            } else if i == k {
                assert(s[i + 1] == t[0]);
            } else {
                assert(s[i] == t[i - k - 1]);
                assert(s[i + 1] == t[i - k]);
            }
        }
    } else {
        assert forall|i: int| 0 <= i < s.len() - 1 implies !(#[trigger] s[i] == ':' && s[i + 1]
            == ':') by {
            assert(s[i] == first[i]);
        }
    }
}

/// The first two colons side by side are where no two are before them.
proof fn lemma_double_colon_at(s: Seq<char>, k: int)
    requires
        0 <= k <= s.len(),
        k < s.len() ==> k + 2 <= s.len() && s[k] == ':' && s[k + 1] == ':',
        forall|i: int| 0 <= i < k && i + 1 < s.len() ==> !(#[trigger] s[i] == ':' && s[i + 1] == ':'),
    ensures
        double_colon(s) == k,
    decreases s.len(),
{
    if s.len() >= 2 {
        if k > 0 {
            assert(!(s[0] == ':' && s[1] == ':'));
            let d = s.drop_first();
            assert forall|i: int| 0 <= i < k - 1 && i + 1 < d.len() implies !(#[trigger] d[i] == ':'
                && d[i + 1] == ':') by {
                assert(d[i] == s[i + 1]);
                assert(d[i + 1] == s[i + 2]);
            }
            lemma_double_colon_at(d, k - 1);
        }
    }
}

proof fn lemma_double_colon_found(s: Seq<char>)
    ensures
        0 <= double_colon(s) <= s.len(),
        double_colon(s) < s.len() ==> double_colon(s) + 2 <= s.len() && s[double_colon(s)] == ':'
            && s[double_colon(s) + 1] == ':',
    decreases s.len(),
{
    if s.len() >= 2 && !(s[0] == ':' && s[1] == ':') {
        lemma_double_colon_found(s.drop_first());
    }
}

/// Two sides with two colons between them.
pub open spec fn abbreviated(head: Seq<char>, tail: Seq<char>) -> Seq<char> {
    head + seq![':', ':'] + tail
}

/// Whether a text is an IPv6 address: eight groups with colons between them,
/// or at most seven with two colons in place of the missing ones. A quad may
/// stand for the last two groups.
pub open spec fn is_address(s: Seq<char>) -> bool {
    ||| is_side(s, 8, true)
    ||| exists|head: Seq<char>, tail: Seq<char>|
        s == #[trigger] abbreviated(head, tail) && exists|m: int, n: int|
            0 <= m && 0 <= n && m + n <= 7 && #[trigger] is_side(head, m, false)
                && #[trigger] is_side(tail, n, true)
}

/// The texts that are taken for IPv6 addresses are those of the grammar.
pub proof fn law_ipv6(s: Seq<char>)
    ensures
        is_ipv6(s) <==> is_address(s),
{
    lemma_double_colon_found(s);
    let k = double_colon(s);
    lemma_side(s, 8, true);
    if is_side(s, 8, true) {
        lemma_side_has_no_gap(s, 8, true);
        lemma_double_colon_at(s, s.len() as int);
        assert(is_ipv6(s));
    } else if is_address(s) {
        let (head, tail) = choose|head: Seq<char>, tail: Seq<char>|
            s == #[trigger] abbreviated(head, tail) && exists|m: int, n: int|
                0 <= m && 0 <= n && m + n <= 7 && #[trigger] is_side(head, m, false)
                    && #[trigger] is_side(tail, n, true);
        let (m, n) = choose|m: int, n: int|
            0 <= m && 0 <= n && m + n <= 7 && #[trigger] is_side(head, m, false)
                && #[trigger] is_side(tail, n, true);
        lemma_side(head, m, false);
        lemma_side(tail, n, true);
        lemma_side_has_no_gap(head, m, false);
        let h = head.len() as int;
        assert(s[h] == ':' && s[h + 1] == ':');
        assert forall|i: int| 0 <= i < h && i + 1 < s.len() implies !(#[trigger] s[i] == ':' && s[i
            + 1] == ':') by {
            assert(s[i] == head[i]);
            if i + 1 < h {
                assert(s[i + 1] == head[i + 1]);
            }
        }
        lemma_double_colon_at(s, h);
        assert(s.take(h) =~= head);
        assert(s.skip(h + 2) =~= tail);
        assert(is_ipv6(s));
    }
    if is_ipv6(s) && k < s.len() {
        let head = s.take(k);
        let tail = s.skip(k + 2);
        let m = groups(head, false)->0 as int;
        let n = groups(tail, true)->0 as int;
        lemma_side(head, m, false);
        lemma_side(tail, n, true);
        assert(s =~= abbreviated(head, tail));
        assert(is_side(head, m, false) && is_side(tail, n, true));
        assert(is_address(s));
    }
}

proof fn lemma_side_has_no_gap(s: Seq<char>, n: int, quad: bool)
    requires
        is_side(s, n, quad),
    ensures
        s.len() > 0 ==> s.last() != ':',
        forall|i: int| 0 <= i < s.len() - 1 ==> !(#[trigger] s[i] == ':' && s[i + 1] == ':'),
{
    if s.len() > 0 {
        let pieces = choose|pieces: Seq<Seq<char>>|
            are_groups(pieces, quad) && weight(pieces) == n && s == #[trigger] put_together(
                pieces,
                ':',
            );
        lemma_pieces(pieces, quad);
        lemma_no_double_colon(pieces);
    }
}

// ---------------------------------------------------------------------
// Socket addresses
// ---------------------------------------------------------------------

/// Decimal digits, at least one, that say a number up to a bound.
pub open spec fn says_up_to(s: Seq<char>, max: int) -> bool {
    s.len() > 0 && all_digits(s, 10) && said(s, 10) <= max
}

/// An IPv6 address, a percent sign and a scope.
pub open spec fn scoped(address: Seq<char>, scope: Seq<char>) -> Seq<char> {
    address + seq!['%'] + scope
}

/// `address:port`.
pub open spec fn plain_socket(address: Seq<char>, port: Seq<char>) -> Seq<char> {
    address + seq![':'] + port
}

/// `[address]:port`.
pub open spec fn bracketed_socket(address: Seq<char>, port: Seq<char>) -> Seq<char> {
    seq!['['] + address + seq![']', ':'] + port
}

/// Whether a text is an IPv6 address, perhaps with a percent sign and a
/// number after it.
pub open spec fn is_scoped_address(s: Seq<char>) -> bool {
    ||| is_address(s)
    ||| exists|address: Seq<char>, scope: Seq<char>|
        s == #[trigger] scoped(address, scope) && is_address(address) && says_up_to(
            scope,
            u32::MAX as int,
        )
}

/// Whether a text is a socket address: an IPv4 address and a port, or an IPv6
/// address in brackets and a port.
pub open spec fn is_listen_address(s: Seq<char>) -> bool {
    ||| exists|address: Seq<char>, port: Seq<char>|
        s == #[trigger] plain_socket(address, port) && is_quad(address) && says_up_to(port, 65535)
    ||| exists|address: Seq<char>, port: Seq<char>|
        s == #[trigger] bracketed_socket(address, port) && is_scoped_address(address) && says_up_to(
            port,
            65535,
        )
}

proof fn lemma_says_up_to(s: Seq<char>, max: int)
    requires
        max >= 0,
    ensures
        is_number(s, max) <==> says_up_to(s, max),
{
    lemma_scan(s, 10, max, 0);
}

/// The characters of an address: no percent sign and no bracket.
proof fn lemma_address_chars(s: Seq<char>)
    requires
        is_ipv6(s),
    ensures
        !s.contains('%'),
        !s.contains(']'),
        !s.contains('['),
{
    crate::destination_laws::lemma_ipv6_chars(s);
    if s.contains('%') {
        let i = choose|i: int| 0 <= i < s.len() && s[i] == '%';
        assert(crate::destination_laws::is_address_char(s[i]));
    }
}

proof fn lemma_scoped(s: Seq<char>)
    ensures
        is_scoped_ipv6(s) <==> is_scoped_address(s),
        is_scoped_address(s) ==> !s.contains(']'),
{
    lemma_first_index(s, '%');
    let k = first_index(s, '%');
    law_ipv6(s);
    if is_ipv6(s) {
        lemma_address_chars(s);
    } else if is_scoped_address(s) {
        let (address, scope) = choose|address: Seq<char>, scope: Seq<char>|
            s == #[trigger] scoped(address, scope) && is_address(address) && says_up_to(
                scope,
                u32::MAX as int,
            );
        law_ipv6(address);
        lemma_address_chars(address);
        lemma_says_up_to(scope, u32::MAX as int);
        let n = address.len() as int;
        assert(s[n] == '%');
        assert forall|i: int| 0 <= i < n implies s[i] != '%' by {
            assert(s[i] == address[i]);
        }
        lemma_first_index_unique(s, '%', n);
        assert(s.take(n) =~= address);
        assert(s.skip(n + 1) =~= scope);
        if s.contains(']') {
            let i = choose|i: int| 0 <= i < s.len() && s[i] == ']';
            if i < n {
                assert(address[i] == ']');
            } else if i > n {
                assert(scope[i - n - 1] == ']');
                assert(is_digit(scope[i - n - 1], 10));
            }
        }
    }
    if is_scoped_ipv6(s) && k < s.len() {
        let address = s.take(k);
        let scope = s.skip(k + 1);
        law_ipv6(address);
        lemma_says_up_to(scope, u32::MAX as int);
        assert(s =~= scoped(address, scope));
        assert(is_scoped_address(s));
    }
}

/// The texts that are taken for socket addresses are those of the grammar.
pub proof fn law_socket_addr(s: Seq<char>)
    ensures
        is_socket_addr(s) <==> is_listen_address(s),
{
    if is_socket_addr(s) {
        lemma_socket_is_listen(s);
    }
    if is_listen_address(s) {
        lemma_listen_is_socket(s);
    }
}

proof fn lemma_socket_is_listen(s: Seq<char>)
    requires
        is_socket_addr(s),
    ensures
        is_listen_address(s),
{
    if s.len() > 0 && s[0] == '[' {
        lemma_first_index(s, ']');
        let k = first_index(s, ']');
        let address = s.subrange(1, k);
        let port = s.skip(k + 2);
        lemma_scoped(address);
        lemma_says_up_to(port, 65535);
        assert(s =~= bracketed_socket(address, port));
    } else {
        lemma_first_index(s, ':');
        let k = first_index(s, ':');
        let address = s.take(k);
        let port = s.skip(k + 1);
        law_ipv4(address);
        lemma_says_up_to(port, 65535);
        assert(s =~= plain_socket(address, port));
    }
}

proof fn lemma_listen_is_socket(s: Seq<char>)
    requires
        is_listen_address(s),
    ensures
        is_socket_addr(s),
{
    if exists|address: Seq<char>, port: Seq<char>|
        s == #[trigger] plain_socket(address, port) && is_quad(address) && says_up_to(port, 65535) {
        let (address, port) = choose|address: Seq<char>, port: Seq<char>|
            s == #[trigger] plain_socket(address, port) && is_quad(address) && says_up_to(
                port,
                65535,
            );
        law_ipv4(address);
        lemma_says_up_to(port, 65535);
        let n = address.len() as int;
        assert(s[n] == ':');
        assert forall|i: int| 0 <= i < n implies s[i] != ':' by {
            assert(s[i] == address[i]);
        }
        lemma_first_index_unique(s, ':', n);
        assert(s.take(n) =~= address);
        assert(s.skip(n + 1) =~= port);
        lemma_quad_start(address);
        assert(s[0] == address[0]);
    } else {
        let (address, port) = choose|address: Seq<char>, port: Seq<char>|
            s == #[trigger] bracketed_socket(address, port) && is_scoped_address(address)
                && says_up_to(port, 65535);
        lemma_scoped(address);
        lemma_says_up_to(port, 65535);
        let n = address.len() as int + 1;
        assert(s[n] == ']');
        assert forall|i: int| 0 <= i < n implies s[i] != ']' by {
            if i > 0 {
                assert(s[i] == address[i - 1]);
            }
        }
        lemma_first_index_unique(s, ']', n);
        assert(s.subrange(1, n) =~= address);
        assert(s.skip(n + 2) =~= port);
    }
}

proof fn lemma_quad_start(s: Seq<char>)
    requires
        is_quad(s),
    ensures
        s.len() > 0,
        s[0] != '[',
{
    let (a, b, c, d) = choose|a: Seq<char>, b: Seq<char>, c: Seq<char>, d: Seq<char>|
        is_byte(a) && is_byte(b) && is_byte(c) && is_byte(d) && s == #[trigger] dotted(a, b, c, d);
    assert(s[0] == a[0]);
    assert(is_digit(a[0], 10));
}

/// Recognizing a socket address succeeds exactly on the texts of the grammar.
pub proof fn law_socket_addr_is_recognized(s: &[char], r: bool)
    requires
        call_ensures(socket_addr_text, (s,), r),
    ensures
        r <==> is_listen_address(s@),
{
    law_socket_addr(s@);
}

} // verus!
