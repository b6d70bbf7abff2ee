//! Endpoints: a host and a port in one text, with IPv6 hosts in brackets.

use vstd::prelude::*;
use vstd::slice::slice_subrange;

use crate::number::{
    decimal, decimal_text, digit_char, digit_value, parse_u16, scan_digits, unsigned_value, IntFault,
};
use crate::text::{
    chars_of, debug_string, debug_text, find, first_index, last_index, lemma_first_index_unique,
    lemma_last_index_unique, rfind, slice_string,
};

verus! {

/// The text of an endpoint: `host:port`, or `[host]:port` where the host has
/// colons of its own.
pub open spec fn endpoint(host: Seq<char>, port: nat) -> Seq<char> {
    if host.contains(':') {
        seq!['['] + host + seq![']', ':'] + decimal(port)
    } else {
        host + seq![':'] + decimal(port)
    }
}

/// Writes a host and a port as an endpoint.
pub fn format_endpoint(host: &str, port: u16) -> (r: String)
    ensures
        r@ == endpoint(host@, port as nat),
{
    let chars = chars_of(host);
    let digits = decimal_text(port as u64);
    let mut s = String::new();
    if find(chars.as_slice(), ':') < chars.len() {
        s.push('[');
        s.append(host);
        s.push(']');
        s.push(':');
        s.append(digits.as_str());
        assert(s@ == endpoint(host@, port as nat));
    } else {
        s.append(host);
        s.push(':');
        s.append(digits.as_str());
        assert(s@ == endpoint(host@, port as nat));
    }
    s
}

/// Why a text is not the address of a gateway.
#[derive(Clone, Copy, Debug, PartialEq, Eq, Structural)]
pub enum GatewayAddrFault {
    /// An opening bracket is never closed.
    MissingCloseBracket,
    /// There is nothing in front of the port.
    EmptyHost,
    /// A bracketed host is not followed by a colon.
    MissingPort,
    /// What stands for the port is not a port.
    InvalidPort,
    /// There is no colon.
    NotHostPort,
}

impl GatewayAddrFault {
    /// The text that describes the fault in `addr`.
    pub open spec fn text(self, addr: Seq<char>) -> Seq<char> {
        match self {
            GatewayAddrFault::MissingCloseBracket => "missing closing ']' in IPv6 address"@,
            GatewayAddrFault::EmptyHost => "empty host in gateway address"@,
            GatewayAddrFault::MissingPort => "missing port after IPv6 address"@,
            GatewayAddrFault::InvalidPort => "invalid port"@,
            GatewayAddrFault::NotHostPort => "gateway address must be host:port, got "@ + debug_text(
                addr,
            ),
        }
    }

    /// Describes the fault in `addr`.
    pub fn message(&self, addr: &str) -> (r: String)
        ensures
            r@ == self.text(addr@),
    {
        match self {
            GatewayAddrFault::MissingCloseBracket =>
                "missing closing ']' in IPv6 address".to_owned(),
            GatewayAddrFault::EmptyHost => "empty host in gateway address".to_owned(),
            GatewayAddrFault::MissingPort => "missing port after IPv6 address".to_owned(),
            GatewayAddrFault::InvalidPort => "invalid port".to_owned(),
            GatewayAddrFault::NotHostPort => {
                let quoted = debug_string(addr);
                let mut s = "gateway address must be host:port, got ".to_owned();
                s.append(quoted.as_str());
                s
            },
        }
    }
}

/// The host and the port of a gateway address, whose host may not be empty.
pub open spec fn gateway_addr(addr: Seq<char>) -> Result<(Seq<char>, int), GatewayAddrFault> {
    if addr.len() > 0 && addr[0] == '[' {
        let close = first_index(addr, ']');
        let host = addr.subrange(1, close);
        let after = addr.skip(close + 1);
        if close >= addr.len() {
            Err(GatewayAddrFault::MissingCloseBracket)
        } else if host.len() == 0 {
            Err(GatewayAddrFault::EmptyHost)
        } else if after.len() == 0 || after[0] != ':' {
            Err(GatewayAddrFault::MissingPort)
        } else {
            match unsigned_value(after.drop_first(), 10, u16::MAX as int) {
                Ok(port) => Ok((host, port)),
                Err(_) => Err(GatewayAddrFault::InvalidPort),
            }
        }
    } else {
        let colon = last_index(addr, ':');
        if colon < 0 {
            Err(GatewayAddrFault::NotHostPort)
        } else if colon == 0 {
            Err(GatewayAddrFault::EmptyHost)
        } else {
            match unsigned_value(addr.skip(colon + 1), 10, u16::MAX as int) {
                Ok(port) => Ok((addr.take(colon), port)),
                Err(_) => Err(GatewayAddrFault::InvalidPort),
            }
        }
    }
}

/// Splits the address of a gateway into its host and its port.
pub fn parse_gateway_addr(addr: &str) -> (r: Result<(String, u16), GatewayAddrFault>)
    ensures
        match r {
            Ok((host, port)) => gateway_addr(addr@) == Ok::<_, GatewayAddrFault>(
                (host@, port as int),
            ),
            Err(e) => gateway_addr(addr@) == Err::<(Seq<char>, int), _>(e),
        },
{
    let chars = chars_of(addr);
    let s = chars.as_slice();
    if s.len() > 0 && s[0] == '[' {
        let close: usize = find(s, ']');
        if close >= s.len() {
            return Err(GatewayAddrFault::MissingCloseBracket);
        }
        if close == 1 {
            return Err(GatewayAddrFault::EmptyHost);
        }
        assert(s@.skip(close + 1).len() == s@.len() - close - 1);
        if close + 1 >= s.len() || s[close + 1] != ':' {
            return Err(GatewayAddrFault::MissingPort);
        }
        let port_text = slice_subrange(s, close + 2, s.len());
        assert(port_text@ == s@.skip(close + 1).drop_first());
        match parse_u16(port_text) {
            Ok(port) => Ok((slice_string(s, 1, close), port)),
            Err(_) => Err(GatewayAddrFault::InvalidPort),
        }
    } else {
        match rfind(s, ':') {
            None => Err(GatewayAddrFault::NotHostPort),
            Some(colon) => {
                if colon == 0 {
                    return Err(GatewayAddrFault::EmptyHost);
                }
                let port_text = slice_subrange(s, colon + 1, s.len());
                assert(port_text@ == s@.skip(colon + 1));
                match parse_u16(port_text) {
                    Ok(port) => {
                        assert(s@.subrange(0, colon as int) == s@.take(colon as int));
                        Ok((slice_string(s, 0, colon), port))
                    },
                    Err(_) => Err(GatewayAddrFault::InvalidPort),
                }
            },
        }
    }
}

// ---------------------------------------------------------------------
// Writing a port and reading it back
// ---------------------------------------------------------------------

/// The decimal text of a number is made of digits and is not empty.
pub proof fn lemma_decimal_digits(n: nat)
    ensures
        decimal(n).len() > 0,
        forall|i: int| 0 <= i < decimal(n).len() ==> '0' <= #[trigger] decimal(n)[i] <= '9',
    decreases n,
{
    if n >= 10 {
        lemma_decimal_digits(n / 10);
    }
}

/// Scanning digits one after the other is scanning their concatenation.
proof fn lemma_scan_push(s: Seq<char>, c: char, max: int, acc: int, v: int, d: int)
    requires
        scan_digits(s, 10, max, acc) == Ok::<int, IntFault>(v),
        digit_value(c, 10) == Some(d),
        v * 10 + d <= max,
    ensures
        scan_digits(s.push(c), 10, max, acc) == Ok::<int, IntFault>(v * 10 + d),
    decreases s.len(),
{
    reveal_with_fuel(scan_digits, 2);
    let t = s.push(c);
    if s.len() == 0 {
        assert(t.drop_first() == Seq::<char>::empty());
    } else {
        assert(t[0] == s[0]);
        assert(t.drop_first() == s.drop_first().push(c));
        let d0 = digit_value(s[0], 10)->0;
        lemma_scan_push(s.drop_first(), c, max, acc * 10 + d0, v, d);
    }
}

/// A number is read back from its decimal text.
pub proof fn lemma_decimal_round_trip(n: nat, max: int)
    requires
        n <= max,
    ensures
        scan_digits(decimal(n), 10, max, 0) == Ok::<int, IntFault>(n as int),
        unsigned_value(decimal(n), 10, max) == Ok::<int, IntFault>(n as int),
    decreases n,
{
    reveal_with_fuel(scan_digits, 2);
    lemma_decimal_digits(n);
    if n < 10 {
        assert(decimal(n).drop_first() == Seq::<char>::empty());
    } else {
        lemma_decimal_round_trip(n / 10, max);
        lemma_scan_push(
            decimal(n / 10),
            digit_char((n % 10) as int),
            max,
            0,
            (n / 10) as int,
            (n % 10) as int,
        );
    }
    assert('0' <= decimal(n)[0]);
}

/// A written endpoint is read back as the host and the port that it was
/// written from. The host may not be empty; without colons it may not start
/// with a bracket, and with colons it may not close one.
pub proof fn law_gateway_addr_round_trip(host: Seq<char>, port: u16)
    requires
        host.len() > 0,
        host[0] != '[' || host.contains(':'),
        host.contains(':') ==> !host.contains(']'),
    ensures
        gateway_addr(endpoint(host, port as nat)) == Ok::<_, GatewayAddrFault>((host, port as int)),
{
    let e = endpoint(host, port as nat);
    let digits = decimal(port as nat);
    lemma_decimal_digits(port as nat);
    lemma_decimal_round_trip(port as nat, u16::MAX as int);
    if host.contains(':') {
        let k = host.len() as int + 1;
        assert(e[k] == ']');
        assert forall|i: int| 0 <= i < k implies e[i] != ']' by {
            if i > 0 {
                assert(e[i] == host[i - 1]);
            }
        }
        lemma_first_index_unique(e, ']', k);
        assert(e.subrange(1, k) == host);
        assert(e.skip(k + 1).drop_first() == digits);
    } else {
        let k = host.len() as int;
        assert(e[k] == ':');
        assert forall|i: int| k < i < e.len() implies e[i] != ':' by {
            assert(e[i] == digits[i - k - 1]);
        }
        lemma_last_index_unique(e, ':', k);
        assert(e.take(k) == host);
        assert(e.skip(k + 1) == digits);
        assert(e[0] == host[0]);
    }
}

} // verus!
