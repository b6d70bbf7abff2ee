//! Destinations in canonical form.
//!
//! Requests and permissions name the same destination when their texts have
//! the same canonical form: the host in lower case, the port in decimal, IPv6
//! hosts in brackets.

use vstd::prelude::*;
use vstd::slice::slice_subrange;

use crate::address::{ipv6_text, is_ipv6};
use crate::endpoint::{endpoint, format_endpoint};
use crate::number::{parse_u16, unsigned_value, IntFault};
use crate::text::{
    chars_of, count, debug_string, debug_text, find, first_index, last_index, lowercase, occurrences,
    rfind, slice_string, string_of, to_lowercase, trim, trimmed,
};

verus! {

/// The port of a destination that names none.
pub const DEFAULT_PORT: u16 = 443;

/// Why a text is not a destination.
#[derive(Clone, Copy, Debug, PartialEq, Eq, Structural)]
pub enum DestinationFault {
    /// There is nothing but white space.
    Empty,
    /// An opening bracket is never closed.
    MissingCloseBracket,
    /// There is nothing between the brackets.
    EmptyBracketedHost,
    /// What stands between the brackets is not an IPv6 address.
    InvalidIpv6,
    /// What follows the colon after a bracketed host is not a port.
    InvalidBracketedPort(IntFault),
    /// A bracketed host is followed by something other than a colon.
    TrailingCharacters,
    /// There are several colons, but the text is not an IPv6 address.
    AmbiguousColons,
    /// What follows the colon is not a port.
    InvalidPort,
    /// There is nothing in front of the port.
    EmptyHost,
    /// The port is zero.
    PortZero,
}

/// A text that is not a destination.
#[derive(Clone, Debug)]
pub struct DestinationError {
    /// What is wrong with it.
    pub fault: DestinationFault,
    /// The text, without white space at its ends.
    pub destination: String,
}

impl DestinationFault {
    /// The text that describes the fault in a destination.
    pub open spec fn text(self, destination: Seq<char>) -> Seq<char> {
        let quoted = debug_text(destination);
        match self {
            DestinationFault::Empty => "destination must not be empty"@,
            DestinationFault::MissingCloseBracket => "missing closing bracket in "@ + quoted,
            DestinationFault::EmptyBracketedHost => "empty host in bracketed address"@,
            DestinationFault::InvalidIpv6 => "invalid IPv6 address in "@ + quoted,
            DestinationFault::InvalidBracketedPort(e) => "invalid port in "@ + quoted + ": "@
                + e.text(),
            DestinationFault::TrailingCharacters => "unexpected characters after bracket in "@
                + quoted,
            DestinationFault::AmbiguousColons => "ambiguous multi-colon destination "@ + quoted
                + "; use [ipv6]:port for IPv6 with port"@,
            DestinationFault::InvalidPort => "invalid port in "@ + quoted,
            DestinationFault::EmptyHost => "empty host in "@ + quoted,
            DestinationFault::PortZero => "port 0 is not valid in "@ + quoted,
        }
    }
}

impl DestinationError {
    /// Describes the error.
    pub fn message(&self) -> (r: String)
        ensures
            r@ == self.fault.text(self.destination@),
    {
        let quoted = debug_string(self.destination.as_str());
        match self.fault {
            DestinationFault::Empty => "destination must not be empty".to_owned(),
            DestinationFault::MissingCloseBracket => "missing closing bracket in ".to_owned().concat(
                quoted.as_str(),
            ),
            DestinationFault::EmptyBracketedHost => "empty host in bracketed address".to_owned(),
            DestinationFault::InvalidIpv6 => "invalid IPv6 address in ".to_owned().concat(
                quoted.as_str(),
            ),
            DestinationFault::InvalidBracketedPort(e) => "invalid port in ".to_owned().concat(
                quoted.as_str(),
            ).concat(": ").concat(e.message()),
            DestinationFault::TrailingCharacters =>
                "unexpected characters after bracket in ".to_owned().concat(quoted.as_str()),
            DestinationFault::AmbiguousColons => "ambiguous multi-colon destination ".to_owned(

            ).concat(quoted.as_str()).concat("; use [ipv6]:port for IPv6 with port"),
            DestinationFault::InvalidPort => "invalid port in ".to_owned().concat(quoted.as_str()),
            DestinationFault::EmptyHost => "empty host in ".to_owned().concat(quoted.as_str()),
            DestinationFault::PortZero => "port 0 is not valid in ".to_owned().concat(
                quoted.as_str(),
            ),
        }
    }
}

/// The host and the port that a text without outer white space names, before
/// either is looked at. The accepted forms are `host`, `host:port`,
/// `[ipv6]:port`, `[ipv6]` and a bare IPv6 address.
pub open spec fn split_destination(d: Seq<char>) -> Result<(Seq<char>, int), DestinationFault> {
    if d.len() == 0 {
        Err(DestinationFault::Empty)
    } else if d[0] == '[' {
        let close = first_index(d, ']');
        let host = d.subrange(1, close);
        let rest = d.skip(close + 1);
        if close >= d.len() {
            Err(DestinationFault::MissingCloseBracket)
        } else if host.len() == 0 {
            Err(DestinationFault::EmptyBracketedHost)
        } else if !is_ipv6(host) {
            Err(DestinationFault::InvalidIpv6)
        } else if rest.len() == 0 {
            Ok((host, DEFAULT_PORT as int))
        } else if rest[0] == ':' {
            match unsigned_value(rest.drop_first(), 10, u16::MAX as int) {
                Ok(port) => Ok((host, port)),
                Err(e) => Err(DestinationFault::InvalidBracketedPort(e)),
            }
        } else {
            Err(DestinationFault::TrailingCharacters)
        }
    } else if occurrences(d, ':') > 1 {
        if is_ipv6(d) {
            Ok((d, DEFAULT_PORT as int))
        } else {
            Err(DestinationFault::AmbiguousColons)
        }
    } else if last_index(d, ':') >= 0 {
        let colon = last_index(d, ':');
        match unsigned_value(d.skip(colon + 1), 10, u16::MAX as int) {
            Ok(port) => Ok((d.take(colon), port)),
            Err(_) => Err(DestinationFault::InvalidPort),
        }
    } else {
        Ok((d, DEFAULT_PORT as int))
    }
}

/// The host and the port that a text without outer white space names. The
/// host is not empty and the port is not zero.
pub open spec fn destination_parts(d: Seq<char>) -> Result<(Seq<char>, int), DestinationFault> {
    match split_destination(d) {
        Err(e) => Err(e),
        Ok((host, port)) => if host.len() == 0 {
            Err(DestinationFault::EmptyHost)
        } else if port == 0 {
            Err(DestinationFault::PortZero)
        } else {
            Ok((host, port))
        },
    }
}

/// The canonical form of a destination.
pub open spec fn normalized(dest: Seq<char>) -> Result<Seq<char>, DestinationFault> {
    match destination_parts(trimmed(dest)) {
        Ok((host, port)) => Ok(endpoint(lowercase(host), port as nat)),
        Err(e) => Err(e),
    }
}

/// Finds the host and the port in a text without outer white space.
fn split_parts(d: &[char]) -> (r: Result<(String, u16), DestinationFault>)
    ensures
        match r {
            Ok((host, port)) => split_destination(d@) == Ok::<_, DestinationFault>(
                (host@, port as int),
            ),
            Err(e) => split_destination(d@) == Err::<(Seq<char>, int), _>(e),
        },
{
    if d.len() == 0 {
        return Err(DestinationFault::Empty);
    }
    if d[0] == '[' {
        let close: usize = find(d, ']');
        if close >= d.len() {
            return Err(DestinationFault::MissingCloseBracket);
        }
        if close == 1 {
            return Err(DestinationFault::EmptyBracketedHost);
        }
        let host = slice_subrange(d, 1, close);
        if !ipv6_text(host) {
            return Err(DestinationFault::InvalidIpv6);
        }
        let rest = slice_subrange(d, close + 1, d.len());
        assert(rest@ == d@.skip(close + 1));
        if rest.len() == 0 {
            return Ok((string_of(host), DEFAULT_PORT));
        }
        if rest[0] != ':' {
            return Err(DestinationFault::TrailingCharacters);
        }
        let port_text = slice_subrange(rest, 1, rest.len());
        assert(port_text@ == rest@.drop_first());
        return match parse_u16(port_text) {
            Ok(port) => Ok((string_of(host), port)),
            Err(e) => Err(DestinationFault::InvalidBracketedPort(e)),
        };
    }
    if count(d, ':') > 1 {
        if !ipv6_text(d) {
            return Err(DestinationFault::AmbiguousColons);
        }
        return Ok((string_of(d), DEFAULT_PORT));
    }
    match rfind(d, ':') {
        Some(colon) => {
            let port_text = slice_subrange(d, colon + 1, d.len());
            assert(port_text@ == d@.skip(colon + 1));
            match parse_u16(port_text) {
                Ok(port) => {
                    assert(d@.subrange(0, colon as int) == d@.take(colon as int));
                    Ok((slice_string(d, 0, colon), port))
                },
                Err(_) => Err(DestinationFault::InvalidPort),
            }
        },
        None => Ok((string_of(d), DEFAULT_PORT)),
    }
}

/// Finds the host and the port that a text names. The port is 443 where none
/// is given.
pub(crate) fn parse_destination(dest: &str) -> (r: Result<(String, u16), DestinationError>)
    ensures
        match r {
            Ok((host, port)) => destination_parts(trimmed(dest@)) == Ok::<_, DestinationFault>(
                (host@, port as int),
            ),
            Err(e) => destination_parts(trimmed(dest@)) == Err::<(Seq<char>, int), _>(e.fault)
                && e.destination@ == trimmed(dest@),
        },
{
    let chars = chars_of(dest);
    let d = trim(chars.as_slice());
    let fault: DestinationFault = match split_parts(d) {
        Ok((host, port)) => {
            if host.as_str().is_empty() {
                DestinationFault::EmptyHost
            } else if port == 0 {
                DestinationFault::PortZero
            } else {
                return Ok((host, port));
            }
        },
        Err(e) => e,
    };
    Err(DestinationError { fault, destination: string_of(d) })
}

/// Writes a host and a port in canonical form.
pub(crate) fn canonical_endpoint(host: &str, port: u16) -> (r: String)
    ensures
        r@ == endpoint(lowercase(host@), port as nat),
{
    let lower = to_lowercase(host);
    format_endpoint(lower.as_str(), port)
}

/// Brings a destination into its canonical form: lower case `host:port`, or
/// `[ipv6]:port`. The port is 443 where none is given.
pub fn normalize_destination(dest: &str) -> (r: Result<String, DestinationError>)
    ensures
        match r {
            Ok(s) => normalized(dest@) == Ok::<_, DestinationFault>(s@),
            Err(e) => normalized(dest@) == Err::<Seq<char>, _>(e.fault) && e.destination@
                == trimmed(dest@),
        },
{
    match parse_destination(dest) {
        Ok((host, port)) => Ok(canonical_endpoint(host.as_str(), port)),
        Err(e) => Err(e),
    }
}

} // verus!
