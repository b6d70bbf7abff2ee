//! What every fault is called.

use vstd::prelude::*;

use crate::certificate::OidFault;
use crate::config::ConfigFault;
use crate::destination::{DestinationError, DestinationFault};
use crate::endpoint::GatewayAddrFault;
use crate::identity::{HandleFault, TpmKeyFault};
use crate::number::{decimal, IntFault};
use crate::text::debug_text;

verus! {

/// What is said of a number that cannot be read.
pub proof fn law_number_fault(fault: IntFault, r: &'static str)
    requires
        call_ensures(IntFault::message, (&fault,), r),
    ensures
        fault == IntFault::Empty ==> r@ == "cannot parse integer from empty string"@,
        fault == IntFault::InvalidDigit ==> r@ == "invalid digit found in string"@,
        fault == IntFault::TooLarge ==> r@ == "number too large to fit in target type"@,
{
}

/// What is said of a text that is not a destination: what is wrong, and mostly
/// the text in quotes.
pub proof fn law_destination_fault(e: DestinationError, r: String)
    requires
        call_ensures(DestinationError::message, (&e,), r),
    ensures
        ({
            let quoted = debug_text(e.destination@);
            match e.fault {
                DestinationFault::Empty => r@ == "destination must not be empty"@,
                DestinationFault::MissingCloseBracket => r@ == "missing closing bracket in "@
                    + quoted,
                DestinationFault::EmptyBracketedHost => r@ == "empty host in bracketed address"@,
                DestinationFault::InvalidIpv6 => r@ == "invalid IPv6 address in "@ + quoted,
                DestinationFault::InvalidBracketedPort(fault) => r@ == "invalid port in "@ + quoted
                    + ": "@ + fault.text(),
                DestinationFault::TrailingCharacters => r@
                    == "unexpected characters after bracket in "@ + quoted,
                DestinationFault::AmbiguousColons => r@ == "ambiguous multi-colon destination "@
                    + quoted + "; use [ipv6]:port for IPv6 with port"@,
                DestinationFault::InvalidPort => r@ == "invalid port in "@ + quoted,
                DestinationFault::EmptyHost => r@ == "empty host in "@ + quoted,
                DestinationFault::PortZero => r@ == "port 0 is not valid in "@ + quoted,
            }
        }),
{
}

/// What is said of a text that is not the address of a gateway.
pub proof fn law_gateway_addr_fault(fault: GatewayAddrFault, addr: &str, r: String)
    requires
        call_ensures(GatewayAddrFault::message, (&fault, addr), r),
    ensures
        match fault {
            GatewayAddrFault::MissingCloseBracket => r@ == "missing closing ']' in IPv6 address"@,
            GatewayAddrFault::EmptyHost => r@ == "empty host in gateway address"@,
            GatewayAddrFault::MissingPort => r@ == "missing port after IPv6 address"@,
            GatewayAddrFault::InvalidPort => r@ == "invalid port"@,
            GatewayAddrFault::NotHostPort => r@ == "gateway address must be host:port, got "@
                + debug_text(addr@),
        },
{
}

/// What is said of a text that is not a handle.
pub proof fn law_handle_fault(fault: HandleFault, value: &str, r: String)
    requires
        call_ensures(HandleFault::message, (&fault, value), r),
    ensures
        fault is NotHex ==> r@ == "invalid TPM key handle "@ + debug_text(value@)
            + "; expected hex"@,
        fault is NotPersistent ==> r@ == "TPM key handle "@ + debug_text(value@)
            + " is not in the persistent handle range 0x81000000..=0x81ffffff"@,
{
}

/// What is said of a key or a signature that cannot be used.
pub proof fn law_tpm_fault(fault: TpmKeyFault, r: String)
    requires
        call_ensures(TpmKeyFault::message, (&fault,), r),
    ensures
        match fault {
            TpmKeyFault::NotEcc => r@ == "TPM key is not an ECC key"@,
            TpmKeyFault::NotP256 => r@ == "TPM key must be NIST P-256"@,
            TpmKeyFault::CoordinateTooLarge(n) => r@ == "P-256 coordinate is too large: "@
                + decimal(n as nat) + " bytes"@,
            TpmKeyFault::NotEcdsa => r@ == "TPM returned a non-ECDSA signature"@,
        },
{
}

/// What is said of a setting that is not valid.
pub proof fn law_config_fault(fault: ConfigFault, r: &'static str)
    requires
        call_ensures(ConfigFault::message, (&fault,), r),
    ensures
        match fault {
            ConfigFault::ListenAddr => r@
                == "invalid server.listen_addr: invalid socket address syntax"@,
            ConfigFault::ClientExtOid(OidFault::TooShort) => r@
                == "invalid policy.client_ext_oid: TooShort"@,
            ConfigFault::ClientExtOid(OidFault::FirstComponentsTooLarge) => r@
                == "invalid policy.client_ext_oid: FirstComponentsTooLarge"@,
            ConfigFault::ClientExtOid(OidFault::ParseIntError) => r@
                == "invalid policy.client_ext_oid: ParseIntError"@,
            ConfigFault::DatabaseSource => r@
                == "policy must set exactly one of database_url and database_url_env"@,
        },
{
}

} // verus!
