//! Addresses to listen on.
use vstd::prelude::*;
use vstd::string::*;
use crate::error::{ServerError, ServerResult};
use crate::number::{parse_number, parse_u64};
use crate::split::{split_chars, split_on};
use crate::text::{chars_of, rows, text_is};

verus! {

/// The IPv4 address that a dotted quad spells, as a number: four numbers
/// up to 255, separated by dots, the first being the most significant.
pub open spec fn ip_address(ip: Seq<char>) -> Option<nat> {
    let parts = split_on(ip, '.');
    if parts.len() != 4 {
        None
    } else {
        match (
            parse_number(parts[0], 255),
            parse_number(parts[1], 255),
            parse_number(parts[2], 255),
            parse_number(parts[3], 255),
        ) {
            (Some(a), Some(b), Some(c), Some(d)) => Some(((a * 256 + b) * 256 + c) * 256 + d),
            _ => None,
        }
    }
}

/// The address to bind for a configured host: every address of the
/// machine for `0.0.0.0` and `*`, else the address that the host spells.
pub open spec fn bind_address(host: Seq<char>) -> Option<nat> {
    if host == "0.0.0.0"@ || host == "*"@ {
        Some(0nat)
    } else {
        ip_address(host)
    }
}

/// The error for a text that spells no address.
fn invalid_address(ip: &str) -> (e: ServerError)
    ensures
        e is Config,
        e.detail() == "Invalid IP address: "@ + ip@,
{
    let mut m = String::from_str("Invalid IP address: ");
    m.append(ip);
    ServerError::Config(m)
}

/// Parse IP address string to u32.
pub fn parse_ip_address(ip: &str) -> (r: ServerResult<u32>)
    ensures
        match r {
            Ok(a) => ip_address(ip@) == Some(a as nat),
            Err(e) => ip_address(ip@) is None && e is Config && e.detail()
                == "Invalid IP address: "@ + ip@,
        },
{
    let parts = split_chars(chars_of(ip).as_slice(), '.');
    if parts.len() != 4 {
        return Err(invalid_address(ip));
    }
    let mut addr: u32 = 0;
    let mut i: usize = 0;
    while i < 4
        invariant
            i <= 4,
            parts@.len() == 4,
            rows(parts@) == split_on(ip@, '.'),
            forall|k: int| 0 <= k < i ==> parse_number(#[trigger] rows(parts@)[k], 255) is Some,
            i == 0 ==> addr == 0,
            i == 1 ==> addr == parse_number(rows(parts@)[0], 255)->0,
            i == 2 ==> addr == parse_number(rows(parts@)[0], 255)->0 * 256 + parse_number(
                rows(parts@)[1],
                255,
            )->0,
            i == 3 ==> addr == (parse_number(rows(parts@)[0], 255)->0 * 256 + parse_number(
                rows(parts@)[1],
                255,
            )->0) * 256 + parse_number(rows(parts@)[2], 255)->0,
            i == 4 ==> addr == ((parse_number(rows(parts@)[0], 255)->0 * 256 + parse_number(
                rows(parts@)[1],
                255,
            )->0) * 256 + parse_number(rows(parts@)[2], 255)->0) * 256 + parse_number(
                rows(parts@)[3],
                255,
            )->0,
        decreases 4 - i,
    {
        assert(rows(parts@)[i as int] == parts@[i as int]@);
        let octet: u32 = match parse_u64(parts[i].as_slice(), 255) {
            Some(o) => o as u32,
            None => {
                return Err(invalid_address(ip));
            },
        };
        addr = addr * 256 + octet;
        i += 1;
    }
    Ok(addr)
}

/// The address to bind for a configured host.
pub fn resolve_host(host: &str) -> (r: ServerResult<u32>)
    ensures
        match r {
            Ok(a) => bind_address(host@) == Some(a as nat),
            Err(e) => bind_address(host@) is None && e is Config && e.detail()
                == "Invalid IP address: "@ + host@,
        },
{
    let h = chars_of(host);
    if text_is(h.as_slice(), "0.0.0.0") || text_is(h.as_slice(), "*") {
        Ok(0)
    } else {
        parse_ip_address(host)
    }
}

} // verus!
