//! The host name handed to the DHCP client, held in a string of bounded size.
use vstd::prelude::*;
use vstd::string::StringSliceAdditionalSpecFns;
use crate::settings::HOSTNAME_CAPACITY;

verus! {

/// Relies on `heapless::String::<32>::try_from(&str)`: it succeeds exactly when
/// the text's UTF-8 bytes fit in the capacity, and then holds the same text.
#[verifier::external_body]
fn bounded_string(s: &str) -> (r: Option<String>)
    ensures
        r is Some <==> s.spec_bytes().len() <= HOSTNAME_CAPACITY,
        r matches Some(h) ==> h@ == s@,
{
    match heapless::String::<32>::try_from(s) {
        Ok(h) => Some(String::from(h.as_str())),
        Err(_) => None,
    }
}

/// The host name to advertise, or `None` where it is longer than 32 bytes.
pub fn dhcp_hostname(name: &str) -> (r: Option<String>)
    ensures
        r is Some <==> name.spec_bytes().len() <= HOSTNAME_CAPACITY,
        r matches Some(h) ==> h@ == name@,
{
    bounded_string(name)
}

} // verus!
