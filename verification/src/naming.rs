//! Interface names.
//!
//! A tunnel device is named after its endpoint, a bus after its network's
//! base name and number. Both are functions of their inputs alone, so the
//! same identifier always yields the same names.

use crate::text::decimal;
use crate::text::decimal_string;
use truncrate::TruncateToBoundary;
use vstd::prelude::*;
use vstd::string::StringExecFns;

verus! {

/// How many bytes of an endpoint identifier go into its device name.
pub const UID_BYTES: usize = 8;

/// What `truncate_to_byte_offset` of the truncrate crate returns for a text
/// and a byte offset.
pub uninterp spec fn truncated_at_byte_offset(s: Seq<char>, offset: nat) -> Seq<char>;

/// `TruncateToBoundary::truncate_to_byte_offset` of the truncrate crate: the
/// whole text where it has fewer than `offset` bytes; otherwise the text
/// up to the last place at or before `offset` bytes where a grapheme
/// starts, with trailing white space dropped. The result is known by the
/// name `truncated_at_byte_offset`; beyond that, only that it is a prefix
/// of the text and holds at most `offset` characters.
#[verifier::external_body]
fn truncate_to_byte_offset(s: &str, offset: usize) -> (r: &str)
    ensures
        r@ == truncated_at_byte_offset(s@, offset as nat),
        r@.is_prefix_of(s@),
        r@.len() <= offset,
{
    s.truncate_to_byte_offset(offset)
}

/// The prefix that every tunnel device name starts with.
pub open spec fn tunnel_prefix() -> Seq<char> {
    seq!['v', 'x', 'c', 'a', 'n']
}

/// The name of the tunnel device of the endpoint `uid`.
pub open spec fn device_name(uid: Seq<char>) -> Seq<char> {
    tunnel_prefix() + truncated_at_byte_offset(uid, UID_BYTES as nat)
}

/// The name of the peer side of a tunnel device.
pub open spec fn peer_name(device: Seq<char>) -> Seq<char> {
    device.push('p')
}

/// The name of the bus interface of a network.
pub open spec fn bus_name(device: Seq<char>, canid: u32) -> Seq<char> {
    device + decimal(canid as nat)
}

/// Puts the tunnel prefix before the part of an identifier that goes into
/// the device name.
pub fn prefixed(stem: &str) -> (r: String)
    ensures
        r@ == tunnel_prefix() + stem@,
{
    let r = String::from_str("vxcan").concat(stem);
    proof {
        reveal_strlit("vxcan");
        assert("vxcan"@ =~= tunnel_prefix());
    }
    r
}

/// Derives the tunnel device name of the endpoint `uid`: the tunnel prefix,
/// then a beginning of the identifier of at most eight characters.
pub fn tunnel_device_name(uid: &String) -> (r: String)
    ensures
        r@ == device_name(uid@),
        r@.len() <= 13,
        exists|k: int| 0 <= k <= 8 && k <= uid@.len() && r@ == tunnel_prefix() + uid@.take(k),
{
    let stem = truncate_to_byte_offset(uid.as_str(), UID_BYTES);
    proof {
        assert(stem@ =~= uid@.take(stem@.len() as int));
    }
    prefixed(stem)
}

/// Derives the peer name that goes with a tunnel device name.
pub fn tunnel_peer_name(device: &String) -> (r: String)
    ensures
        r@ == peer_name(device@),
{
    let r = device.clone().concat("p");
    proof {
        reveal_strlit("p");
        assert(r@ =~= peer_name(device@));
    }
    r
}

/// Derives the bus interface name of a network.
pub fn bus_interface_name(device: &String, canid: u32) -> (r: String)
    ensures
        r@ == bus_name(device@, canid),
{
    let number = decimal_string(canid);
    device.clone().concat(number.as_str())
}

} // verus!
