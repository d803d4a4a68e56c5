//! The settings of a network, as callers spell them.
//!
//! Settings arrive either as a JSON text, with a request to create a
//! network or to join one, or as a list of keys and values, for a network
//! that was found at startup. A setting that is absent or unreadable falls
//! back to its default; no settings text is ever refused.

use crate::json::json_member;
use crate::json::read_member;
use crate::text::parse_decimal;
use crate::text::parse_u32;
use crate::text::trim;
use crate::text::trimmed;
use vstd::prelude::*;
use vstd::string::StringExecFns;

verus! {

/// The settings of one network.
#[derive(Debug)]
pub struct NetworkOptions {
    /// The base name of the bus device.
    pub device: String,
    /// The default prefix of peer names.
    pub peer: String,
    /// The number of the bus.
    pub canid: u32,
}

/// The mathematical value of [`NetworkOptions`].
pub struct NetworkOptionsView {
    pub device: Seq<char>,
    pub peer: Seq<char>,
    pub canid: u32,
}

impl View for NetworkOptions {
    type V = NetworkOptionsView;

    open spec fn view(&self) -> NetworkOptionsView {
        NetworkOptionsView { device: self.device@, peer: self.peer@, canid: self.canid }
    }
}

/// Where settings come from. The two sources differ in the peer prefix
/// that stands in for a missing one.
#[derive(Clone, Copy, Debug, PartialEq, Eq, Structural)]
pub enum OptionsShape {
    /// The settings text of a request to create a network.
    CreateNetwork,
    /// The settings of a network that was found at startup.
    Discovered,
}

/// The key of the bus device's base name.
pub open spec fn device_key() -> Seq<char> {
    "vxcan.dev"@
}

/// The key of the peer prefix.
pub open spec fn peer_key() -> Seq<char> {
    "vxcan.peer"@
}

/// The key of the bus number.
pub open spec fn id_key() -> Seq<char> {
    "vxcan.id"@
}

/// The base name that stands in for a missing one.
pub open spec fn default_device() -> Seq<char> {
    "vcan"@
}

/// The peer prefix that stands in for a missing one.
pub open spec fn default_peer(shape: OptionsShape) -> Seq<char> {
    match shape {
        OptionsShape::CreateNetwork => "vcanp"@,
        OptionsShape::Discovered => "vcan"@,
    }
}

/// The bus number that a setting denotes: the number that its text spells
/// once white space around it is dropped, and 0 where there is no text or
/// it spells no number.
pub open spec fn bus_number(id: Option<Seq<char>>) -> u32 {
    match id {
        Some(text) => match parse_u32(trimmed(text)) {
            Some(n) => n,
            None => 0,
        },
        None => 0,
    }
}

/// The settings that the three values yield, each of them possibly absent.
pub open spec fn options_from(
    device: Option<Seq<char>>,
    peer: Option<Seq<char>>,
    id: Option<Seq<char>>,
    shape: OptionsShape,
) -> NetworkOptionsView {
    NetworkOptionsView {
        device: match device {
            Some(d) => d,
            None => default_device(),
        },
        peer: match peer {
            Some(p) => p,
            None => default_peer(shape),
        },
        canid: bus_number(id),
    }
}

/// The settings that a JSON settings text yields.
pub open spec fn parsed_options(text: Seq<char>) -> NetworkOptionsView {
    options_from(
        json_member(text, device_key()).string(),
        json_member(text, peer_key()).string(),
        json_member(text, id_key()).string(),
        OptionsShape::CreateNetwork,
    )
}

/// The peer prefix that the settings text of a join request asks for: empty
/// where it asks for none.
pub open spec fn join_peer(text: Seq<char>) -> Seq<char> {
    match json_member(text, peer_key()).string() {
        Some(p) => p,
        None => Seq::empty(),
    }
}

/// The value that goes with `key` in a list of keys and values: that of the
/// first entry with that key.
pub open spec fn lookup(entries: Seq<(Seq<char>, Seq<char>)>, key: Seq<char>) -> Option<Seq<char>>
    decreases entries.len(),
{
    if entries.len() == 0 {
        None
    } else if entries[0].0 == key {
        Some(entries[0].1)
    } else {
        lookup(entries.skip(1), key)
    }
}

/// The settings that a list of keys and values yields.
pub open spec fn listed_options(entries: Seq<(Seq<char>, Seq<char>)>) -> NetworkOptionsView {
    options_from(
        lookup(entries, device_key()),
        lookup(entries, peer_key()),
        lookup(entries, id_key()),
        OptionsShape::Discovered,
    )
}

/// Reads a bus number.
pub fn bus_number_of(id: Option<String>) -> (r: u32)
    ensures
        r == bus_number(id.deep_view()),
{
    match id {
        Some(text) => match parse_decimal(trim(text.as_str())) {
            Some(n) => n,
            None => 0,
        },
        None => 0,
    }
}

/// Puts settings together from the three values, filling in the defaults.
pub fn options_from_members(
    device: Option<String>,
    peer: Option<String>,
    id: Option<String>,
    shape: OptionsShape,
) -> (r: NetworkOptions)
    ensures
        r@ == options_from(device.deep_view(), peer.deep_view(), id.deep_view(), shape),
{
    let device = match device {
        Some(d) => d,
        None => String::from_str("vcan"),
    };
    let peer = match peer {
        Some(p) => p,
        None => match shape {
            OptionsShape::CreateNetwork => String::from_str("vcanp"),
            OptionsShape::Discovered => String::from_str("vcan"),
        },
    };
    NetworkOptions { device, peer, canid: bus_number_of(id) }
}

/// Reads the settings text of a request to create a network.
pub fn options_parse(options: &String) -> (r: NetworkOptions)
    ensures
        r@ == parsed_options(options@),
{
    let device = read_member(options.as_str(), "vxcan.dev").string();
    let peer = read_member(options.as_str(), "vxcan.peer").string();
    let id = read_member(options.as_str(), "vxcan.id").string();
    options_from_members(device, peer, id, OptionsShape::CreateNetwork)
}

/// Reads the peer prefix from the settings text of a join request.
pub fn join_peer_of(options: &String) -> (r: String)
    ensures
        r@ == join_peer(options@),
{
    match read_member(options.as_str(), "vxcan.peer").string() {
        Some(p) => p,
        None => String::new(),
    }
}

/// Looks `key` up in a list of keys and values.
pub fn lookup_value(entries: &Vec<(String, String)>, key: &str) -> (r: Option<String>)
    ensures
        r.deep_view() == lookup(entries.deep_view(), key@),
{
    let wanted = String::from_str(key);
    let mut i: usize = 0;
    assert(entries.deep_view().skip(0) =~= entries.deep_view());
    while i < entries.len()
        invariant
            i <= entries.len(),
            wanted@ == key@,
            lookup(entries.deep_view(), key@) == lookup(entries.deep_view().skip(i as int), key@),
        decreases entries.len() - i,
    {
        let ghost rest = entries.deep_view().skip(i as int);
        assert(rest[0] == entries.deep_view()[i as int]);
        assert(rest.skip(1) =~= entries.deep_view().skip(i as int + 1));
        if entries[i].0 == wanted {
            return Some(entries[i].1.clone());
        }
        i = i + 1;
    }
    None
}

/// Reads the settings of a network that was found at startup.
pub fn options_listed(entries: &Vec<(String, String)>) -> (r: NetworkOptions)
    ensures
        r@ == listed_options(entries.deep_view()),
{
    let device = lookup_value(entries, "vxcan.dev");
    let peer = lookup_value(entries, "vxcan.peer");
    let id = lookup_value(entries, "vxcan.id");
    options_from_members(device, peer, id, OptionsShape::Discovered)
}

/// Settings that are absent or unreadable give the defaults: the base name
/// `vcan`, the peer prefix `vcanp` for a request and `vcan` for a network
/// found at startup, and the bus number 0. A settings text none of whose
/// three members can be read as a string gives all three defaults, and so
/// does an empty list of keys and values.
pub proof fn lemma_default_options(text: Seq<char>)
    ensures
        json_member(text, device_key()).string() is None ==> parsed_options(text).device == "vcan"@,
        json_member(text, peer_key()).string() is None ==> parsed_options(text).peer == "vcanp"@,
        json_member(text, id_key()).string() is None ==> parsed_options(text).canid == 0,
        listed_options(Seq::empty()).device == "vcan"@,
        listed_options(Seq::empty()).peer == "vcan"@,
        listed_options(Seq::empty()).canid == 0,
        forall|shape: OptionsShape| #[trigger]
            options_from(None, None, None, shape).device == "vcan"@ && options_from(
                None,
                None,
                None,
                shape,
            ).canid == 0,
        options_from(None, None, None, OptionsShape::CreateNetwork).peer == "vcanp"@,
        options_from(None, None, None, OptionsShape::Discovered).peer == "vcan"@,
{
}

} // verus!
