//! The commands that the host is asked to run.
//!
//! The library decides; the caller runs the commands in order, stops at the
//! first that fails, and reports how many succeeded.

use vstd::prelude::*;

verus! {

/// The two kinds of interface that the library manages.
#[derive(Clone, Copy, Debug, PartialEq, Eq, Structural)]
pub enum InterfaceKind {
    /// A virtual bus, shared by the endpoints of one network.
    Bus,
    /// A tunnel pair, one per endpoint.
    Tunnel,
}

/// One request to the host's network control.
#[derive(Debug, PartialEq, Eq)]
pub enum OsCommand {
    /// Create the virtual bus `device`.
    CreateBus { device: String },
    /// Create the tunnel `device` with its other end `peer`.
    CreateTunnelPair { device: String, peer: String },
    /// Bring the interface `name` up.
    SetUp { name: String },
    /// Bring the interface `name` down.
    SetDown { name: String },
    /// Delete the interface `name`.
    DeleteInterface { name: String, kind: InterfaceKind },
    /// Forward frames from `src` to `dst`; `extended` picks the frame format.
    InstallForwardRule { src: String, dst: String, extended: bool },
    /// Stop forwarding frames from `src` to `dst`; `extended` picks the frame
    /// format.
    RemoveForwardRule { src: String, dst: String, extended: bool },
}

/// The mathematical value of an [`OsCommand`].
pub enum OsCommandView {
    CreateBus { device: Seq<char> },
    CreateTunnelPair { device: Seq<char>, peer: Seq<char> },
    SetUp { name: Seq<char> },
    SetDown { name: Seq<char> },
    DeleteInterface { name: Seq<char>, kind: InterfaceKind },
    InstallForwardRule { src: Seq<char>, dst: Seq<char>, extended: bool },
    RemoveForwardRule { src: Seq<char>, dst: Seq<char>, extended: bool },
}

impl View for OsCommand {
    type V = OsCommandView;

    open spec fn view(&self) -> OsCommandView {
        match self {
            OsCommand::CreateBus { device } => OsCommandView::CreateBus { device: device@ },
            OsCommand::CreateTunnelPair { device, peer } => OsCommandView::CreateTunnelPair {
                device: device@,
                peer: peer@,
            },
            OsCommand::SetUp { name } => OsCommandView::SetUp { name: name@ },
            OsCommand::SetDown { name } => OsCommandView::SetDown { name: name@ },
            OsCommand::DeleteInterface { name, kind } => OsCommandView::DeleteInterface {
                name: name@,
                kind: *kind,
            },
            OsCommand::InstallForwardRule { src, dst, extended } => {
                OsCommandView::InstallForwardRule { src: src@, dst: dst@, extended: *extended }
            },
            OsCommand::RemoveForwardRule { src, dst, extended } => {
                OsCommandView::RemoveForwardRule { src: src@, dst: dst@, extended: *extended }
            },
        }
    }
}

impl DeepView for OsCommand {
    type V = OsCommandView;

    open spec fn deep_view(&self) -> OsCommandView {
        self@
    }
}

impl Clone for OsCommand {
    fn clone(&self) -> (r: Self)
        ensures
            r@ == self@,
    {
        match self {
            OsCommand::CreateBus { device } => OsCommand::CreateBus { device: device.clone() },
            OsCommand::CreateTunnelPair { device, peer } => OsCommand::CreateTunnelPair {
                device: device.clone(),
                peer: peer.clone(),
            },
            OsCommand::SetUp { name } => OsCommand::SetUp { name: name.clone() },
            OsCommand::SetDown { name } => OsCommand::SetDown { name: name.clone() },
            OsCommand::DeleteInterface { name, kind } => OsCommand::DeleteInterface {
                name: name.clone(),
                kind: *kind,
            },
            OsCommand::InstallForwardRule { src, dst, extended } => OsCommand::InstallForwardRule {
                src: src.clone(),
                dst: dst.clone(),
                extended: *extended,
            },
            OsCommand::RemoveForwardRule { src, dst, extended } => OsCommand::RemoveForwardRule {
                src: src.clone(),
                dst: dst.clone(),
                extended: *extended,
            },
        }
    }
}

/// The commands that bring an interface into being: create it, then bring
/// it up. `peer` is the other end of a tunnel and is not read for a bus.
pub open spec fn bring_up(kind: InterfaceKind, name: Seq<char>, peer: Seq<char>) -> Seq<
    OsCommandView,
> {
    match kind {
        InterfaceKind::Bus => seq![
            OsCommandView::CreateBus { device: name },
            OsCommandView::SetUp { name },
        ],
        InterfaceKind::Tunnel => seq![
            OsCommandView::CreateTunnelPair { device: name, peer },
            OsCommandView::SetUp { name },
        ],
    }
}

/// The commands that remove an interface: bring it down, then delete it.
pub open spec fn tear_down(kind: InterfaceKind, name: Seq<char>) -> Seq<OsCommandView> {
    seq![OsCommandView::SetDown { name }, OsCommandView::DeleteInterface { name, kind }]
}

/// Whether an interface called `name` is among `ifcs`.
pub open spec fn listed(ifcs: Seq<Seq<char>>, name: Seq<char>) -> bool {
    ifcs.contains(name)
}

/// Looks `name` up in the list of the host's interfaces.
pub fn interface_exists(ifcs: &Vec<String>, name: &String) -> (r: bool)
    ensures
        r == listed(ifcs.deep_view(), name@),
{
    let mut i: usize = 0;
    while i < ifcs.len()
        invariant
            i <= ifcs.len(),
            forall|j: int| 0 <= j < i ==> ifcs.deep_view()[j] != name@,
        decreases ifcs.len() - i,
    {
        if ifcs[i] == *name {
            assert(ifcs.deep_view()[i as int] == name@);
            return true;
        }
        i = i + 1;
    }
    false
}

/// Lists the commands that create the interface `name` and bring it up.
pub fn bring_up_commands(kind: InterfaceKind, name: &String, peer: &String) -> (r: Vec<OsCommand>)
    ensures
        r.deep_view() == bring_up(kind, name@, peer@),
{
    let mut r: Vec<OsCommand> = Vec::new();
    match kind {
        InterfaceKind::Bus => r.push(OsCommand::CreateBus { device: name.clone() }),
        InterfaceKind::Tunnel => r.push(
            OsCommand::CreateTunnelPair { device: name.clone(), peer: peer.clone() },
        ),
    }
    r.push(OsCommand::SetUp { name: name.clone() });
    assert(r.deep_view() =~= bring_up(kind, name@, peer@));
    r
}

/// Lists the commands that bring the interface `name` down and delete it.
pub fn tear_down_commands(kind: InterfaceKind, name: &String) -> (r: Vec<OsCommand>)
    ensures
        r.deep_view() == tear_down(kind, name@),
{
    let mut r: Vec<OsCommand> = Vec::new();
    r.push(OsCommand::SetDown { name: name.clone() });
    r.push(OsCommand::DeleteInterface { name: name.clone(), kind });
    assert(r.deep_view() =~= tear_down(kind, name@));
    r
}

} // verus!
