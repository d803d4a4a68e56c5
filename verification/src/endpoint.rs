//! Endpoints: one tunnel interface pair each.
//!
//! An endpoint is made before it is attached to the mesh and torn down when
//! it is deleted. The tunnel pair is created only where the host has no
//! interface of that name yet, and removed only by the endpoint that
//! created it.

use crate::host::bring_up;
use crate::host::bring_up_commands;
use crate::host::interface_exists;
use crate::host::listed;
use crate::host::tear_down;
use crate::host::tear_down_commands;
use crate::host::InterfaceKind;
use crate::host::OsCommand;
use crate::host::OsCommandView;
use crate::naming::device_name;
use crate::naming::peer_name;
use crate::naming::tunnel_device_name;
use crate::naming::tunnel_peer_name;
use vstd::prelude::*;

verus! {

/// One attachment point of a network.
#[derive(Debug)]
pub struct Endpoint {
    uid: String,
    device: String,
    peer: String,
    created: bool,
}

/// The mathematical value of an [`Endpoint`].
pub struct EndpointView {
    /// The identifier that the caller chose.
    pub uid: Seq<char>,
    /// The name of the tunnel device.
    pub device: Seq<char>,
    /// The name of the other end of the tunnel.
    pub peer: Seq<char>,
    /// Whether this endpoint created the tunnel pair on the host.
    pub created: bool,
}

impl EndpointView {
    /// The endpoint that `uid` yields on a host whose interfaces are `ifcs`,
    /// once the host has confirmed the first `done` commands of
    /// [`EndpointView::bring_up`]. The names depend on `uid` alone. The
    /// endpoint owns the tunnel pair if and only if the pair was not there
    /// before and its creation was confirmed.
    pub open spec fn made(uid: Seq<char>, ifcs: Seq<Seq<char>>, done: nat) -> EndpointView {
        EndpointView {
            uid,
            device: device_name(uid),
            peer: peer_name(device_name(uid)),
            created: !listed(ifcs, device_name(uid)) && done >= 1,
        }
    }

    /// The commands that making the endpoint `uid` asks of a host whose
    /// interfaces are `ifcs`: none where the device is there already.
    pub open spec fn bring_up(uid: Seq<char>, ifcs: Seq<Seq<char>>) -> Seq<OsCommandView> {
        if listed(ifcs, device_name(uid)) {
            Seq::empty()
        } else {
            bring_up(InterfaceKind::Tunnel, device_name(uid), peer_name(device_name(uid)))
        }
    }

    /// The commands that removing the endpoint asks of the host: none unless
    /// the endpoint created its tunnel pair.
    pub open spec fn tear_down(self) -> Seq<OsCommandView> {
        if self.created {
            tear_down(InterfaceKind::Tunnel, self.device)
        } else {
            Seq::empty()
        }
    }
}

impl View for Endpoint {
    type V = EndpointView;

    closed spec fn view(&self) -> EndpointView {
        EndpointView {
            uid: self.uid@,
            device: self.device@,
            peer: self.peer@,
            created: self.created,
        }
    }
}

impl DeepView for Endpoint {
    type V = EndpointView;

    open spec fn deep_view(&self) -> EndpointView {
        self@
    }
}

impl Clone for Endpoint {
    fn clone(&self) -> (r: Self)
        ensures
            r@ == self@,
    {
        Endpoint {
            uid: self.uid.clone(),
            device: self.device.clone(),
            peer: self.peer.clone(),
            created: self.created,
        }
    }
}

impl Endpoint {
    /// Records the endpoint `uid`. `ifcs` are the names of the host's
    /// interfaces before any command ran, `done` the number of commands of
    /// [`Endpoint::create_commands`] that the host confirmed.
    pub fn new(uid: String, ifcs: &Vec<String>, done: usize) -> (r: Endpoint)
        ensures
            r@ == EndpointView::made(uid@, ifcs.deep_view(), done as nat),
            r@.device.len() <= 13,
            r@.peer.len() <= 14,
    {
        let device = tunnel_device_name(&uid);
        let peer = tunnel_peer_name(&device);
        let exists = interface_exists(ifcs, &device);
        Endpoint { uid, device, peer, created: !exists && done >= 1 }
    }

    /// Lists what the host has to do for the endpoint `uid` to exist.
    pub fn create_commands(uid: &String, ifcs: &Vec<String>) -> (r: Vec<OsCommand>)
        ensures
            r.deep_view() == EndpointView::bring_up(uid@, ifcs.deep_view()),
    {
        let device = tunnel_device_name(uid);
        if interface_exists(ifcs, &device) {
            let r: Vec<OsCommand> = Vec::new();
            assert(r.deep_view() =~= Seq::empty());
            r
        } else {
            let peer = tunnel_peer_name(&device);
            bring_up_commands(InterfaceKind::Tunnel, &device, &peer)
        }
    }

    /// Lists what the host has to do when this endpoint goes away.
    pub fn teardown_commands(&self) -> (r: Vec<OsCommand>)
        ensures
            r.deep_view() == self@.tear_down(),
    {
        if self.created {
            tear_down_commands(InterfaceKind::Tunnel, &self.device)
        } else {
            let r: Vec<OsCommand> = Vec::new();
            assert(r.deep_view() =~= Seq::empty());
            r
        }
    }

    /// The identifier of this endpoint.
    pub fn uid(&self) -> (r: &String)
        ensures
            r@ == self@.uid,
    {
        &self.uid
    }

    /// The name of the tunnel device.
    pub fn device(&self) -> (r: &String)
        ensures
            r@ == self@.device,
    {
        &self.device
    }

    /// The name of the other end of the tunnel.
    pub fn peer(&self) -> (r: &String)
        ensures
            r@ == self@.peer,
    {
        &self.peer
    }

    /// Whether this endpoint created its tunnel pair.
    pub fn created(&self) -> (r: bool)
        ensures
            r == self@.created,
    {
        self.created
    }
}

/// An endpoint whose device the host already has asks nothing of the host,
/// neither when it is made nor when it is torn down. One whose device was
/// missing and whose creation the host confirmed was made by creating the
/// pair, and is torn down by deleting it.
pub proof fn lemma_teardown_follows_ownership(uid: Seq<char>, ifcs: Seq<Seq<char>>, done: nat)
    ensures
        listed(ifcs, device_name(uid)) ==> EndpointView::bring_up(uid, ifcs) == Seq::<
            OsCommandView,
        >::empty() && EndpointView::made(uid, ifcs, done).tear_down() == Seq::<
            OsCommandView,
        >::empty(),
        !listed(ifcs, device_name(uid)) && done >= 1 ==> EndpointView::bring_up(uid, ifcs)[0]
            == (OsCommandView::CreateTunnelPair {
            device: device_name(uid),
            peer: peer_name(device_name(uid)),
        }) && EndpointView::made(uid, ifcs, done).tear_down() == seq![
            OsCommandView::SetDown { name: device_name(uid) },
            OsCommandView::DeleteInterface {
                name: device_name(uid),
                kind: InterfaceKind::Tunnel,
            },
        ],
{
}

/// Making an endpoint twice from one identifier gives the same device and
/// peer names, whatever the host holds and confirms.
pub proof fn lemma_names_repeat(
    uid: Seq<char>,
    ifcs1: Seq<Seq<char>>,
    done1: nat,
    ifcs2: Seq<Seq<char>>,
    done2: nat,
)
    ensures
        EndpointView::made(uid, ifcs1, done1).device == EndpointView::made(
            uid,
            ifcs2,
            done2,
        ).device,
        EndpointView::made(uid, ifcs1, done1).peer == EndpointView::made(uid, ifcs2, done2).peer,
{
}

} // verus!
