//! The mathematical model of a network and of its mesh of rules.
//!
//! A network is a bus interface, the endpoints that were added to it, in the
//! order in which they came, and the rules that the host is known to hold.
//! Attaching an endpoint links it with the bus and with every other endpoint
//! of the network, in both directions; detaching it removes those links.

use crate::endpoint::EndpointView;
use crate::error::TopologyError;
use crate::host::bring_up;
use crate::host::listed;
use crate::host::tear_down;
use crate::host::InterfaceKind;
use crate::host::OsCommandView;
use crate::naming::bus_name;
use crate::rules::forget_all;
use crate::rules::install_commands;
use crate::rules::missing;
use crate::rules::present;
use crate::rules::remove_commands;
use crate::rules::settled;
use crate::rules::RuleView;
use vstd::prelude::*;

verus! {

/// The mathematical value of a join descriptor.
pub struct JoinResponseView {
    /// The interface to move into the container.
    pub src_name: Seq<char>,
    /// The prefix of the name that the interface gets there.
    pub dst_prefix: Seq<char>,
}

/// The mathematical value of a network.
pub struct NetworkView {
    /// The base name of the bus device.
    pub device: Seq<char>,
    /// The default prefix of peer names.
    pub peer: Seq<char>,
    /// The number of the bus.
    pub canid: u32,
    /// The name of the bus interface.
    pub ifc: Seq<char>,
    /// Whether this network created the bus interface on the host.
    pub created: bool,
    /// The endpoints, in the order in which they were added.
    pub endpoints: Seq<EndpointView>,
    /// The rules that the host holds, in the order in which they were
    /// installed.
    pub rules: Seq<RuleView>,
}

/// Whether no two endpoints share an identifier.
pub open spec fn distinct_uids(eps: Seq<EndpointView>) -> bool {
    forall|i: int, j: int| 0 <= i < j < eps.len() ==> eps[i].uid != eps[j].uid
}

/// The place of the endpoint `uid` among `eps`, if it is there.
pub open spec fn find_endpoint(eps: Seq<EndpointView>, uid: Seq<char>) -> Option<int> {
    if exists|i: int| 0 <= i < eps.len() && eps[i].uid == uid {
        Some(choose|i: int| 0 <= i < eps.len() && eps[i].uid == uid)
    } else {
        None
    }
}

/// The rules that link the device of `e` with the device of every endpoint
/// of `eps` but `e` itself: for each in turn, the rule towards `e` and then
/// the rule back.
pub open spec fn pair_rules(eps: Seq<EndpointView>, e: EndpointView) -> Seq<RuleView>
    decreases eps.len(),
{
    if eps.len() == 0 {
        Seq::empty()
    } else {
        let earlier = pair_rules(eps.drop_last(), e);
        let other = eps.last();
        if other.uid == e.uid {
            earlier
        } else {
            earlier.push((other.device, e.device)).push((e.device, other.device))
        }
    }
}

/// The commands that tear down every endpoint of `eps`, one after another.
pub open spec fn endpoints_tear_down(eps: Seq<EndpointView>) -> Seq<OsCommandView>
    decreases eps.len(),
{
    if eps.len() == 0 {
        Seq::empty()
    } else {
        endpoints_tear_down(eps.drop_last()) + eps.last().tear_down()
    }
}

impl NetworkView {
    /// What always holds of a network: the bus interface is named after the
    /// base name and the number, no two endpoints share an identifier, and
    /// no rule is listed twice.
    pub open spec fn valid(self) -> bool {
        &&& self.ifc == bus_name(self.device, self.canid)
        &&& distinct_uids(self.endpoints)
        &&& self.rules.no_duplicates()
    }

    /// The network that the settings yield on a host whose interfaces are
    /// `ifcs`, once the host has confirmed the first `done` commands of
    /// [`NetworkView::bring_up`]. It has no endpoints and no rules, and owns
    /// the bus if and only if the bus was not there before and its creation
    /// was confirmed.
    pub open spec fn made(
        device: Seq<char>,
        peer: Seq<char>,
        canid: u32,
        ifcs: Seq<Seq<char>>,
        done: nat,
    ) -> NetworkView {
        NetworkView {
            device,
            peer,
            canid,
            ifc: bus_name(device, canid),
            created: !listed(ifcs, bus_name(device, canid)) && done >= 1,
            endpoints: Seq::empty(),
            rules: Seq::empty(),
        }
    }

    /// The commands that making a network asks of a host whose interfaces
    /// are `ifcs`: none where the bus is there already.
    pub open spec fn bring_up(device: Seq<char>, canid: u32, ifcs: Seq<Seq<char>>) -> Seq<
        OsCommandView,
    > {
        if listed(ifcs, bus_name(device, canid)) {
            Seq::empty()
        } else {
            bring_up(InterfaceKind::Bus, bus_name(device, canid), Seq::empty())
        }
    }

    /// Whether the network holds an endpoint `uid`.
    pub open spec fn has_endpoint(self, uid: Seq<char>) -> bool {
        find_endpoint(self.endpoints, uid) is Some
    }

    /// The endpoint `uid` of the network. Meaningful only where
    /// [`NetworkView::has_endpoint`] holds.
    pub open spec fn endpoint(self, uid: Seq<char>) -> EndpointView {
        self.endpoints[find_endpoint(self.endpoints, uid).unwrap()]
    }

    /// The network with `e` added: in the place of the endpoint of the same
    /// identifier if there is one, at the end otherwise.
    pub open spec fn with_endpoint(self, e: EndpointView) -> NetworkView {
        NetworkView {
            endpoints: match find_endpoint(self.endpoints, e.uid) {
                Some(i) => self.endpoints.update(i, e),
                None => self.endpoints.push(e),
            },
            ..self
        }
    }

    /// The network without the endpoint `uid`. The rules stay as they are.
    pub open spec fn without_endpoint(self, uid: Seq<char>) -> NetworkView {
        NetworkView {
            endpoints: match find_endpoint(self.endpoints, uid) {
                Some(i) => self.endpoints.remove(i),
                None => self.endpoints,
            },
            ..self
        }
    }

    /// The rules that attaching `e` asks for: bus to `e`, `e` to bus, then
    /// the rules that pair `e` with every other endpoint.
    pub open spec fn attach_wanted(self, e: EndpointView) -> Seq<RuleView> {
        seq![(self.ifc, e.device), (e.device, self.ifc)] + pair_rules(self.endpoints, e)
    }

    /// The rules that attaching the endpoint `uid` installs: those it asks
    /// for that the host does not hold yet. None for an unknown endpoint.
    pub open spec fn attach_plan(self, uid: Seq<char>) -> Seq<RuleView> {
        if self.has_endpoint(uid) {
            missing(self.rules, self.attach_wanted(self.endpoint(uid)))
        } else {
            Seq::empty()
        }
    }

    /// The commands that attaching the endpoint `uid` asks of the host.
    pub open spec fn attach_commands(self, uid: Seq<char>) -> Seq<OsCommandView> {
        install_commands(self.attach_plan(uid))
    }

    /// The network after the host has confirmed the first `done` commands
    /// of [`NetworkView::attach_commands`]: the rules whose two commands
    /// were both confirmed are added, in the order of the plan.
    pub open spec fn attached(self, uid: Seq<char>, done: nat) -> NetworkView {
        let plan = self.attach_plan(uid);
        NetworkView { rules: self.rules + plan.take(settled(done, plan.len()) as int), ..self }
    }

    /// What attaching the endpoint `uid` returns: the join descriptor once
    /// every command was confirmed. The descriptor names the peer of the
    /// endpoint, and as prefix `peer`, or the network's own where `peer` is
    /// empty.
    pub open spec fn attach_result(self, uid: Seq<char>, peer: Seq<char>, done: nat) -> Result<
        JoinResponseView,
        TopologyError,
    > {
        if !self.has_endpoint(uid) {
            Err(TopologyError::EndpointNotFound)
        } else if done < self.attach_commands(uid).len() {
            Err(TopologyError::CommandFailed { index: done as usize })
        } else {
            Ok(
                JoinResponseView {
                    src_name: self.endpoint(uid).peer,
                    dst_prefix: if peer.len() == 0 {
                        self.peer
                    } else {
                        peer
                    },
                },
            )
        }
    }

    /// The rules that detaching `e` wants gone: those that pair `e` with
    /// every other endpoint, then `e` to bus and bus to `e`.
    pub open spec fn detach_unwanted(self, e: EndpointView) -> Seq<RuleView> {
        pair_rules(self.endpoints, e) + seq![(e.device, self.ifc), (self.ifc, e.device)]
    }

    /// The rules that detaching the endpoint `uid` removes: those it wants
    /// gone that the host holds. None for an unknown endpoint.
    pub open spec fn detach_plan(self, uid: Seq<char>) -> Seq<RuleView> {
        if self.has_endpoint(uid) {
            present(self.rules, self.detach_unwanted(self.endpoint(uid)))
        } else {
            Seq::empty()
        }
    }

    /// The commands that detaching the endpoint `uid` asks of the host.
    pub open spec fn detach_commands(self, uid: Seq<char>) -> Seq<OsCommandView> {
        remove_commands(self.detach_plan(uid))
    }

    /// The network after the host has confirmed the first `done` commands
    /// of [`NetworkView::detach_commands`]: the rules whose two removals
    /// were both confirmed are gone. The endpoint itself stays.
    pub open spec fn detached(self, uid: Seq<char>, done: nat) -> NetworkView {
        let plan = self.detach_plan(uid);
        NetworkView {
            rules: forget_all(self.rules, plan.take(settled(done, plan.len()) as int)),
            ..self
        }
    }

    /// What detaching the endpoint `uid` returns.
    pub open spec fn detach_result(self, uid: Seq<char>, done: nat) -> Result<(), TopologyError> {
        if !self.has_endpoint(uid) {
            Err(TopologyError::EndpointNotFound)
        } else if done < self.detach_commands(uid).len() {
            Err(TopologyError::CommandFailed { index: done as usize })
        } else {
            Ok(())
        }
    }

    /// The commands that taking the network away asks of the host: remove
    /// every rule, tear down every endpoint, then the bus if the network
    /// created it.
    pub open spec fn tear_down(self) -> Seq<OsCommandView> {
        remove_commands(self.rules) + endpoints_tear_down(self.endpoints) + if self.created {
            tear_down(InterfaceKind::Bus, self.ifc)
        } else {
            Seq::empty()
        }
    }
}

/// A network whose bus the host already has asks nothing of the host,
/// neither when it is made nor, as long as it is empty, when it is taken
/// away. One whose bus was missing and whose creation the host confirmed
/// was made by creating the bus, and ends by deleting it.
pub proof fn lemma_bus_follows_ownership(
    device: Seq<char>,
    peer: Seq<char>,
    canid: u32,
    ifcs: Seq<Seq<char>>,
    done: nat,
)
    ensures
        NetworkView::made(device, peer, canid, ifcs, done).valid(),
        listed(ifcs, bus_name(device, canid)) ==> NetworkView::bring_up(device, canid, ifcs)
            == Seq::<OsCommandView>::empty() && NetworkView::made(
            device,
            peer,
            canid,
            ifcs,
            done,
        ).tear_down() == Seq::<OsCommandView>::empty(),
        !listed(ifcs, bus_name(device, canid)) && done >= 1 ==> NetworkView::bring_up(
            device,
            canid,
            ifcs,
        )[0] == (OsCommandView::CreateBus { device: bus_name(device, canid) }) && NetworkView::made(
            device,
            peer,
            canid,
            ifcs,
            done,
        ).tear_down() == seq![
            OsCommandView::SetDown { name: bus_name(device, canid) },
            OsCommandView::DeleteInterface {
                name: bus_name(device, canid),
                kind: InterfaceKind::Bus,
            },
        ],
{
    let net = NetworkView::made(device, peer, canid, ifcs, done);
    assert(remove_commands(net.rules) =~= Seq::empty());
    assert(endpoints_tear_down(net.endpoints) =~= Seq::empty());
    if net.created {
        assert(net.tear_down() =~= tear_down(InterfaceKind::Bus, net.ifc));
    } else {
        assert(net.tear_down() =~= Seq::empty());
    }
}

/// In a list of endpoints with distinct identifiers, an endpoint is found
/// at its own place and nowhere else.
pub proof fn lemma_find_endpoint(eps: Seq<EndpointView>, i: int)
    requires
        distinct_uids(eps),
        0 <= i < eps.len(),
    ensures
        find_endpoint(eps, eps[i].uid) == Some(i),
{
    let j = choose|j: int| 0 <= j < eps.len() && eps[j].uid == eps[i].uid;
    if j < i {
        assert(eps[j].uid != eps[i].uid);
    }
    if i < j {
        assert(eps[i].uid != eps[j].uid);
    }
}

/// Adding an endpoint, or putting it in the place of one with the same
/// identifier, keeps a network valid.
pub proof fn lemma_with_endpoint_valid(net: NetworkView, e: EndpointView)
    requires
        net.valid(),
    ensures
        net.with_endpoint(e).valid(),
{
    let eps = net.endpoints;
    match find_endpoint(eps, e.uid) {
        Some(i) => {
            let next = eps.update(i, e);
            assert forall|a: int, b: int| 0 <= a < b < next.len() implies next[a].uid
                != next[b].uid by {
                assert(eps[a].uid != eps[b].uid);
            }
        },
        None => {
            let next = eps.push(e);
            assert forall|a: int, b: int| 0 <= a < b < next.len() implies next[a].uid
                != next[b].uid by {
                if b < eps.len() {
                    assert(eps[a].uid != eps[b].uid);
                }
            }
        },
    }
}

/// Removing an endpoint keeps a network valid.
pub proof fn lemma_without_endpoint_valid(net: NetworkView, uid: Seq<char>)
    requires
        net.valid(),
    ensures
        net.without_endpoint(uid).valid(),
{
    let eps = net.endpoints;
    match find_endpoint(eps, uid) {
        Some(i) => {
            let next = eps.remove(i);
            assert forall|a: int, b: int| 0 <= a < b < next.len() implies next[a].uid
                != next[b].uid by {
                let a0 = if a < i {
                    a
                } else {
                    a + 1
                };
                let b0 = if b < i {
                    b
                } else {
                    b + 1
                };
                assert(eps[a0].uid != eps[b0].uid);
            }
        },
        None => {},
    }
}

/// Attaching or detaching an endpoint that the network does not hold
/// changes nothing.
pub proof fn lemma_unknown_endpoint(net: NetworkView, uid: Seq<char>, done: nat)
    ensures
        !net.has_endpoint(uid) ==> net.attached(uid, done) == net && net.detached(uid, done) == net,
{
    if !net.has_endpoint(uid) {
        assert(net.attach_plan(uid).take(0) =~= Seq::empty());
        assert(net.rules + Seq::<RuleView>::empty() =~= net.rules);
        assert(net.detach_plan(uid).take(0) =~= Seq::empty());
    }
}

/// Attaching and detaching an endpoint, as far as the host confirmed, keep
/// a network valid.
pub proof fn lemma_mesh_steps_keep_valid(net: NetworkView, uid: Seq<char>, done: nat)
    requires
        net.valid(),
    ensures
        net.attached(uid, done).valid(),
        net.detached(uid, done).valid(),
{
    let plan = net.attach_plan(uid);
    if net.has_endpoint(uid) {
        crate::rules::lemma_track_keeps_unique(
            net.rules,
            net.attach_wanted(net.endpoint(uid)),
            settled(done, plan.len()) as int,
        );
    } else {
        assert(net.rules + plan.take(settled(done, plan.len()) as int) =~= net.rules);
    }
    let gone = net.detach_plan(uid);
    crate::rules::lemma_forget_all(net.rules, gone.take(settled(done, gone.len()) as int));
}

} // verus!
