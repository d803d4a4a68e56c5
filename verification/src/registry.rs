//! The mathematical model of the registry: a map from network identifiers
//! to networks, and what each request makes of it.

use crate::endpoint::EndpointView;
use crate::error::TopologyError;
use crate::host::OsCommandView;
use crate::mesh::JoinResponseView;
use crate::mesh::NetworkView;
use crate::options::join_peer;
use crate::options::listed_options;
use crate::options::NetworkOptionsView;
use vstd::prelude::*;

verus! {

/// The registry as a value: at most one network for each identifier.
pub type RegistryView = Map<Seq<char>, NetworkView>;

/// The registry as it is stored: identifiers with their networks.
pub type Entries = Seq<(Seq<char>, NetworkView)>;

/// Whether no two entries share an identifier.
pub open spec fn distinct_ids(entries: Entries) -> bool {
    forall|i: int, j: int| 0 <= i < j < entries.len() ==> entries[i].0 != entries[j].0
}

/// The place of the network `uid` among `entries`, if it is there.
pub open spec fn find_network(entries: Entries, uid: Seq<char>) -> Option<int> {
    if exists|i: int| 0 <= i < entries.len() && entries[i].0 == uid {
        Some(choose|i: int| 0 <= i < entries.len() && entries[i].0 == uid)
    } else {
        None
    }
}

/// The map that a list of entries stands for.
pub open spec fn registry_of(entries: Entries) -> RegistryView {
    Map::new(
        |uid: Seq<char>| find_network(entries, uid) is Some,
        |uid: Seq<char>| entries[find_network(entries, uid).unwrap()].1,
    )
}

/// What an operation returns once the registry is settled: success where
/// the host confirmed every one of the `planned` commands, and otherwise
/// the place of the first command that it did not confirm.
pub open spec fn outcome(done: nat, planned: nat) -> Result<(), TopologyError> {
    if done >= planned {
        Ok(())
    } else {
        Err(TopologyError::CommandFailed { index: done as usize })
    }
}

/// The driver whose networks are taken over at startup.
pub open spec fn driver_name() -> Seq<char> {
    "rustyvxcan"@
}

/// A network as the container platform lists it at startup.
pub struct DiscoveredView {
    pub driver: Option<Seq<char>>,
    pub options: Option<Seq<(Seq<char>, Seq<char>)>>,
    pub id: Option<Seq<char>>,
}

impl DiscoveredView {
    /// Whether the listed network belongs to this driver and is complete:
    /// it names this driver, and has settings and an identifier.
    pub open spec fn adoptable(self) -> bool {
        self.driver == Some(driver_name()) && self.options is Some && self.id is Some
    }
}

/// The commands of a request to create the network `uid`: those that make
/// the new network, then those that take away the network that it replaces.
pub open spec fn create_commands(
    reg: RegistryView,
    uid: Seq<char>,
    opts: NetworkOptionsView,
    ifcs: Seq<Seq<char>>,
) -> Seq<OsCommandView> {
    NetworkView::bring_up(opts.device, opts.canid, ifcs) + if reg.contains_key(uid) {
        reg[uid].tear_down()
    } else {
        Seq::empty()
    }
}

/// The registry after a request to create the network `uid`: the new
/// network stands under `uid`, whatever stood there before.
pub open spec fn created(
    reg: RegistryView,
    uid: Seq<char>,
    opts: NetworkOptionsView,
    ifcs: Seq<Seq<char>>,
    done: nat,
) -> RegistryView {
    reg.insert(uid, NetworkView::made(opts.device, opts.peer, opts.canid, ifcs, done))
}

/// The commands of a request to delete the network `uid`.
pub open spec fn delete_commands(reg: RegistryView, uid: Seq<char>) -> Seq<OsCommandView> {
    if reg.contains_key(uid) {
        reg[uid].tear_down()
    } else {
        Seq::empty()
    }
}

/// What a request to delete the network `uid` returns.
pub open spec fn delete_result(reg: RegistryView, uid: Seq<char>, done: nat) -> Result<
    (),
    TopologyError,
> {
    if reg.contains_key(uid) {
        outcome(done, delete_commands(reg, uid).len())
    } else {
        Err(TopologyError::NetworkNotFound)
    }
}

/// The commands of a request to create the endpoint `epuid` in the network
/// `nuid`: those that make the endpoint, whether or not the network is
/// known, then those that take away the endpoint that it replaces.
pub open spec fn endpoint_create_commands(
    reg: RegistryView,
    nuid: Seq<char>,
    epuid: Seq<char>,
    ifcs: Seq<Seq<char>>,
) -> Seq<OsCommandView> {
    EndpointView::bring_up(epuid, ifcs) + if reg.contains_key(nuid) && reg[nuid].has_endpoint(
        epuid,
    ) {
        reg[nuid].endpoint(epuid).tear_down()
    } else {
        Seq::empty()
    }
}

/// The registry after a request to create the endpoint `epuid` in the
/// network `nuid`.
pub open spec fn endpoint_created(
    reg: RegistryView,
    nuid: Seq<char>,
    epuid: Seq<char>,
    ifcs: Seq<Seq<char>>,
    done: nat,
) -> RegistryView {
    if reg.contains_key(nuid) {
        reg.insert(nuid, reg[nuid].with_endpoint(EndpointView::made(epuid, ifcs, done)))
    } else {
        reg
    }
}

/// What a request to create an endpoint returns.
pub open spec fn endpoint_create_result(
    reg: RegistryView,
    nuid: Seq<char>,
    epuid: Seq<char>,
    ifcs: Seq<Seq<char>>,
    done: nat,
) -> Result<(), TopologyError> {
    if reg.contains_key(nuid) {
        outcome(done, endpoint_create_commands(reg, nuid, epuid, ifcs).len())
    } else {
        Err(TopologyError::NetworkNotFound)
    }
}

/// The commands of a request to delete the endpoint `epuid` of the network
/// `nuid`.
pub open spec fn endpoint_delete_commands(
    reg: RegistryView,
    nuid: Seq<char>,
    epuid: Seq<char>,
) -> Seq<OsCommandView> {
    if reg.contains_key(nuid) && reg[nuid].has_endpoint(epuid) {
        reg[nuid].endpoint(epuid).tear_down()
    } else {
        Seq::empty()
    }
}

/// The registry after a request to delete the endpoint `epuid` of the
/// network `nuid`.
pub open spec fn endpoint_deleted(
    reg: RegistryView,
    nuid: Seq<char>,
    epuid: Seq<char>,
) -> RegistryView {
    if reg.contains_key(nuid) && reg[nuid].has_endpoint(epuid) {
        reg.insert(nuid, reg[nuid].without_endpoint(epuid))
    } else {
        reg
    }
}

/// What a request to delete an endpoint returns.
pub open spec fn endpoint_delete_result(
    reg: RegistryView,
    nuid: Seq<char>,
    epuid: Seq<char>,
    done: nat,
) -> Result<(), TopologyError> {
    if !reg.contains_key(nuid) {
        Err(TopologyError::NetworkNotFound)
    } else if !reg[nuid].has_endpoint(epuid) {
        Err(TopologyError::EndpointNotFound)
    } else {
        outcome(done, endpoint_delete_commands(reg, nuid, epuid).len())
    }
}

/// The commands of a request to attach the endpoint `epuid` of the network
/// `nuid`.
pub open spec fn attach_commands(reg: RegistryView, nuid: Seq<char>, epuid: Seq<char>) -> Seq<
    OsCommandView,
> {
    if reg.contains_key(nuid) {
        reg[nuid].attach_commands(epuid)
    } else {
        Seq::empty()
    }
}

/// The registry after a request to attach the endpoint `epuid` of the
/// network `nuid`.
pub open spec fn attached(
    reg: RegistryView,
    nuid: Seq<char>,
    epuid: Seq<char>,
    done: nat,
) -> RegistryView {
    if reg.contains_key(nuid) && reg[nuid].has_endpoint(epuid) {
        reg.insert(nuid, reg[nuid].attached(epuid, done))
    } else {
        reg
    }
}

/// What a request to attach an endpoint returns. `options` is the settings
/// text of the request.
pub open spec fn attach_result(
    reg: RegistryView,
    nuid: Seq<char>,
    epuid: Seq<char>,
    options: Seq<char>,
    done: nat,
) -> Result<JoinResponseView, TopologyError> {
    if reg.contains_key(nuid) {
        reg[nuid].attach_result(epuid, join_peer(options), done)
    } else {
        Err(TopologyError::NetworkNotFound)
    }
}

/// The commands of a request to detach the endpoint `epuid` of the network
/// `nuid`.
pub open spec fn detach_commands(reg: RegistryView, nuid: Seq<char>, epuid: Seq<char>) -> Seq<
    OsCommandView,
> {
    if reg.contains_key(nuid) {
        reg[nuid].detach_commands(epuid)
    } else {
        Seq::empty()
    }
}

/// The registry after a request to detach the endpoint `epuid` of the
/// network `nuid`.
pub open spec fn detached(
    reg: RegistryView,
    nuid: Seq<char>,
    epuid: Seq<char>,
    done: nat,
) -> RegistryView {
    if reg.contains_key(nuid) && reg[nuid].has_endpoint(epuid) {
        reg.insert(nuid, reg[nuid].detached(epuid, done))
    } else {
        reg
    }
}

/// What a request to detach an endpoint returns.
pub open spec fn detach_result(
    reg: RegistryView,
    nuid: Seq<char>,
    epuid: Seq<char>,
    done: nat,
) -> Result<(), TopologyError> {
    if reg.contains_key(nuid) {
        reg[nuid].detach_result(epuid, done)
    } else {
        Err(TopologyError::NetworkNotFound)
    }
}

/// The commands that taking over a listed network asks of the host: none
/// for a network of another driver or an incomplete one.
pub open spec fn load_commands(
    reg: RegistryView,
    found: DiscoveredView,
    ifcs: Seq<Seq<char>>,
) -> Seq<OsCommandView> {
    if found.adoptable() {
        create_commands(reg, found.id.unwrap(), listed_options(found.options.unwrap()), ifcs)
    } else {
        Seq::empty()
    }
}

/// The registry after a listed network was looked at.
pub open spec fn loaded(
    reg: RegistryView,
    found: DiscoveredView,
    ifcs: Seq<Seq<char>>,
    done: nat,
) -> RegistryView {
    if found.adoptable() {
        created(reg, found.id.unwrap(), listed_options(found.options.unwrap()), ifcs, done)
    } else {
        reg
    }
}

/// What looking at a listed network returns: whether it was taken over.
pub open spec fn load_result(
    reg: RegistryView,
    found: DiscoveredView,
    ifcs: Seq<Seq<char>>,
    done: nat,
) -> Result<bool, TopologyError> {
    if !found.adoptable() {
        Ok(false)
    } else if done >= load_commands(reg, found, ifcs).len() {
        Ok(true)
    } else {
        Err(TopologyError::CommandFailed { index: done as usize })
    }
}

/// A request that names an unknown network leaves the registry as it is,
/// every network in it included, asks nothing of the host, and is answered
/// with the error for an unknown network. The one exception is the request
/// to create an endpoint, whose commands still make the endpoint.
pub proof fn lemma_unknown_network(
    reg: RegistryView,
    nuid: Seq<char>,
    epuid: Seq<char>,
    options: Seq<char>,
    ifcs: Seq<Seq<char>>,
    done: nat,
)
    requires
        !reg.contains_key(nuid),
    ensures
        attached(reg, nuid, epuid, done) == reg,
        attach_commands(reg, nuid, epuid) == Seq::<OsCommandView>::empty(),
        attach_result(reg, nuid, epuid, options, done) == Err::<JoinResponseView, TopologyError>(
            TopologyError::NetworkNotFound,
        ),
        detached(reg, nuid, epuid, done) == reg,
        detach_commands(reg, nuid, epuid) == Seq::<OsCommandView>::empty(),
        detach_result(reg, nuid, epuid, done) == Err::<(), TopologyError>(
            TopologyError::NetworkNotFound,
        ),
        reg.remove(nuid) == reg,
        delete_commands(reg, nuid) == Seq::<OsCommandView>::empty(),
        delete_result(reg, nuid, done) == Err::<(), TopologyError>(TopologyError::NetworkNotFound),
        endpoint_deleted(reg, nuid, epuid) == reg,
        endpoint_delete_commands(reg, nuid, epuid) == Seq::<OsCommandView>::empty(),
        endpoint_delete_result(reg, nuid, epuid, done) == Err::<(), TopologyError>(
            TopologyError::NetworkNotFound,
        ),
        endpoint_created(reg, nuid, epuid, ifcs, done) == reg,
        endpoint_create_result(reg, nuid, epuid, ifcs, done) == Err::<(), TopologyError>(
            TopologyError::NetworkNotFound,
        ),
{
    assert(reg.remove(nuid) =~= reg);
}

/// In a list of entries with distinct identifiers, a network is found at
/// its own place and nowhere else.
pub proof fn lemma_find_network(entries: Entries, i: int)
    requires
        distinct_ids(entries),
        0 <= i < entries.len(),
    ensures
        find_network(entries, entries[i].0) == Some(i),
        registry_of(entries).contains_key(entries[i].0),
        registry_of(entries)[entries[i].0] == entries[i].1,
{
    let j = choose|j: int| 0 <= j < entries.len() && entries[j].0 == entries[i].0;
    if j < i {
        assert(entries[j].0 != entries[i].0);
    }
    if i < j {
        assert(entries[i].0 != entries[j].0);
    }
}

/// An entry with a new identifier, put at the end, is an insertion into the
/// map.
pub proof fn lemma_registry_push(entries: Entries, uid: Seq<char>, net: NetworkView)
    requires
        distinct_ids(entries),
        find_network(entries, uid) is None,
    ensures
        distinct_ids(entries.push((uid, net))),
        registry_of(entries.push((uid, net))) == registry_of(entries).insert(uid, net),
{
    let next = entries.push((uid, net));
    assert forall|a: int, b: int| 0 <= a < b < next.len() implies next[a].0 != next[b].0 by {
        if b < entries.len() {
            assert(entries[a].0 != entries[b].0);
        } else {
            assert(entries[a].0 != uid);
        }
    }
    let target = registry_of(entries).insert(uid, net);
    assert forall|k: Seq<char>|
        #[trigger] registry_of(next).dom().contains(k) == target.dom().contains(k) && (registry_of(
            next,
        ).dom().contains(k) ==> registry_of(next)[k] == target[k]) by {
        if find_network(entries, k) is Some {
            let i = find_network(entries, k).unwrap();
            assert(next[i] == entries[i]);
            lemma_find_network(next, i);
        }
        if k == uid {
            assert(next[entries.len() as int].0 == uid);
            lemma_find_network(next, entries.len() as int);
        }
        if find_network(next, k) is Some {
            let i = find_network(next, k).unwrap();
            if i < entries.len() {
                assert(entries[i].0 == k);
            }
        }
    }
    assert(registry_of(next) =~= target);
}

/// Putting another network in the place of an entry is an insertion into
/// the map under the same identifier.
pub proof fn lemma_registry_update(entries: Entries, i: int, net: NetworkView)
    requires
        distinct_ids(entries),
        0 <= i < entries.len(),
    ensures
        distinct_ids(entries.update(i, (entries[i].0, net))),
        registry_of(entries.update(i, (entries[i].0, net))) == registry_of(entries).insert(
            entries[i].0,
            net,
        ),
{
    let uid = entries[i].0;
    let next = entries.update(i, (uid, net));
    assert forall|a: int, b: int| 0 <= a < b < next.len() implies next[a].0 != next[b].0 by {
        assert(entries[a].0 != entries[b].0);
    }
    let target = registry_of(entries).insert(uid, net);
    assert forall|k: Seq<char>|
        #[trigger] registry_of(next).dom().contains(k) == target.dom().contains(k) && (registry_of(
            next,
        ).dom().contains(k) ==> registry_of(next)[k] == target[k]) by {
        if find_network(entries, k) is Some {
            let j = find_network(entries, k).unwrap();
            assert(next[j].0 == k);
            lemma_find_network(next, j);
            lemma_find_network(entries, j);
        }
        if find_network(next, k) is Some {
            let j = find_network(next, k).unwrap();
            assert(entries[j].0 == k);
        }
    }
    assert(registry_of(next) =~= target);
}

/// Taking an entry out is a removal from the map.
pub proof fn lemma_registry_remove(entries: Entries, i: int)
    requires
        distinct_ids(entries),
        0 <= i < entries.len(),
    ensures
        distinct_ids(entries.remove(i)),
        registry_of(entries.remove(i)) == registry_of(entries).remove(entries[i].0),
{
    let uid = entries[i].0;
    let next = entries.remove(i);
    assert forall|a: int, b: int| 0 <= a < b < next.len() implies next[a].0 != next[b].0 by {
        let a0 = if a < i {
            a
        } else {
            a + 1
        };
        let b0 = if b < i {
            b
        } else {
            b + 1
        };
        assert(entries[a0].0 != entries[b0].0);
    }
    let target = registry_of(entries).remove(uid);
    assert forall|k: Seq<char>|
        #[trigger] registry_of(next).dom().contains(k) == target.dom().contains(k) && (registry_of(
            next,
        ).dom().contains(k) ==> registry_of(next)[k] == target[k]) by {
        if find_network(entries, k) is Some {
            let j = find_network(entries, k).unwrap();
            lemma_find_network(entries, j);
            if j != i {
                let j1 = if j < i {
                    j
                } else {
                    j - 1
                };
                assert(next[j1] == entries[j]);
                lemma_find_network(next, j1);
            } else {
                if find_network(next, k) is Some {
                    let m = find_network(next, k).unwrap();
                    let m0 = if m < i {
                        m
                    } else {
                        m + 1
                    };
                    assert(entries[m0].0 == k);
                    lemma_find_network(entries, m0);
                }
            }
        }
        if find_network(next, k) is Some {
            let m = find_network(next, k).unwrap();
            let m0 = if m < i {
                m
            } else {
                m + 1
            };
            assert(entries[m0].0 == k);
        }
    }
    assert(registry_of(next) =~= target);
}

} // verus!
