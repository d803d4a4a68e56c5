//! The registry of networks and the requests that it serves.
//!
//! The registry owns every network. It is a plain value: a caller that
//! serves requests from several tasks keeps it behind one lock and holds
//! that lock from listing the commands of a request to recording what the
//! host confirmed.

use crate::endpoint::Endpoint;
use crate::error::TopologyError;
use crate::host::OsCommand;
use crate::mesh::JoinResponseView;
use crate::network::JoinResponse;
use crate::network::Network;
use crate::options::join_peer_of;
use crate::options::options_listed;
use crate::options::options_parse;
use crate::options::parsed_options;
use crate::options::NetworkOptions;
use crate::registry::distinct_ids;
use crate::registry::lemma_find_network;
use crate::registry::lemma_registry_push;
use crate::registry::lemma_registry_remove;
use crate::registry::lemma_registry_update;
use crate::registry::outcome;
use crate::registry::registry_of;
use crate::registry::DiscoveredView;
use crate::registry::RegistryView;
use vstd::prelude::*;
use vstd::string::StringExecFns;

verus! {

/// A network as the container platform lists it at startup. Each of the
/// three values may be missing from the listing.
#[derive(Debug)]
pub struct DiscoveredNetwork {
    /// The name of the driver that the network belongs to.
    pub driver: Option<String>,
    /// The settings of the network, as keys and values.
    pub options: Option<Vec<(String, String)>>,
    /// The identifier of the network.
    pub id: Option<String>,
}

impl View for DiscoveredNetwork {
    type V = DiscoveredView;

    open spec fn view(&self) -> DiscoveredView {
        DiscoveredView {
            driver: self.driver.deep_view(),
            options: self.options.deep_view(),
            id: self.id.deep_view(),
        }
    }
}

/// The registry: every network under its identifier.
#[derive(Debug)]
pub struct NetworkManager {
    network_list: Vec<(String, Network)>,
}

impl View for NetworkManager {
    type V = RegistryView;

    closed spec fn view(&self) -> RegistryView {
        registry_of(self.network_list.deep_view())
    }
}

/// Tells whether the host confirmed all `planned` commands.
pub fn command_outcome(done: usize, planned: usize) -> (r: Result<(), TopologyError>)
    ensures
        r == outcome(done as nat, planned as nat),
{
    if done >= planned {
        Ok(())
    } else {
        Err(TopologyError::CommandFailed { index: done })
    }
}

impl NetworkManager {
    #[verifier::type_invariant]
    spec fn well_formed(&self) -> bool {
        distinct_ids(self.network_list.deep_view())
    }

    /// An empty registry.
    pub fn new() -> (r: NetworkManager)
        ensures
            r@ == Map::<Seq<char>, crate::mesh::NetworkView>::empty(),
    {
        let r = NetworkManager { network_list: Vec::new() };
        assert(r.network_list.deep_view() =~= Seq::empty());
        assert(r@ =~= Map::empty());
        r
    }

    /// Finds the place of the network `uid`.
    fn network_position(&self, uid: &String) -> (r: Option<usize>)
        ensures
            match r {
                Some(i) => i < self.network_list.len() && self.network_list.deep_view()[i as int].0
                    == uid@ && self@.contains_key(uid@) && self@[uid@]
                    == self.network_list[i as int].1@,
                None => !self@.contains_key(uid@),
            },
    {
        proof {
            use_type_invariant(self);
        }
        let mut i: usize = 0;
        while i < self.network_list.len()
            invariant
                i <= self.network_list.len(),
                distinct_ids(self.network_list.deep_view()),
                forall|j: int| 0 <= j < i ==> self.network_list.deep_view()[j].0 != uid@,
            decreases self.network_list.len() - i,
        {
            if self.network_list[i].0 == *uid {
                proof {
                    lemma_find_network(self.network_list.deep_view(), i as int);
                }
                return Some(i);
            }
            i = i + 1;
        }
        None
    }

    /// Puts `net` under `uid`, in the place of whatever stood there.
    fn place(&mut self, uid: String, net: Network)
        ensures
            final(self)@ == old(self)@.insert(uid@, net@),
    {
        proof {
            use_type_invariant(&*self);
        }
        let place = self.network_position(&uid);
        let ghost before = self.network_list.deep_view();
        let ghost added = (uid@, net@);
        let mut nets: Vec<(String, Network)> = Vec::new();
        std::mem::swap(&mut nets, &mut self.network_list);
        nets.push((uid, net));
        match place {
            Some(i) => {
                nets.swap_remove(i);
                proof {
                    lemma_registry_update(before, i as int, added.1);
                    assert(nets.deep_view() =~= before.update(i as int, added));
                }
            },
            None => {
                proof {
                    lemma_registry_push(before, added.0, added.1);
                    assert(nets.deep_view() =~= before.push(added));
                }
            },
        }
        self.network_list = nets;
    }

    /// Takes the network `uid` out of the registry.
    fn take(&mut self, uid: &String) -> (r: Option<Network>)
        ensures
            final(self)@ == old(self)@.remove(uid@),
            match r {
                Some(net) => old(self)@.contains_key(uid@) && net@ == old(self)@[uid@],
                None => !old(self)@.contains_key(uid@),
            },
    {
        proof {
            use_type_invariant(&*self);
        }
        match self.network_position(uid) {
            Some(i) => {
                let ghost before = self.network_list.deep_view();
                let mut nets: Vec<(String, Network)> = Vec::new();
                std::mem::swap(&mut nets, &mut self.network_list);
                let entry = nets.remove(i);
                proof {
                    lemma_registry_remove(before, i as int);
                    assert(nets.deep_view() =~= before.remove(i as int));
                }
                self.network_list = nets;
                Some(entry.1)
            },
            None => {
                assert(self@ =~= self@.remove(uid@));
                None
            },
        }
    }

    /// The network `uid`, if it is registered.
    pub fn network(&self, uid: &String) -> (r: Option<&Network>)
        ensures
            match r {
                Some(net) => self@.contains_key(uid@) && net@ == self@[uid@],
                None => !self@.contains_key(uid@),
            },
    {
        match self.network_position(uid) {
            Some(i) => Some(&self.network_list[i].1),
            None => None,
        }
    }

    /// Lists what the host has to do to put a network with the given
    /// settings under `uid`: make the new network, then take away the one
    /// that it replaces.
    fn put_commands(&self, uid: &String, opts: &NetworkOptions, ifcs: &Vec<String>) -> (r: Vec<
        OsCommand,
    >)
        ensures
            r.deep_view() == crate::registry::create_commands(
                self@,
                uid@,
                opts@,
                ifcs.deep_view(),
            ),
    {
        let mut r = Network::create_commands(&opts.device, opts.canid, ifcs);
        let ghost head = r.deep_view();
        match self.network_position(uid) {
            Some(i) => {
                let mut down = self.network_list[i].1.teardown_commands();
                let ghost tail = down.deep_view();
                r.append(&mut down);
                assert(r.deep_view() =~= head + tail);
            },
            None => {
                assert(r.deep_view() =~= head + Seq::empty());
            },
        }
        r
    }

    /// Puts a network with the given settings under `uid`.
    fn put(&mut self, uid: String, opts: NetworkOptions, ifcs: &Vec<String>, done: usize) -> (r:
        Result<(), TopologyError>)
        ensures
            final(self)@ == crate::registry::created(
                old(self)@,
                uid@,
                opts@,
                ifcs.deep_view(),
                done as nat,
            ),
            r == outcome(
                done as nat,
                crate::registry::create_commands(old(self)@, uid@, opts@, ifcs.deep_view()).len(),
            ),
    {
        let planned = self.put_commands(&uid, &opts, ifcs).len();
        let net = Network::new(opts.device, opts.peer, opts.canid, ifcs, done);
        self.place(uid, net);
        command_outcome(done, planned)
    }

    /// Lists what the host has to do to take over a network that the
    /// container platform listed at startup: nothing unless the network
    /// names this driver and has settings and an identifier.
    pub fn network_load_commands(&self, found: &DiscoveredNetwork, ifcs: &Vec<String>) -> (r: Vec<
        OsCommand,
    >)
        ensures
            r.deep_view() == crate::registry::load_commands(self@, found@, ifcs.deep_view()),
    {
        match (&found.driver, &found.options, &found.id) {
            (Some(driver), Some(options), Some(id)) => {
                if *driver == String::from_str("rustyvxcan") {
                    let opts = options_listed(options);
                    return self.put_commands(id, &opts, ifcs);
                }
            },
            _ => {},
        }
        let r: Vec<OsCommand> = Vec::new();
        assert(r.deep_view() =~= Seq::empty());
        r
    }

    /// Takes over a network that the container platform listed at startup,
    /// with the settings of the listing and the defaults for those it
    /// lacks. A network of another driver, or one without settings or
    /// identifier, is passed over. `done` is the number of commands of
    /// [`NetworkManager::network_load_commands`] that the host confirmed.
    /// Returns whether the network was taken over.
    pub fn network_load(
        &mut self,
        found: &DiscoveredNetwork,
        ifcs: &Vec<String>,
        done: usize,
    ) -> (r: Result<bool, TopologyError>)
        ensures
            final(self)@ == crate::registry::loaded(
                old(self)@,
                found@,
                ifcs.deep_view(),
                done as nat,
            ),
            r == crate::registry::load_result(old(self)@, found@, ifcs.deep_view(), done as nat),
    {
        match (&found.driver, &found.options, &found.id) {
            (Some(driver), Some(options), Some(id)) => {
                if *driver == String::from_str("rustyvxcan") {
                    let opts = options_listed(options);
                    return match self.put(id.clone(), opts, ifcs, done) {
                        Ok(()) => Ok(true),
                        Err(e) => Err(e),
                    };
                }
            },
            _ => {},
        }
        Ok(false)
    }

    /// Lists what the host has to do to create the network `uid` with the
    /// settings text `options`.
    pub fn network_create_commands(&self, uid: &String, options: &String, ifcs: &Vec<String>) -> (r:
        Vec<OsCommand>)
        ensures
            r.deep_view() == crate::registry::create_commands(
                self@,
                uid@,
                parsed_options(options@),
                ifcs.deep_view(),
            ),
    {
        let opts = options_parse(options);
        self.put_commands(uid, &opts, ifcs)
    }

    /// Creates the network `uid` with the settings text `options`; settings
    /// that the text lacks, or a text that cannot be read, give the
    /// defaults. The new network is registered under `uid` in any case, in
    /// the place of whatever stood there. `done` is the number of commands
    /// of [`NetworkManager::network_create_commands`] that the host
    /// confirmed.
    pub fn network_create(
        &mut self,
        uid: String,
        options: String,
        ifcs: &Vec<String>,
        done: usize,
    ) -> (r: Result<(), TopologyError>)
        ensures
            final(self)@ == crate::registry::created(
                old(self)@,
                uid@,
                parsed_options(options@),
                ifcs.deep_view(),
                done as nat,
            ),
            r == outcome(
                done as nat,
                crate::registry::create_commands(
                    old(self)@,
                    uid@,
                    parsed_options(options@),
                    ifcs.deep_view(),
                ).len(),
            ),
    {
        let opts = options_parse(&options);
        self.put(uid, opts, ifcs, done)
    }

    /// Lists what the host has to do to delete the network `uid`: nothing
    /// for an unknown network.
    pub fn network_delete_commands(&self, uid: &String) -> (r: Vec<OsCommand>)
        ensures
            r.deep_view() == crate::registry::delete_commands(self@, uid@),
    {
        match self.network_position(uid) {
            Some(i) => self.network_list[i].1.teardown_commands(),
            None => {
                let r: Vec<OsCommand> = Vec::new();
                assert(r.deep_view() =~= Seq::empty());
                r
            },
        }
    }

    /// Deletes the network `uid`, with its endpoints and rules. An unknown
    /// network leaves the registry as it is. `done` is the number of
    /// commands of [`NetworkManager::network_delete_commands`] that the
    /// host confirmed.
    pub fn network_delete(&mut self, uid: String, done: usize) -> (r: Result<(), TopologyError>)
        ensures
            final(self)@ == old(self)@.remove(uid@),
            !old(self)@.contains_key(uid@) ==> final(self)@ == old(self)@,
            r == crate::registry::delete_result(old(self)@, uid@, done as nat),
    {
        let ghost before = self@;
        match self.take(&uid) {
            Some(net) => {
                let planned = net.teardown_commands().len();
                command_outcome(done, planned)
            },
            None => {
                assert(before.remove(uid@) =~= before);
                Err(TopologyError::NetworkNotFound)
            },
        }
    }

    /// Lists what the host has to do to create the endpoint `epuid` in the
    /// network `nuid`. The commands that make the endpoint are listed even
    /// where the network is unknown.
    pub fn endpoint_create_commands(&self, nuid: &String, epuid: &String, ifcs: &Vec<String>) -> (r:
        Vec<OsCommand>)
        ensures
            r.deep_view() == crate::registry::endpoint_create_commands(
                self@,
                nuid@,
                epuid@,
                ifcs.deep_view(),
            ),
    {
        let mut r = Endpoint::create_commands(epuid, ifcs);
        let ghost head = r.deep_view();
        if let Some(net) = self.network(nuid) {
            if let Some(old) = net.endpoint(epuid) {
                let mut down = old.teardown_commands();
                let ghost tail = down.deep_view();
                r.append(&mut down);
                assert(r.deep_view() =~= head + tail);
                return r;
            }
        }
        assert(r.deep_view() =~= head + Seq::empty());
        r
    }

    /// Creates the endpoint `epuid` and adds it to the network `nuid`, in
    /// the place of an endpoint of the same identifier if there is one. An
    /// unknown network leaves the registry as it is. `done` is the number
    /// of commands of [`NetworkManager::endpoint_create_commands`] that the
    /// host confirmed.
    pub fn endpoint_create(
        &mut self,
        nuid: String,
        epuid: String,
        ifcs: &Vec<String>,
        done: usize,
    ) -> (r: Result<(), TopologyError>)
        ensures
            final(self)@ == crate::registry::endpoint_created(
                old(self)@,
                nuid@,
                epuid@,
                ifcs.deep_view(),
                done as nat,
            ),
            r == crate::registry::endpoint_create_result(
                old(self)@,
                nuid@,
                epuid@,
                ifcs.deep_view(),
                done as nat,
            ),
    {
        let ghost before = self@;
        match self.take(&nuid) {
            Some(mut net) => {
                let up = Endpoint::create_commands(&epuid, ifcs).len();
                let ep = Endpoint::new(epuid, ifcs, done);
                let down = match net.endpoint_add(ep) {
                    Some(old) => old.teardown_commands().len(),
                    None => 0,
                };
                self.place(nuid, net);
                assert(self@ =~= crate::registry::endpoint_created(
                    before,
                    nuid@,
                    epuid@,
                    ifcs.deep_view(),
                    done as nat,
                ));
                command_outcome(done, up + down)
            },
            None => {
                assert(before.remove(nuid@) =~= before);
                Err(TopologyError::NetworkNotFound)
            },
        }
    }

    /// Lists what the host has to do to delete the endpoint `epuid` of the
    /// network `nuid`: nothing where either is unknown.
    pub fn endpoint_delete_commands(&self, nuid: &String, epuid: &String) -> (r: Vec<OsCommand>)
        ensures
            r.deep_view() == crate::registry::endpoint_delete_commands(self@, nuid@, epuid@),
    {
        if let Some(net) = self.network(nuid) {
            if let Some(old) = net.endpoint(epuid) {
                return old.teardown_commands();
            }
        }
        let r: Vec<OsCommand> = Vec::new();
        assert(r.deep_view() =~= Seq::empty());
        r
    }

    /// Deletes the endpoint `epuid` of the network `nuid`. The rules of the
    /// network stay as they are. An unknown network or endpoint leaves the
    /// registry as it is. `done` is the number of commands of
    /// [`NetworkManager::endpoint_delete_commands`] that the host confirmed.
    pub fn endpoint_delete(&mut self, nuid: String, epuid: String, done: usize) -> (r: Result<
        (),
        TopologyError,
    >)
        ensures
            final(self)@ == crate::registry::endpoint_deleted(old(self)@, nuid@, epuid@),
            r == crate::registry::endpoint_delete_result(old(self)@, nuid@, epuid@, done as nat),
    {
        let ghost before = self@;
        match self.take(&nuid) {
            Some(mut net) => {
                let removed = net.endpoint_remove(epuid);
                self.place(nuid, net);
                assert(self@ =~= crate::registry::endpoint_deleted(before, nuid@, epuid@));
                match removed {
                    Some(old) => command_outcome(done, old.teardown_commands().len()),
                    None => Err(TopologyError::EndpointNotFound),
                }
            },
            None => {
                assert(before.remove(nuid@) =~= before);
                Err(TopologyError::NetworkNotFound)
            },
        }
    }

    /// Lists what the host has to do to attach the endpoint `epuid` of the
    /// network `nuid` to the mesh: nothing where either is unknown.
    pub fn endpoint_attach_commands(&self, nuid: &String, epuid: &String) -> (r: Vec<OsCommand>)
        ensures
            r.deep_view() == crate::registry::attach_commands(self@, nuid@, epuid@),
    {
        match self.network(nuid) {
            Some(net) => net.endpoint_attach_commands(epuid),
            None => {
                let r: Vec<OsCommand> = Vec::new();
                assert(r.deep_view() =~= Seq::empty());
                r
            },
        }
    }

    /// Attaches the endpoint `epuid` of the network `nuid` to the mesh and
    /// returns the join descriptor. The peer prefix is read from the
    /// settings text `options`; `_sbox` is not read. An unknown network or
    /// endpoint leaves the registry as it is. `done` is the number of
    /// commands of [`NetworkManager::endpoint_attach_commands`] that the
    /// host confirmed.
    pub fn endpoint_attach(
        &mut self,
        nuid: String,
        epuid: String,
        _sbox: String,
        options: String,
        done: usize,
    ) -> (r: Result<JoinResponse, TopologyError>)
        ensures
            final(self)@ == crate::registry::attached(old(self)@, nuid@, epuid@, done as nat),
            match r {
                Ok(join) => crate::registry::attach_result(
                    old(self)@,
                    nuid@,
                    epuid@,
                    options@,
                    done as nat,
                ) == Ok::<JoinResponseView, TopologyError>(join@),
                Err(e) => crate::registry::attach_result(
                    old(self)@,
                    nuid@,
                    epuid@,
                    options@,
                    done as nat,
                ) == Err::<JoinResponseView, TopologyError>(e),
            },
    {
        let ghost before = self@;
        match self.take(&nuid) {
            Some(mut net) => {
                let peer = join_peer_of(&options);
                let r = net.endpoint_attach(epuid, _sbox, peer, done);
                self.place(nuid, net);
                proof {
                    crate::mesh::lemma_unknown_endpoint(before[nuid@], epuid@, done as nat);
                    assert(self@ =~= crate::registry::attached(
                        before,
                        nuid@,
                        epuid@,
                        done as nat,
                    ));
                }
                r
            },
            None => {
                assert(before.remove(nuid@) =~= before);
                Err(TopologyError::NetworkNotFound)
            },
        }
    }

    /// Lists what the host has to do to detach the endpoint `epuid` of the
    /// network `nuid` from the mesh: nothing where either is unknown.
    pub fn endpoint_detach_commands(&self, nuid: &String, epuid: &String) -> (r: Vec<OsCommand>)
        ensures
            r.deep_view() == crate::registry::detach_commands(self@, nuid@, epuid@),
    {
        match self.network(nuid) {
            Some(net) => net.endpoint_detach_commands(epuid),
            None => {
                let r: Vec<OsCommand> = Vec::new();
                assert(r.deep_view() =~= Seq::empty());
                r
            },
        }
    }

    /// Detaches the endpoint `epuid` of the network `nuid` from the mesh.
    /// An unknown network or endpoint leaves the registry as it is. `done`
    /// is the number of commands of
    /// [`NetworkManager::endpoint_detach_commands`] that the host confirmed.
    pub fn endpoint_detach(&mut self, nuid: String, epuid: String, done: usize) -> (r: Result<
        (),
        TopologyError,
    >)
        ensures
            final(self)@ == crate::registry::detached(old(self)@, nuid@, epuid@, done as nat),
            r == crate::registry::detach_result(old(self)@, nuid@, epuid@, done as nat),
    {
        let ghost before = self@;
        match self.take(&nuid) {
            Some(mut net) => {
                let r = net.endpoint_detach(epuid, done);
                self.place(nuid, net);
                proof {
                    crate::mesh::lemma_unknown_endpoint(before[nuid@], epuid@, done as nat);
                    assert(self@ =~= crate::registry::detached(
                        before,
                        nuid@,
                        epuid@,
                        done as nat,
                    ));
                }
                r
            },
            None => {
                assert(before.remove(nuid@) =~= before);
                Err(TopologyError::NetworkNotFound)
            },
        }
    }
}

} // verus!
