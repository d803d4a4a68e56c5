//! Networks: one bus interface, its endpoints and the mesh of rules.
//!
//! Every operation that needs the host comes in two parts. The function
//! whose name ends in `_commands` lists what the host has to do. The caller
//! runs that list in order, stops at the first command that fails, and hands
//! the number of commands that succeeded to the operation itself, which
//! records exactly what they did.

use crate::endpoint::Endpoint;
use crate::error::TopologyError;
use crate::host::bring_up_commands;
use crate::host::interface_exists;
use crate::host::tear_down_commands;
use crate::host::InterfaceKind;
use crate::host::OsCommand;
use crate::mesh::endpoints_tear_down;
use crate::mesh::find_endpoint;
use crate::mesh::lemma_find_endpoint;
use crate::mesh::distinct_uids;
use crate::mesh::lemma_mesh_steps_keep_valid;
use crate::mesh::lemma_with_endpoint_valid;
use crate::mesh::lemma_without_endpoint_valid;
use crate::mesh::pair_rules;
use crate::mesh::JoinResponseView;
use crate::mesh::NetworkView;
use crate::naming::bus_interface_name;
use crate::rules::forget;
use crate::rules::forget_all;
use crate::rules::install_plan;
use crate::rules::lemma_forget;
use crate::rules::lemma_missing;
use crate::rules::lemma_remove_forgets;
use crate::rules::missing_rules;
use crate::rules::present_rules;
use crate::rules::remove_plan;
use crate::rules::rule_position;
use crate::rules::settled_count;
use crate::rules::RuleView;
use vstd::prelude::*;

verus! {

/// What a caller is told when an endpoint has joined the mesh.
#[derive(Debug)]
pub struct JoinResponse {
    src_name: String,
    dst_prefix: String,
}

impl View for JoinResponse {
    type V = JoinResponseView;

    closed spec fn view(&self) -> JoinResponseView {
        JoinResponseView { src_name: self.src_name@, dst_prefix: self.dst_prefix@ }
    }
}

impl Clone for JoinResponse {
    fn clone(&self) -> (r: Self)
        ensures
            r@ == self@,
    {
        JoinResponse { src_name: self.src_name.clone(), dst_prefix: self.dst_prefix.clone() }
    }
}

impl JoinResponse {
    /// A join descriptor with the given names.
    pub fn new(src_name: String, dst_prefix: String) -> (r: JoinResponse)
        ensures
            r@ == (JoinResponseView { src_name: src_name@, dst_prefix: dst_prefix@ }),
    {
        JoinResponse { src_name, dst_prefix }
    }

    /// The interface to move into the container.
    pub fn src_name(&self) -> (r: &String)
        ensures
            r@ == self@.src_name,
    {
        &self.src_name
    }

    /// The prefix of the name that the interface gets there.
    pub fn dst_prefix(&self) -> (r: &String)
        ensures
            r@ == self@.dst_prefix,
    {
        &self.dst_prefix
    }
}

/// One logical network.
#[derive(Debug)]
pub struct Network {
    device: String,
    peer: String,
    canid: u32,
    ifc: String,
    created: bool,
    endpoint_list: Vec<Endpoint>,
    rules_list: Vec<(String, String)>,
}

impl View for Network {
    type V = NetworkView;

    closed spec fn view(&self) -> NetworkView {
        NetworkView {
            device: self.device@,
            peer: self.peer@,
            canid: self.canid,
            ifc: self.ifc@,
            created: self.created,
            endpoints: self.endpoint_list.deep_view(),
            rules: self.rules_list.deep_view(),
        }
    }
}

impl DeepView for Network {
    type V = NetworkView;

    open spec fn deep_view(&self) -> NetworkView {
        self@
    }
}

impl Network {
    #[verifier::type_invariant]
    spec fn well_formed(&self) -> bool {
        self@.valid()
    }

    /// Records a network with the given settings. `ifcs` are the names of
    /// the host's interfaces before any command ran, `done` the number of
    /// commands of [`Network::create_commands`] that the host confirmed.
    pub fn new(device: String, peer: String, canid: u32, ifcs: &Vec<String>, done: usize) -> (r:
        Network)
        ensures
            r@ == NetworkView::made(device@, peer@, canid, ifcs.deep_view(), done as nat),
            r@.valid(),
    {
        let ifc = bus_interface_name(&device, canid);
        let exists = interface_exists(ifcs, &ifc);
        let r = Network {
            device,
            peer,
            canid,
            ifc,
            created: !exists && done >= 1,
            endpoint_list: Vec::new(),
            rules_list: Vec::new(),
        };
        assert(r.endpoint_list.deep_view() =~= Seq::empty());
        assert(r.rules_list.deep_view() =~= Seq::empty());
        r
    }

    /// Lists what the host has to do for a network with these settings to
    /// exist.
    pub fn create_commands(device: &String, canid: u32, ifcs: &Vec<String>) -> (r: Vec<OsCommand>)
        ensures
            r.deep_view() == NetworkView::bring_up(device@, canid, ifcs.deep_view()),
    {
        let ifc = bus_interface_name(device, canid);
        if interface_exists(ifcs, &ifc) {
            let r: Vec<OsCommand> = Vec::new();
            assert(r.deep_view() =~= Seq::empty());
            r
        } else {
            let none = String::new();
            bring_up_commands(InterfaceKind::Bus, &ifc, &none)
        }
    }

    /// Finds the place of the endpoint `uid`.
    fn endpoint_position(&self, uid: &String) -> (r: Option<usize>)
        ensures
            match r {
                Some(i) => i < self@.endpoints.len() && find_endpoint(self@.endpoints, uid@)
                    == Some(i as int),
                None => find_endpoint(self@.endpoints, uid@) is None,
            },
    {
        proof {
            use_type_invariant(self);
        }
        let mut i: usize = 0;
        while i < self.endpoint_list.len()
            invariant
                i <= self.endpoint_list.len(),
                distinct_uids(self.endpoint_list.deep_view()),
                self@.endpoints == self.endpoint_list.deep_view(),
                forall|j: int| 0 <= j < i ==> self.endpoint_list.deep_view()[j].uid != uid@,
            decreases self.endpoint_list.len() - i,
        {
            if *self.endpoint_list[i].uid() == *uid {
                proof {
                    lemma_find_endpoint(self@.endpoints, i as int);
                }
                return Some(i);
            }
            i = i + 1;
        }
        None
    }

    /// Adds `ep` to the network. An endpoint of the same identifier makes
    /// way for it and is handed back, for the caller to tear down.
    pub fn endpoint_add(&mut self, ep: Endpoint) -> (replaced: Option<Endpoint>)
        ensures
            final(self)@ == old(self)@.with_endpoint(ep@),
            final(self)@.valid(),
            match replaced {
                Some(e) => old(self)@.has_endpoint(ep@.uid) && e@ == old(self)@.endpoint(ep@.uid),
                None => !old(self)@.has_endpoint(ep@.uid),
            },
    {
        proof {
            use_type_invariant(&*self);
            lemma_with_endpoint_valid(self@, ep@);
        }
        let place = self.endpoint_position(ep.uid());
        let ghost before = self@;
        let ghost added = ep@;
        let mut eps: Vec<Endpoint> = Vec::new();
        std::mem::swap(&mut eps, &mut self.endpoint_list);
        let replaced = match place {
            Some(i) => {
                eps.push(ep);
                let e = eps.swap_remove(i);
                assert(eps.deep_view() =~= before.endpoints.update(i as int, added));
                Some(e)
            },
            None => {
                eps.push(ep);
                assert(eps.deep_view() =~= before.endpoints.push(added));
                None
            },
        };
        self.endpoint_list = eps;
        replaced
    }

    /// Takes the endpoint `uid` out of the network and hands it back, for
    /// the caller to tear down. The rules stay as they are.
    pub fn endpoint_remove(&mut self, uid: String) -> (removed: Option<Endpoint>)
        ensures
            final(self)@ == old(self)@.without_endpoint(uid@),
            final(self)@.valid(),
            match removed {
                Some(e) => old(self)@.has_endpoint(uid@) && e@ == old(self)@.endpoint(uid@),
                None => !old(self)@.has_endpoint(uid@),
            },
    {
        proof {
            use_type_invariant(&*self);
            lemma_without_endpoint_valid(self@, uid@);
        }
        match self.endpoint_position(&uid) {
            Some(i) => {
                let ghost before = self@;
                let mut eps: Vec<Endpoint> = Vec::new();
                std::mem::swap(&mut eps, &mut self.endpoint_list);
                let e = eps.remove(i);
                assert(eps.deep_view() =~= before.endpoints.remove(i as int));
                self.endpoint_list = eps;
                Some(e)
            },
            None => None,
        }
    }

    /// Lists the rules that pair the endpoint at `place` with every other
    /// endpoint.
    fn pair_rule_list(&self, place: usize) -> (r: Vec<(String, String)>)
        requires
            place < self@.endpoints.len(),
        ensures
            r.deep_view() == pair_rules(self@.endpoints, self@.endpoints[place as int]),
    {
        let ghost eps = self@.endpoints;
        let ghost e = eps[place as int];
        let mut r: Vec<(String, String)> = Vec::new();
        let mut i: usize = 0;
        assert(r.deep_view() =~= pair_rules(eps.take(0), e));
        while i < self.endpoint_list.len()
            invariant
                i <= self.endpoint_list.len(),
                place < self.endpoint_list.len(),
                eps == self.endpoint_list.deep_view(),
                e == eps[place as int],
                r.deep_view() == pair_rules(eps.take(i as int), e),
            decreases self.endpoint_list.len() - i,
        {
            let ghost before = r.deep_view();
            assert(eps.take(i as int + 1).drop_last() =~= eps.take(i as int));
            assert(eps.take(i as int + 1).last() == eps[i as int]);
            let other = &self.endpoint_list[i];
            let this = &self.endpoint_list[place];
            if !(*other.uid() == *this.uid()) {
                r.push((other.device().clone(), this.device().clone()));
                r.push((this.device().clone(), other.device().clone()));
                assert(r.deep_view() =~= before.push((eps[i as int].device, e.device)).push(
                    (e.device, eps[i as int].device),
                ));
            }
            i = i + 1;
        }
        assert(eps.take(eps.len() as int) =~= eps);
        r
    }

    /// Lists the rules that attaching the endpoint at `place` asks for.
    fn attach_wanted_list(&self, place: usize) -> (r: Vec<(String, String)>)
        requires
            place < self@.endpoints.len(),
        ensures
            r.deep_view() == self@.attach_wanted(self@.endpoints[place as int]),
    {
        let this = &self.endpoint_list[place];
        let mut r: Vec<(String, String)> = Vec::new();
        r.push((self.ifc.clone(), this.device().clone()));
        r.push((this.device().clone(), self.ifc.clone()));
        let mut pairs = self.pair_rule_list(place);
        let ghost head = r.deep_view();
        let ghost tail = pairs.deep_view();
        r.append(&mut pairs);
        assert(r.deep_view() =~= head + tail);
        assert(head =~= seq![
            (self@.ifc, self@.endpoints[place as int].device),
            (self@.endpoints[place as int].device, self@.ifc),
        ]);
        r
    }

    /// Lists the rules that detaching the endpoint at `place` wants gone.
    fn detach_unwanted_list(&self, place: usize) -> (r: Vec<(String, String)>)
        requires
            place < self@.endpoints.len(),
        ensures
            r.deep_view() == self@.detach_unwanted(self@.endpoints[place as int]),
    {
        let this = &self.endpoint_list[place];
        let mut r = self.pair_rule_list(place);
        let ghost head = r.deep_view();
        r.push((this.device().clone(), self.ifc.clone()));
        r.push((self.ifc.clone(), this.device().clone()));
        assert(r.deep_view() =~= head + seq![
            (self@.endpoints[place as int].device, self@.ifc),
            (self@.ifc, self@.endpoints[place as int].device),
        ]);
        r
    }

    /// Lists the rules that attaching the endpoint `uid` has to install.
    fn attach_plan(&self, uid: &String) -> (r: Vec<(String, String)>)
        ensures
            r.deep_view() == self@.attach_plan(uid@),
    {
        match self.endpoint_position(uid) {
            Some(place) => {
                let wanted = self.attach_wanted_list(place);
                missing_rules(&self.rules_list, &wanted)
            },
            None => {
                let r: Vec<(String, String)> = Vec::new();
                assert(r.deep_view() =~= Seq::empty());
                r
            },
        }
    }

    /// Lists the rules that detaching the endpoint `uid` has to remove.
    fn detach_plan(&self, uid: &String) -> (r: Vec<(String, String)>)
        ensures
            r.deep_view() == self@.detach_plan(uid@),
    {
        match self.endpoint_position(uid) {
            Some(place) => {
                let unwanted = self.detach_unwanted_list(place);
                present_rules(&self.rules_list, &unwanted)
            },
            None => {
                let r: Vec<(String, String)> = Vec::new();
                assert(r.deep_view() =~= Seq::empty());
                r
            },
        }
    }

    /// Lists what the host has to do to attach the endpoint `uid`: two
    /// commands for each rule of the mesh that is not installed yet. Nothing
    /// for an unknown endpoint.
    pub fn endpoint_attach_commands(&self, epuid: &String) -> (r: Vec<OsCommand>)
        ensures
            r.deep_view() == self@.attach_commands(epuid@),
    {
        let plan = self.attach_plan(epuid);
        install_plan(&plan)
    }

    /// Lists what the host has to do to detach the endpoint `uid`: two
    /// commands for each rule of the endpoint that is installed. Nothing for
    /// an unknown endpoint.
    pub fn endpoint_detach_commands(&self, epuid: &String) -> (r: Vec<OsCommand>)
        ensures
            r.deep_view() == self@.detach_commands(epuid@),
    {
        let plan = self.detach_plan(epuid);
        remove_plan(&plan)
    }

    /// Records that the host forwards from `src` to `dst`. A rule that is
    /// listed already is not listed again.
    fn add_cangw_rule(&mut self, src: &String, dst: &String)
        ensures
            final(self)@ == (NetworkView {
                rules: if old(self)@.rules.contains((src@, dst@)) {
                    old(self)@.rules
                } else {
                    old(self)@.rules.push((src@, dst@))
                },
                ..old(self)@
            }),
    {
        proof {
            use_type_invariant(&*self);
        }
        if rule_position(&self.rules_list, src, dst).is_none() {
            let ghost before = self@;
            let mut rules: Vec<(String, String)> = Vec::new();
            std::mem::swap(&mut rules, &mut self.rules_list);
            rules.push((src.clone(), dst.clone()));
            assert(rules.deep_view() =~= before.rules.push((src@, dst@)));
            assert(rules.deep_view().no_duplicates()) by {
                let now = rules.deep_view();
                assert forall|i: int, j: int| 0 <= i < now.len() && 0 <= j < now.len() && i
                    != j implies now[i] != now[j] by {
                    if i < before.rules.len() {
                        assert(before.rules.contains(now[i]));
                    }
                    if j < before.rules.len() {
                        assert(before.rules.contains(now[j]));
                    }
                }
            }
            self.rules_list = rules;
        }
    }

    /// Records that the host no longer forwards from `src` to `dst`. A rule
    /// that is not listed is left alone.
    fn remove_cangw_rule(&mut self, src: &String, dst: &String)
        ensures
            final(self)@ == (NetworkView {
                rules: forget(old(self)@.rules, (src@, dst@)),
                ..old(self)@
            }),
    {
        proof {
            use_type_invariant(&*self);
            lemma_forget(self@.rules, (src@, dst@));
        }
        match rule_position(&self.rules_list, src, dst) {
            Some(i) => {
                let ghost before = self@;
                let mut rules: Vec<(String, String)> = Vec::new();
                std::mem::swap(&mut rules, &mut self.rules_list);
                rules.remove(i);
                proof {
                    lemma_remove_forgets(before.rules, i as int);
                    assert(rules.deep_view() =~= before.rules.remove(i as int));
                }
                self.rules_list = rules;
            },
            None => {},
        }
    }

    /// Attaches the endpoint `epuid` to the mesh. `done` is the number of
    /// commands of [`Network::endpoint_attach_commands`] that the host
    /// confirmed: a rule is recorded once both of its commands were. The
    /// join descriptor comes back once all of them were; it carries the
    /// endpoint's peer name and, as prefix, `peer` or the network's own
    /// where `peer` is empty. `_namespace` is not read.
    pub fn endpoint_attach(
        &mut self,
        epuid: String,
        _namespace: String,
        peer: String,
        done: usize,
    ) -> (r: Result<JoinResponse, TopologyError>)
        ensures
            final(self)@ == old(self)@.attached(epuid@, done as nat),
            final(self)@.valid(),
            match r {
                Ok(join) => old(self)@.attach_result(epuid@, peer@, done as nat) == Ok::<
                    JoinResponseView,
                    TopologyError,
                >(join@),
                Err(e) => old(self)@.attach_result(epuid@, peer@, done as nat) == Err::<
                    JoinResponseView,
                    TopologyError,
                >(e),
            },
    {
        let ghost before = self@;
        proof {
            use_type_invariant(&*self);
            lemma_mesh_steps_keep_valid(before, epuid@, done as nat);
        }
        let place = match self.endpoint_position(&epuid) {
            Some(place) => place,
            None => {
                assert(before.rules + Seq::<RuleView>::empty().take(0) =~= before.rules);
                return Err(TopologyError::EndpointNotFound);
            },
        };
        let plan = self.attach_plan(&epuid);
        let count = settled_count(done, plan.len());
        proof {
            lemma_missing(before.rules, before.attach_wanted(before.endpoint(epuid@)));
            assert forall|k: int| 0 <= k < plan.len() implies !before.rules.contains(
                #[trigger] plan.deep_view()[k],
            ) by {
                assert(plan.deep_view().contains(plan.deep_view()[k]));
            }
        }
        let mut i: usize = 0;
        assert(before.rules + plan.deep_view().take(0) =~= before.rules);
        while i < count
            invariant
                i <= count <= plan.len(),
                plan.deep_view().no_duplicates(),
                forall|k: int|
                    0 <= k < plan.len() ==> !before.rules.contains(#[trigger] plan.deep_view()[k]),
                self@ == (NetworkView {
                    rules: before.rules + plan.deep_view().take(i as int),
                    ..before
                }),
            decreases count - i,
        {
            let ghost sofar = before.rules + plan.deep_view().take(i as int);
            let ghost next = plan.deep_view()[i as int];
            assert(!sofar.contains(next)) by {
                if sofar.contains(next) {
                    let k = choose|k: int| 0 <= k < sofar.len() && sofar[k] == next;
                    if k < before.rules.len() {
                        assert(before.rules.contains(next));
                    } else {
                        let at = k - before.rules.len();
                        assert(plan.deep_view()[at] == plan.deep_view()[i as int]);
                    }
                }
            }
            self.add_cangw_rule(&plan[i].0, &plan[i].1);
            assert(sofar.push(next) =~= before.rules + plan.deep_view().take(i as int + 1));
            i = i + 1;
        }
        if count < plan.len() {
            return Err(TopologyError::CommandFailed { index: done });
        }
        let dst_prefix = if peer.as_str().is_empty() {
            self.peer.clone()
        } else {
            peer
        };
        Ok(JoinResponse { src_name: self.endpoint_list[place].peer().clone(), dst_prefix })
    }

    /// Detaches the endpoint `epuid` from the mesh. `done` is the number of
    /// commands of [`Network::endpoint_detach_commands`] that the host
    /// confirmed: a rule is struck off once both of its removals were. The
    /// endpoint and its interfaces stay.
    pub fn endpoint_detach(&mut self, epuid: String, done: usize) -> (r: Result<(), TopologyError>)
        ensures
            final(self)@ == old(self)@.detached(epuid@, done as nat),
            final(self)@.valid(),
            r == old(self)@.detach_result(epuid@, done as nat),
    {
        let ghost before = self@;
        proof {
            use_type_invariant(&*self);
            lemma_mesh_steps_keep_valid(before, epuid@, done as nat);
        }
        if self.endpoint_position(&epuid).is_none() {
            return Err(TopologyError::EndpointNotFound);
        }
        let plan = self.detach_plan(&epuid);
        let count = settled_count(done, plan.len());
        let mut i: usize = 0;
        assert(plan.deep_view().take(0) =~= Seq::empty());
        while i < count
            invariant
                i <= count <= plan.len(),
                self@ == (NetworkView {
                    rules: forget_all(before.rules, plan.deep_view().take(i as int)),
                    ..before
                }),
            decreases count - i,
        {
            assert(plan.deep_view().take(i as int + 1).drop_last() =~= plan.deep_view().take(
                i as int,
            ));
            assert(plan.deep_view().take(i as int + 1).last() == plan.deep_view()[i as int]);
            self.remove_cangw_rule(&plan[i].0, &plan[i].1);
            i = i + 1;
        }
        if count < plan.len() {
            return Err(TopologyError::CommandFailed { index: done });
        }
        Ok(())
    }

    /// Lists what the host has to do when this network goes away: remove
    /// every rule, tear down every endpoint, then the bus if this network
    /// created it.
    pub fn teardown_commands(&self) -> (r: Vec<OsCommand>)
        ensures
            r.deep_view() == self@.tear_down(),
    {
        let mut r = remove_plan(&self.rules_list);
        let ghost rules_part = r.deep_view();
        let ghost eps = self@.endpoints;
        let mut i: usize = 0;
        assert(eps.take(0) =~= Seq::empty());
        assert(r.deep_view() =~= rules_part + endpoints_tear_down(eps.take(0)));
        while i < self.endpoint_list.len()
            invariant
                i <= self.endpoint_list.len(),
                eps == self.endpoint_list.deep_view(),
                r.deep_view() == rules_part + endpoints_tear_down(eps.take(i as int)),
            decreases self.endpoint_list.len() - i,
        {
            let ghost before = r.deep_view();
            assert(eps.take(i as int + 1).drop_last() =~= eps.take(i as int));
            assert(eps.take(i as int + 1).last() == eps[i as int]);
            let mut more = self.endpoint_list[i].teardown_commands();
            let ghost tail = more.deep_view();
            r.append(&mut more);
            assert(r.deep_view() =~= before + tail);
            assert(before + tail =~= rules_part + (endpoints_tear_down(eps.take(i as int)) + tail));
            i = i + 1;
        }
        assert(eps.take(eps.len() as int) =~= eps);
        let ghost before = r.deep_view();
        if self.created {
            let mut more = tear_down_commands(InterfaceKind::Bus, &self.ifc);
            let ghost tail = more.deep_view();
            r.append(&mut more);
            assert(r.deep_view() =~= before + tail);
        } else {
            assert(r.deep_view() =~= before + Seq::empty());
        }
        r
    }

    /// The base name of the bus device.
    pub fn device(&self) -> (r: &String)
        ensures
            r@ == self@.device,
    {
        &self.device
    }

    /// The default prefix of peer names.
    pub fn peer(&self) -> (r: &String)
        ensures
            r@ == self@.peer,
    {
        &self.peer
    }

    /// The number of the bus.
    pub fn canid(&self) -> (r: u32)
        ensures
            r == self@.canid,
    {
        self.canid
    }

    /// The name of the bus interface.
    pub fn ifc(&self) -> (r: &String)
        ensures
            r@ == self@.ifc,
    {
        &self.ifc
    }

    /// Whether this network created its bus interface.
    pub fn created(&self) -> (r: bool)
        ensures
            r == self@.created,
    {
        self.created
    }

    /// The endpoint `uid`, if the network holds it.
    pub fn endpoint(&self, uid: &String) -> (r: Option<&Endpoint>)
        ensures
            match r {
                Some(e) => self@.has_endpoint(uid@) && e@ == self@.endpoint(uid@),
                None => !self@.has_endpoint(uid@),
            },
    {
        match self.endpoint_position(uid) {
            Some(i) => Some(&self.endpoint_list[i]),
            None => None,
        }
    }

    /// The endpoints, in the order in which they were added.
    pub fn endpoints(&self) -> (r: &Vec<Endpoint>)
        ensures
            r.deep_view() == self@.endpoints,
            self@.valid(),
    {
        proof {
            use_type_invariant(self);
        }
        &self.endpoint_list
    }

    /// The rules that the host holds, each as source and destination.
    pub fn rules(&self) -> (r: &Vec<(String, String)>)
        ensures
            r.deep_view() == self@.rules,
            self@.valid(),
    {
        proof {
            use_type_invariant(self);
        }
        &self.rules_list
    }
}

} // verus!
