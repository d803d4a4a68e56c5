//! What holds of the mesh.
//!
//! The statements about the size of the mesh speak of networks whose
//! endpoints have devices of their own: no two endpoints share a device
//! name, and none is named like the bus. Device names are cut from endpoint
//! identifiers, so two identifiers with the same beginning can collide; a
//! network where that happened holds fewer rules than the counts say. The
//! other statements hold of every network.

use crate::endpoint::EndpointView;
use crate::mesh::distinct_uids;
use crate::mesh::find_endpoint;
use crate::mesh::lemma_find_endpoint;
use crate::mesh::lemma_mesh_steps_keep_valid;
use crate::mesh::lemma_with_endpoint_valid;
use crate::mesh::pair_rules;
use crate::mesh::NetworkView;
use crate::rules::forget_all;
use crate::rules::lemma_forget_all;
use crate::rules::lemma_forget_all_len;
use crate::rules::lemma_missing;
use crate::rules::lemma_missing_all;
use crate::rules::lemma_missing_resumes;
use crate::rules::lemma_present;
use crate::rules::lemma_present_all;
use crate::rules::lemma_present_resumes;
use crate::rules::settled;
use crate::rules::RuleView;
use vstd::prelude::*;

verus! {

/// Whether every endpoint has a device of its own, named unlike the bus.
pub open spec fn separate_devices(ifc: Seq<char>, eps: Seq<EndpointView>) -> bool {
    &&& forall|i: int, j: int| 0 <= i < j < eps.len() ==> eps[i].device != eps[j].device
    &&& forall|i: int| 0 <= i < eps.len() ==> (#[trigger] eps[i]).device != ifc
}

/// Whether `r` links the bus `ifc` and the device of an endpoint of `eps`,
/// in either direction.
pub open spec fn links_bus(ifc: Seq<char>, eps: Seq<EndpointView>, r: RuleView) -> bool {
    exists|i: int|
        0 <= i < eps.len() && (r == (ifc, (#[trigger] eps[i]).device) || r == (eps[i].device, ifc))
}

/// Whether `r` links the devices of two different endpoints of `eps`.
pub open spec fn links_pair(eps: Seq<EndpointView>, r: RuleView) -> bool {
    exists|i: int, j: int|
        0 <= i < eps.len() && 0 <= j < eps.len() && i != j && r == (
            (#[trigger] eps[i]).device,
            (#[trigger] eps[j]).device,
        )
}

/// Whether `r` belongs to the full mesh of the bus `ifc` and the endpoints
/// `eps`.
pub open spec fn in_mesh(ifc: Seq<char>, eps: Seq<EndpointView>, r: RuleView) -> bool {
    links_bus(ifc, eps, r) || links_pair(eps, r)
}

/// Whether the rules of `net` are exactly the full mesh of its endpoints.
pub open spec fn meshed(net: NetworkView) -> bool {
    forall|r: RuleView| #[trigger] net.rules.contains(r) <==> in_mesh(net.ifc, net.endpoints, r)
}

/// The network after the endpoint `uid` was attached, with every command
/// confirmed.
pub open spec fn enter(net: NetworkView, uid: Seq<char>) -> NetworkView {
    net.attached(uid, net.attach_commands(uid).len())
}

/// The network after `e` was added and attached, with every command
/// confirmed.
pub open spec fn join(net: NetworkView, e: EndpointView) -> NetworkView {
    enter(net.with_endpoint(e), e.uid)
}

/// The network after each endpoint of `eps` in turn was added and attached,
/// with every command confirmed.
pub open spec fn join_all(net: NetworkView, eps: Seq<EndpointView>) -> NetworkView
    decreases eps.len(),
{
    if eps.len() == 0 {
        net
    } else {
        join(join_all(net, eps.drop_last()), eps.last())
    }
}

/// The network after the endpoint `uid` was detached, with every command
/// confirmed.
pub open spec fn leave(net: NetworkView, uid: Seq<char>) -> NetworkView {
    net.detached(uid, net.detach_commands(uid).len())
}

/// The rules that link `e` with the bus and then with every other endpoint
/// of `eps`.
pub open spec fn star(ifc: Seq<char>, eps: Seq<EndpointView>, e: EndpointView) -> Seq<RuleView> {
    seq![(ifc, e.device), (e.device, ifc)] + pair_rules(eps, e)
}

/// Where no endpoint of `eps` has the identifier of `e`, the rules that
/// pair `e` with them are two for each, towards `e` and back.
proof fn lemma_pair_rules_all(eps: Seq<EndpointView>, e: EndpointView)
    requires
        forall|i: int| 0 <= i < eps.len() ==> (#[trigger] eps[i]).uid != e.uid,
    ensures
        pair_rules(eps, e).len() == 2 * eps.len(),
        forall|i: int|
            0 <= i < eps.len() ==> pair_rules(eps, e)[2 * i] == (
                (#[trigger] eps[i]).device,
                e.device,
            ) && pair_rules(eps, e)[2 * i + 1] == (e.device, eps[i].device),
    decreases eps.len(),
{
    if eps.len() > 0 {
        let shorter = eps.drop_last();
        assert forall|i: int| 0 <= i < shorter.len() implies (#[trigger] shorter[i]).uid
            != e.uid by {
            assert(shorter[i] == eps[i]);
        }
        lemma_pair_rules_all(shorter, e);
        assert(eps[eps.len() - 1].uid != e.uid);
        assert forall|i: int| 0 <= i < eps.len() implies pair_rules(eps, e)[2 * i] == (
            (#[trigger] eps[i]).device,
            e.device,
        ) && pair_rules(eps, e)[2 * i + 1] == (e.device, eps[i].device) by {
            if i < shorter.len() {
                assert(shorter[i] == eps[i]);
            }
        }
    }
}

/// The endpoint that has the identifier of `e` adds nothing to the rules
/// that pair `e` with the others.
proof fn lemma_pair_rules_skip(eps: Seq<EndpointView>, e: EndpointView, k: int)
    requires
        0 <= k < eps.len(),
        eps[k].uid == e.uid,
    ensures
        pair_rules(eps, e) == pair_rules(eps.remove(k), e),
    decreases eps.len(),
{
    let shorter = eps.drop_last();
    if k == eps.len() - 1 {
        assert(eps.remove(k) =~= shorter);
    } else {
        lemma_pair_rules_skip(shorter, e, k);
        let cut = eps.remove(k);
        assert(cut.drop_last() =~= shorter.remove(k));
        assert(cut.last() == eps.last());
    }
}

/// The rules that attaching `e` asks for, where `e` is new to a network
/// with separate devices: each is named once, and all of them mention the
/// device of `e`.
proof fn lemma_wanted_of_newcomer(ifc: Seq<char>, eps: Seq<EndpointView>, e: EndpointView)
    requires
        separate_devices(ifc, eps.push(e)),
        forall|i: int| 0 <= i < eps.len() ==> (#[trigger] eps[i]).uid != e.uid,
    ensures
        star(ifc, eps, e).no_duplicates(),
        star(ifc, eps, e).len() == 2 + 2 * eps.len(),
        forall|r: RuleView|
            #[trigger] star(ifc, eps, e).contains(r) <==> (r == (ifc, e.device) || r == (
                e.device,
                ifc,
            ) || exists|i: int|
                0 <= i < eps.len() && (r == ((#[trigger] eps[i]).device, e.device) || r == (
                    e.device,
                    eps[i].device,
                ))),
{
    let all = eps.push(e);
    let n = eps.len() as int;
    let pairs = pair_rules(eps, e);
    let wanted = star(ifc, eps, e);
    lemma_pair_rules_all(eps, e);
    assert(all[n] == e);
    assert(e.device != ifc);
    assert forall|i: int| 0 <= i < n implies (#[trigger] eps[i]).device != e.device && eps[i].device
        != ifc by {
        assert(all[i] == eps[i]);
        assert(all[i].device != all[n].device);
    }
    assert forall|i: int, j: int| 0 <= i < j < n implies eps[i].device != eps[j].device by {
        assert(all[i] == eps[i] && all[j] == eps[j]);
    }
    assert forall|a: int| 2 <= a < wanted.len() implies #[trigger] wanted[a] == (if (a - 2) % 2
        == 0 {
        (eps[(a - 2) / 2].device, e.device)
    } else {
        (e.device, eps[(a - 2) / 2].device)
    }) by {
        let i = (a - 2) / 2;
        assert(wanted[a] == pairs[a - 2]);
        assert(eps[i] == eps[i]);
        if (a - 2) % 2 == 0 {
            assert(a - 2 == 2 * i);
        } else {
            assert(a - 2 == 2 * i + 1);
        }
    }
    assert forall|a: int, b: int| 0 <= a < wanted.len() && 0 <= b < wanted.len() && a
        != b implies wanted[a] != wanted[b] by {
        let ia = (a - 2) / 2;
        let ib = (b - 2) / 2;
        if a >= 2 {
            assert(eps[ia].device != e.device);
            assert(eps[ia].device != ifc);
        }
        if b >= 2 {
            assert(eps[ib].device != e.device);
            assert(eps[ib].device != ifc);
        }
        if a >= 2 && b >= 2 && ia != ib {
            if ia < ib {
                assert(eps[ia].device != eps[ib].device);
            } else {
                assert(eps[ib].device != eps[ia].device);
            }
        }
    }
    assert forall|r: RuleView| #[trigger]
        wanted.contains(r) <==> (r == (ifc, e.device) || r == (e.device, ifc) || exists|i: int|
            0 <= i < eps.len() && (r == ((#[trigger] eps[i]).device, e.device) || r == (
                e.device,
                eps[i].device,
            ))) by {
        if wanted.contains(r) {
            let a = choose|a: int| 0 <= a < wanted.len() && wanted[a] == r;
            if a >= 2 {
                let i = (a - 2) / 2;
                assert(r == (eps[i].device, e.device) || r == (e.device, eps[i].device));
            }
        }
        if r == (ifc, e.device) {
            assert(wanted[0] == r);
        }
        if r == (e.device, ifc) {
            assert(wanted[1] == r);
        }
        if exists|i: int|
            0 <= i < eps.len() && (r == ((#[trigger] eps[i]).device, e.device) || r == (
                e.device,
                eps[i].device,
            )) {
            let i = choose|i: int|
                0 <= i < eps.len() && (r == ((#[trigger] eps[i]).device, e.device) || r == (
                    e.device,
                    eps[i].device,
                ));
            assert(wanted[2 + 2 * i] == pairs[2 * i]);
            assert(wanted[2 + 2 * i + 1] == pairs[2 * i + 1]);
        }
    }
}

/// A rule of the full mesh mentions only the bus and the devices of the
/// endpoints.
proof fn lemma_mesh_mentions(ifc: Seq<char>, eps: Seq<EndpointView>, r: RuleView, d: Seq<char>)
    requires
        in_mesh(ifc, eps, r),
        d != ifc,
        forall|i: int| 0 <= i < eps.len() ==> (#[trigger] eps[i]).device != d,
    ensures
        r.0 != d,
        r.1 != d,
{
    if links_bus(ifc, eps, r) {
        let i = choose|i: int|
            0 <= i < eps.len() && (r == (ifc, (#[trigger] eps[i]).device) || r == (
                eps[i].device,
                ifc,
            ));
        assert(eps[i].device != d);
    } else {
        let (i, j) = choose|i: int, j: int|
            0 <= i < eps.len() && 0 <= j < eps.len() && i != j && r == (
                (#[trigger] eps[i]).device,
                (#[trigger] eps[j]).device,
            );
        assert(eps[i].device != d);
        assert(eps[j].device != d);
    }
}

/// Adding a new endpoint to a full mesh and attaching it gives the full
/// mesh of one endpoint more: two rules for the bus and two for each
/// endpoint that was there are installed, and no other.
pub proof fn lemma_join_extends_mesh(net: NetworkView, e: EndpointView)
    requires
        net.valid(),
        meshed(net),
        separate_devices(net.ifc, net.endpoints.push(e)),
        forall|i: int| 0 <= i < net.endpoints.len() ==> (#[trigger] net.endpoints[i]).uid != e.uid,
    ensures
        join(net, e).valid(),
        meshed(join(net, e)),
        join(net, e).endpoints == net.endpoints.push(e),
        join(net, e).rules == net.rules + star(net.ifc, net.endpoints, e),
        join(net, e).rules.len() == net.rules.len() + 2 + 2 * net.endpoints.len(),
        join(net, e).ifc == net.ifc,
{
    let eps = net.endpoints;
    let n = eps.len() as int;
    let ifc = net.ifc;
    let d = e.device;
    let added = net.with_endpoint(e);
    let all = eps.push(e);
    assert(find_endpoint(eps, e.uid) is None);
    assert(added.endpoints == all);
    lemma_with_endpoint_valid(net, e);
    assert(all[n] == e);
    lemma_find_endpoint(all, n);
    assert(added.endpoint(e.uid) == e);
    assert(all.drop_last() =~= eps);
    assert(pair_rules(all, e) == pair_rules(eps, e));
    let wanted = star(ifc, eps, e);
    assert(added.attach_wanted(e) == wanted);
    lemma_wanted_of_newcomer(ifc, eps, e);
    assert(d != ifc);
    assert forall|i: int| 0 <= i < n implies (#[trigger] eps[i]).device != d by {
        assert(all[i] == eps[i]);
        assert(all[i].device != all[n].device);
    }
    assert forall|a: int| 0 <= a < wanted.len() implies !net.rules.contains(
        #[trigger] wanted[a],
    ) by {
        let r = wanted[a];
        assert(wanted.contains(r));
        if net.rules.contains(r) {
            lemma_mesh_mentions(ifc, eps, r, d);
        }
    }
    lemma_missing_all(net.rules, wanted);
    let plan = added.attach_plan(e.uid);
    assert(plan == wanted);
    assert(added.attach_commands(e.uid).len() == 2 * plan.len());
    assert(plan.take(plan.len() as int) =~= plan);
    let next = join(net, e);
    assert(next.rules == net.rules + wanted);
    lemma_mesh_steps_keep_valid(added, e.uid, added.attach_commands(e.uid).len());
    assert forall|r: RuleView| #[trigger] next.rules.contains(r) <==> in_mesh(ifc, all, r) by {
        if next.rules.contains(r) {
            let a = choose|a: int| 0 <= a < next.rules.len() && next.rules[a] == r;
            if a < net.rules.len() {
                assert(net.rules[a] == r);
                assert(net.rules.contains(r));
                if links_bus(ifc, eps, r) {
                    let i = choose|i: int|
                        0 <= i < eps.len() && (r == (ifc, (#[trigger] eps[i]).device) || r == (
                            eps[i].device,
                            ifc,
                        ));
                    assert(all[i] == eps[i]);
                    assert(links_bus(ifc, all, r));
                } else {
                    let (i, j) = choose|i: int, j: int|
                        0 <= i < eps.len() && 0 <= j < eps.len() && i != j && r == (
                            (#[trigger] eps[i]).device,
                            (#[trigger] eps[j]).device,
                        );
                    assert(all[i] == eps[i] && all[j] == eps[j]);
                    assert(links_pair(all, r));
                }
            } else {
                assert(wanted[a - net.rules.len()] == r);
                assert(wanted.contains(r));
                if r == (ifc, d) || r == (d, ifc) {
                    assert(links_bus(ifc, all, r));
                } else {
                    let i = choose|i: int|
                        0 <= i < eps.len() && (r == ((#[trigger] eps[i]).device, d) || r == (
                            d,
                            eps[i].device,
                        ));
                    assert(all[i] == eps[i]);
                    assert(links_pair(all, r));
                }
            }
        }
        if in_mesh(ifc, all, r) {
            if links_bus(ifc, all, r) {
                let i = choose|i: int|
                    0 <= i < all.len() && (r == (ifc, (#[trigger] all[i]).device) || r == (
                        all[i].device,
                        ifc,
                    ));
                if i < n {
                    assert(all[i] == eps[i]);
                    assert(links_bus(ifc, eps, r));
                    assert(net.rules.contains(r));
                    let a = choose|a: int| 0 <= a < net.rules.len() && net.rules[a] == r;
                    assert(next.rules[a] == r);
                } else {
                    assert(wanted.contains(r));
                    let a = choose|a: int| 0 <= a < wanted.len() && wanted[a] == r;
                    assert(next.rules[net.rules.len() + a] == r);
                }
            } else {
                let (i, j) = choose|i: int, j: int|
                    0 <= i < all.len() && 0 <= j < all.len() && i != j && r == (
                        (#[trigger] all[i]).device,
                        (#[trigger] all[j]).device,
                    );
                if i < n && j < n {
                    assert(all[i] == eps[i] && all[j] == eps[j]);
                    assert(links_pair(eps, r));
                    assert(net.rules.contains(r));
                    let a = choose|a: int| 0 <= a < net.rules.len() && net.rules[a] == r;
                    assert(next.rules[a] == r);
                } else {
                    if i < n {
                        assert(all[i] == eps[i]);
                    }
                    if j < n {
                        assert(all[j] == eps[j]);
                    }
                    assert(wanted.contains(r));
                    let a = choose|a: int| 0 <= a < wanted.len() && wanted[a] == r;
                    assert(next.rules[net.rules.len() + a] == r);
                }
            }
        }
    }
}

/// Endpoints that are added and attached one after another, to a network
/// that had none, end in the full mesh: with `n` endpoints the network
/// holds `n * n + n` rules, two between the bus and each endpoint and two
/// between any two endpoints.
pub proof fn lemma_mesh_size(net: NetworkView, eps: Seq<EndpointView>)
    requires
        net.valid(),
        net.endpoints.len() == 0,
        net.rules.len() == 0,
        distinct_uids(eps),
        separate_devices(net.ifc, eps),
    ensures
        join_all(net, eps).rules.len() == eps.len() * eps.len() + eps.len(),
        join_all(net, eps).endpoints == eps,
        join_all(net, eps).ifc == net.ifc,
        join_all(net, eps).valid(),
        meshed(join_all(net, eps)),
    decreases eps.len(),
{
    if eps.len() == 0 {
        assert(net.endpoints =~= eps);
        assert forall|r: RuleView| #[trigger] net.rules.contains(r) <==> in_mesh(
            net.ifc,
            net.endpoints,
            r,
        ) by {}
    } else {
        let shorter = eps.drop_last();
        let last = eps.last();
        let m = shorter.len() as int;
        assert forall|i: int, j: int| 0 <= i < j < shorter.len() implies shorter[i].uid
            != shorter[j].uid by {
            assert(shorter[i] == eps[i] && shorter[j] == eps[j]);
        }
        assert(separate_devices(net.ifc, shorter)) by {
            assert forall|i: int, j: int| 0 <= i < j < shorter.len() implies shorter[i].device
                != shorter[j].device by {
                assert(shorter[i] == eps[i] && shorter[j] == eps[j]);
            }
            assert forall|i: int| 0 <= i < shorter.len() implies (#[trigger] shorter[i]).device
                != net.ifc by {
                assert(shorter[i] == eps[i]);
            }
        }
        lemma_mesh_size(net, shorter);
        let before = join_all(net, shorter);
        assert(shorter.push(last) =~= eps);
        assert forall|i: int| 0 <= i < before.endpoints.len() implies (
        #[trigger] before.endpoints[i]).uid != last.uid by {
            assert(eps[i] == shorter[i]);
            assert(eps[i].uid != eps[m].uid);
        }
        lemma_join_extends_mesh(before, last);
        assert((m + 1) * (m + 1) + (m + 1) == m * m + m + 2 + 2 * m) by (nonlinear_arith);
    }
}

/// A network with separate devices whose rules are the full mesh of its
/// `n` endpoints holds `n * n + n` rules, however it got there.
pub proof fn lemma_mesh_count(net: NetworkView)
    requires
        net.valid(),
        meshed(net),
        separate_devices(net.ifc, net.endpoints),
    ensures
        net.rules.len() == net.endpoints.len() * net.endpoints.len() + net.endpoints.len(),
{
    let fresh = NetworkView { endpoints: Seq::empty(), rules: Seq::empty(), ..net };
    lemma_mesh_size(fresh, net.endpoints);
    let built = join_all(fresh, net.endpoints);
    assert(net.rules.to_set() =~= built.rules.to_set()) by {
        assert forall|r: RuleView| net.rules.to_set().contains(r) == built.rules.to_set().contains(
            r,
        ) by {
            assert(net.rules.contains(r) <==> in_mesh(net.ifc, net.endpoints, r));
            assert(built.rules.contains(r) <==> in_mesh(built.ifc, built.endpoints, r));
        }
    }
    net.rules.unique_seq_to_set();
    built.rules.unique_seq_to_set();
}

/// Detaching an endpoint from a full mesh, with every command confirmed,
/// leaves the full mesh of the other endpoints: no rule that is left
/// mentions the device of the detached endpoint, and with `n` endpoints
/// before, `(n - 1) * (n - 1) + (n - 1)` rules are left. The endpoint
/// itself stays in the network.
pub proof fn lemma_leave_shrinks_mesh(net: NetworkView, uid: Seq<char>)
    requires
        net.valid(),
        meshed(net),
        separate_devices(net.ifc, net.endpoints),
        net.has_endpoint(uid),
    ensures
        leave(net, uid).valid(),
        leave(net, uid).endpoints == net.endpoints,
        forall|r: RuleView| #[trigger]
            leave(net, uid).rules.contains(r) <==> in_mesh(
                net.ifc,
                net.without_endpoint(uid).endpoints,
                r,
            ),
        forall|r: RuleView| #[trigger]
            leave(net, uid).rules.contains(r) ==> r.0 != net.endpoint(uid).device && r.1
                != net.endpoint(uid).device,
        leave(net, uid).rules.len() == (net.endpoints.len() - 1) * (net.endpoints.len() - 1) + (
        net.endpoints.len() - 1),
{
    let eps = net.endpoints;
    let n = eps.len() as int;
    let ifc = net.ifc;
    let k = find_endpoint(eps, uid).unwrap();
    let e = eps[k];
    let d = e.device;
    let rest = eps.remove(k);
    assert(net.without_endpoint(uid).endpoints == rest);
    assert forall|i: int| 0 <= i < rest.len() implies (#[trigger] rest[i]).uid != e.uid && rest[i]
        == eps[if i < k {
        i
    } else {
        i + 1
    }] by {
        if i < k {
            assert(eps[i].uid != eps[k].uid);
        } else {
            assert(eps[k].uid != eps[i + 1].uid);
        }
    }
    assert(separate_devices(ifc, rest.push(e))) by {
        let all = rest.push(e);
        assert forall|i: int| 0 <= i < all.len() implies #[trigger] all[i] == eps[if i == n - 1 {
            k
        } else if i < k {
            i
        } else {
            i + 1
        }] by {}
        assert forall|i: int, j: int| 0 <= i < j < all.len() implies all[i].device
            != all[j].device by {
            let i0 = if i == n - 1 {
                k
            } else if i < k {
                i
            } else {
                i + 1
            };
            let j0 = if j == n - 1 {
                k
            } else if j < k {
                j
            } else {
                j + 1
            };
            assert(all[i] == eps[i0] && all[j] == eps[j0]);
            if i0 < j0 {
                assert(eps[i0].device != eps[j0].device);
            } else {
                assert(eps[j0].device != eps[i0].device);
            }
        }
        assert forall|i: int| 0 <= i < all.len() implies (#[trigger] all[i]).device != ifc by {
            let i0 = if i == n - 1 {
                k
            } else if i < k {
                i
            } else {
                i + 1
            };
            assert(all[i] == eps[i0]);
        }
    }
    lemma_pair_rules_skip(eps, e, k);
    lemma_pair_rules_all(rest, e);
    lemma_wanted_of_newcomer(ifc, rest, e);
    let wanted = star(ifc, rest, e);
    let pairs = pair_rules(rest, e);
    let unwanted = net.detach_unwanted(e);
    assert(unwanted == pairs + seq![(d, ifc), (ifc, d)]);
    assert(unwanted.len() == 2 * n);
    assert(d != ifc) by {
        assert(eps[k].device != ifc);
    }
    assert forall|a: int| 0 <= a < unwanted.len() implies #[trigger] unwanted[a] == wanted[if a
        < pairs.len() {
        a + 2
    } else if a == pairs.len() {
        1
    } else {
        0
    }] by {}
    assert(unwanted.no_duplicates()) by {
        assert forall|a: int, b: int| 0 <= a < unwanted.len() && 0 <= b < unwanted.len() && a
            != b implies unwanted[a] != unwanted[b] by {
            let a0 = if a < pairs.len() {
                a + 2
            } else if a == pairs.len() {
                1
            } else {
                0
            };
            let b0 = if b < pairs.len() {
                b + 2
            } else if b == pairs.len() {
                1
            } else {
                0
            };
            assert(unwanted[a] == wanted[a0] && unwanted[b] == wanted[b0]);
            assert(wanted[a0] != wanted[b0]);
        }
    }
    assert forall|r: RuleView| #[trigger] unwanted.contains(r) <==> wanted.contains(r) by {
        if unwanted.contains(r) {
            let a = choose|a: int| 0 <= a < unwanted.len() && unwanted[a] == r;
            let a0 = if a < pairs.len() {
                a + 2
            } else if a == pairs.len() {
                1
            } else {
                0
            };
            assert(wanted[a0] == r);
        }
        if wanted.contains(r) {
            let a0 = choose|a0: int| 0 <= a0 < wanted.len() && wanted[a0] == r;
            let a = if a0 >= 2 {
                a0 - 2
            } else if a0 == 1 {
                pairs.len() as int
            } else {
                pairs.len() as int + 1
            };
            assert(unwanted[a] == wanted[a0]);
        }
    }
    assert forall|a: int| 0 <= a < unwanted.len() implies net.rules.contains(
        #[trigger] unwanted[a],
    ) by {
        let r = unwanted[a];
        assert(unwanted.contains(r));
        assert(wanted.contains(r));
        if r == (ifc, d) || r == (d, ifc) {
            assert(eps[k].device == d);
            assert(links_bus(ifc, eps, r));
        } else {
            let i = choose|i: int|
                0 <= i < rest.len() && (r == ((#[trigger] rest[i]).device, d) || r == (
                    d,
                    rest[i].device,
                ));
            let i0 = if i < k {
                i
            } else {
                i + 1
            };
            assert(rest[i] == eps[i0]);
            assert(eps[i0].device == rest[i].device && eps[k].device == d);
            assert(links_pair(eps, r));
        }
    }
    lemma_present_all(net.rules, unwanted);
    let gone = net.detach_plan(uid);
    assert(gone == unwanted);
    assert(net.detach_commands(uid).len() == 2 * gone.len());
    assert(gone.take(gone.len() as int) =~= gone);
    let after = leave(net, uid);
    assert(after.rules == forget_all(net.rules, gone));
    lemma_forget_all(net.rules, gone);
    lemma_forget_all_len(net.rules, gone);
    lemma_mesh_count(net);
    lemma_mesh_steps_keep_valid(net, uid, net.detach_commands(uid).len());
    assert((n - 1) * (n - 1) + (n - 1) == n * n + n - 2 * n) by (nonlinear_arith);
    assert forall|i: int| 0 <= i < rest.len() implies (#[trigger] rest[i]).device != d by {
        let i0 = if i < k {
            i
        } else {
            i + 1
        };
        assert(rest[i] == eps[i0]);
        if i0 < k {
            assert(eps[i0].device != eps[k].device);
        } else {
            assert(eps[k].device != eps[i0].device);
        }
    }
    assert forall|r: RuleView| #[trigger] after.rules.contains(r) <==> in_mesh(ifc, rest, r) by {
        if after.rules.contains(r) {
            assert(net.rules.contains(r) && !gone.contains(r));
            assert(!wanted.contains(r));
            if links_bus(ifc, eps, r) {
                let i = choose|i: int|
                    0 <= i < eps.len() && (r == (ifc, (#[trigger] eps[i]).device) || r == (
                        eps[i].device,
                        ifc,
                    ));
                assert(i != k);
                let i1 = if i < k {
                    i
                } else {
                    i - 1
                };
                assert(rest[i1] == eps[i]);
                assert(links_bus(ifc, rest, r));
            } else {
                let (i, j) = choose|i: int, j: int|
                    0 <= i < eps.len() && 0 <= j < eps.len() && i != j && r == (
                        (#[trigger] eps[i]).device,
                        (#[trigger] eps[j]).device,
                    );
                if i == k {
                    let j1 = if j < k {
                        j
                    } else {
                        j - 1
                    };
                    assert(rest[j1] == eps[j]);
                    assert(r == (d, rest[j1].device));
                    assert(false);
                }
                if j == k {
                    let i1 = if i < k {
                        i
                    } else {
                        i - 1
                    };
                    assert(rest[i1] == eps[i]);
                    assert(r == (rest[i1].device, d));
                    assert(false);
                }
                let i1 = if i < k {
                    i
                } else {
                    i - 1
                };
                let j1 = if j < k {
                    j
                } else {
                    j - 1
                };
                assert(rest[i1] == eps[i] && rest[j1] == eps[j]);
                assert(links_pair(rest, r));
            }
        }
        if in_mesh(ifc, rest, r) {
            lemma_mesh_mentions(ifc, rest, r, d);
            assert(!wanted.contains(r)) by {
                if wanted.contains(r) {
                    if !(r == (ifc, d) || r == (d, ifc)) {
                        let i = choose|i: int|
                            0 <= i < rest.len() && (r == ((#[trigger] rest[i]).device, d) || r == (
                                d,
                                rest[i].device,
                            ));
                    }
                }
            }
            if links_bus(ifc, rest, r) {
                let i = choose|i: int|
                    0 <= i < rest.len() && (r == (ifc, (#[trigger] rest[i]).device) || r == (
                        rest[i].device,
                        ifc,
                    ));
                let i0 = if i < k {
                    i
                } else {
                    i + 1
                };
                assert(rest[i] == eps[i0]);
                assert(links_bus(ifc, eps, r));
            } else {
                let (i, j) = choose|i: int, j: int|
                    0 <= i < rest.len() && 0 <= j < rest.len() && i != j && r == (
                        (#[trigger] rest[i]).device,
                        (#[trigger] rest[j]).device,
                    );
                let i0 = if i < k {
                    i
                } else {
                    i + 1
                };
                let j0 = if j < k {
                    j
                } else {
                    j + 1
                };
                assert(rest[i] == eps[i0] && rest[j] == eps[j0]);
                assert(links_pair(eps, r));
            }
            assert(net.rules.contains(r));
        }
    }
    assert forall|r: RuleView| #[trigger] after.rules.contains(r) implies r.0 != d && r.1 != d by {
        lemma_mesh_mentions(ifc, rest, r, d);
    }
}

/// The rules that pair `e` with the others hold, for every endpoint with
/// another identifier, the rule towards `e` and the rule back.
proof fn lemma_pair_rules_members(eps: Seq<EndpointView>, e: EndpointView, i: int)
    requires
        0 <= i < eps.len(),
        eps[i].uid != e.uid,
    ensures
        pair_rules(eps, e).contains((eps[i].device, e.device)),
        pair_rules(eps, e).contains((e.device, eps[i].device)),
    decreases eps.len(),
{
    let shorter = eps.drop_last();
    let earlier = pair_rules(shorter, e);
    let all = pair_rules(eps, e);
    if i == eps.len() - 1 {
        assert(all[earlier.len() as int] == (eps[i].device, e.device));
        assert(all[earlier.len() as int + 1] == (e.device, eps[i].device));
    } else {
        lemma_pair_rules_members(shorter, e, i);
        assert(shorter[i] == eps[i]);
        let a = choose|a: int| 0 <= a < earlier.len() && earlier[a] == (eps[i].device, e.device);
        let b = choose|b: int| 0 <= b < earlier.len() && earlier[b] == (e.device, eps[i].device);
        assert(all[a] == earlier[a]);
        assert(all[b] == earlier[b]);
    }
}

/// Once every command of an attach was confirmed, the endpoint is linked
/// with the bus and with every other endpoint of the network, in both
/// directions alike, and every rule that was there before still is. This
/// holds whatever the network held before.
pub proof fn lemma_attach_links_both_ways(net: NetworkView, uid: Seq<char>, done: nat)
    requires
        net.has_endpoint(uid),
        done >= net.attach_commands(uid).len(),
    ensures
        net.attached(uid, done).rules.contains((net.ifc, net.endpoint(uid).device)),
        net.attached(uid, done).rules.contains((net.endpoint(uid).device, net.ifc)),
        forall|i: int|
            0 <= i < net.endpoints.len() && (#[trigger] net.endpoints[i]).uid != uid
                ==> net.attached(uid, done).rules.contains(
                (net.endpoints[i].device, net.endpoint(uid).device),
            ) && net.attached(uid, done).rules.contains(
                (net.endpoint(uid).device, net.endpoints[i].device),
            ),
        forall|r: RuleView| #[trigger]
            net.rules.contains(r) ==> net.attached(uid, done).rules.contains(r),
{
    let e = net.endpoint(uid);
    let wanted = net.attach_wanted(e);
    let plan = net.attach_plan(uid);
    let after = net.attached(uid, done);
    assert(net.attach_commands(uid).len() == 2 * plan.len());
    assert(plan.take(plan.len() as int) =~= plan);
    assert(after.rules == net.rules + plan);
    lemma_missing(net.rules, wanted);
    assert forall|r: RuleView| #[trigger] net.rules.contains(r) implies after.rules.contains(r) by {
        let a = choose|a: int| 0 <= a < net.rules.len() && net.rules[a] == r;
        assert(after.rules[a] == r);
    }
    assert forall|r: RuleView| wanted.contains(r) implies after.rules.contains(r) by {
        if !net.rules.contains(r) {
            assert(plan.contains(r));
            let a = choose|a: int| 0 <= a < plan.len() && plan[a] == r;
            assert(after.rules[net.rules.len() + a] == r);
        }
    }
    assert(e.uid == uid);
    assert(wanted[0] == (net.ifc, e.device));
    assert(wanted[1] == (e.device, net.ifc));
    assert(wanted.contains((net.ifc, e.device)));
    assert(wanted.contains((e.device, net.ifc)));
    assert forall|i: int|
        0 <= i < net.endpoints.len() && (#[trigger] net.endpoints[i]).uid
            != uid implies after.rules.contains(
        (net.endpoints[i].device, e.device),
    ) && after.rules.contains((e.device, net.endpoints[i].device)) by {
        lemma_pair_rules_members(net.endpoints, e, i);
        let pairs = pair_rules(net.endpoints, e);
        let a = choose|a: int|
            0 <= a < pairs.len() && pairs[a] == (net.endpoints[i].device, e.device);
        let b = choose|b: int|
            0 <= b < pairs.len() && pairs[b] == (e.device, net.endpoints[i].device);
        assert(wanted[2 + a] == pairs[a]);
        assert(wanted[2 + b] == pairs[b]);
        assert(wanted.contains((net.endpoints[i].device, e.device)));
        assert(wanted.contains((e.device, net.endpoints[i].device)));
    }
}

/// Once every command of a detach was confirmed, no rule links the
/// endpoint with the bus or with any other endpoint of the network, in
/// either direction, and every other rule is still there. This holds
/// whatever the network held before.
pub proof fn lemma_detach_unlinks_both_ways(net: NetworkView, uid: Seq<char>, done: nat)
    requires
        net.has_endpoint(uid),
        done >= net.detach_commands(uid).len(),
    ensures
        !net.detached(uid, done).rules.contains((net.ifc, net.endpoint(uid).device)),
        !net.detached(uid, done).rules.contains((net.endpoint(uid).device, net.ifc)),
        forall|i: int|
            0 <= i < net.endpoints.len() && (#[trigger] net.endpoints[i]).uid != uid
                ==> !net.detached(uid, done).rules.contains(
                (net.endpoints[i].device, net.endpoint(uid).device),
            ) && !net.detached(uid, done).rules.contains(
                (net.endpoint(uid).device, net.endpoints[i].device),
            ),
        forall|r: RuleView| #[trigger]
            net.detached(uid, done).rules.contains(r) <==> net.rules.contains(r)
                && !net.detach_unwanted(net.endpoint(uid)).contains(r),
{
    let e = net.endpoint(uid);
    let unwanted = net.detach_unwanted(e);
    let gone = net.detach_plan(uid);
    let after = net.detached(uid, done);
    let pairs = pair_rules(net.endpoints, e);
    assert(net.detach_commands(uid).len() == 2 * gone.len());
    assert(gone.take(gone.len() as int) =~= gone);
    assert(after.rules == forget_all(net.rules, gone));
    lemma_present(net.rules, unwanted);
    lemma_forget_all(net.rules, gone);
    assert(e.uid == uid);
    assert(unwanted[pairs.len() as int] == (e.device, net.ifc));
    assert(unwanted[pairs.len() as int + 1] == (net.ifc, e.device));
    assert(unwanted.contains((e.device, net.ifc)));
    assert(unwanted.contains((net.ifc, e.device)));
    assert forall|i: int|
        0 <= i < net.endpoints.len() && (#[trigger] net.endpoints[i]).uid
            != uid implies !after.rules.contains(
        (net.endpoints[i].device, e.device),
    ) && !after.rules.contains((e.device, net.endpoints[i].device)) by {
        lemma_pair_rules_members(net.endpoints, e, i);
        let a = choose|a: int|
            0 <= a < pairs.len() && pairs[a] == (net.endpoints[i].device, e.device);
        let b = choose|b: int|
            0 <= b < pairs.len() && pairs[b] == (e.device, net.endpoints[i].device);
        assert(unwanted[a] == pairs[a]);
        assert(unwanted[b] == pairs[b]);
        assert(unwanted.contains((net.endpoints[i].device, e.device)));
        assert(unwanted.contains((e.device, net.endpoints[i].device)));
    }
}

/// An attach that the host carried out in part can be taken up again: the
/// next attach of the same endpoint asks for the rules that are still
/// missing and for no other, and once the host has confirmed those, the
/// network holds what one attach without failure would have left.
pub proof fn lemma_attach_resumes(net: NetworkView, uid: Seq<char>, done: nat)
    ensures
        net.attached(uid, done).attach_plan(uid) == net.attach_plan(uid).skip(
            settled(done, net.attach_plan(uid).len()) as int,
        ),
        enter(net.attached(uid, done), uid) == enter(net, uid),
{
    let plan = net.attach_plan(uid);
    let k = settled(done, plan.len()) as int;
    let part = net.attached(uid, done);
    if net.has_endpoint(uid) {
        lemma_missing_resumes(net.rules, net.attach_wanted(net.endpoint(uid)), k);
    } else {
        assert(plan.skip(0) =~= plan);
    }
    let rest = part.attach_plan(uid);
    assert(rest == plan.skip(k));
    assert(part.attach_commands(uid).len() == 2 * rest.len());
    assert(net.attach_commands(uid).len() == 2 * plan.len());
    assert(rest.take(rest.len() as int) =~= rest);
    assert(plan.take(plan.len() as int) =~= plan);
    assert(net.rules + plan.take(k) + plan.skip(k) =~= net.rules + plan);
}

/// A detach that the host carried out in part can be taken up again: the
/// next detach of the same endpoint asks to remove the rules that are
/// still there and no other, and once the host has confirmed that, the
/// network holds what one detach without failure would have left.
pub proof fn lemma_detach_resumes(net: NetworkView, uid: Seq<char>, done: nat)
    ensures
        net.detached(uid, done).detach_plan(uid) == net.detach_plan(uid).skip(
            settled(done, net.detach_plan(uid).len()) as int,
        ),
        leave(net.detached(uid, done), uid) == leave(net, uid),
{
    let plan = net.detach_plan(uid);
    let k = settled(done, plan.len()) as int;
    let part = net.detached(uid, done);
    if net.has_endpoint(uid) {
        lemma_present_resumes(net.rules, net.detach_unwanted(net.endpoint(uid)), k);
    } else {
        assert(plan.take(0) =~= Seq::empty());
        assert(plan.skip(0) =~= plan);
    }
    let rest = part.detach_plan(uid);
    assert(rest == plan.skip(k));
    assert(part.detach_commands(uid).len() == 2 * rest.len());
    assert(net.detach_commands(uid).len() == 2 * plan.len());
    assert(rest.take(rest.len() as int) =~= rest);
    assert(plan.take(plan.len() as int) =~= plan);
    crate::rules::lemma_forget_all_append(net.rules, plan.take(k), plan.skip(k));
    assert(plan.take(k) + plan.skip(k) =~= plan);
}

/// Attaching an endpoint a second time asks nothing of the host and
/// changes nothing, whatever the network holds.
pub proof fn lemma_attach_twice(net: NetworkView, uid: Seq<char>, done: nat)
    ensures
        enter(net, uid).attach_commands(uid) == Seq::<crate::host::OsCommandView>::empty(),
        enter(net, uid).attached(uid, done) == enter(net, uid),
{
    let once = enter(net, uid);
    lemma_attach_resumes(net, uid, net.attach_commands(uid).len());
    let plan = net.attach_plan(uid);
    assert(net.attach_commands(uid).len() == 2 * plan.len());
    assert(plan.skip(plan.len() as int) =~= Seq::empty());
    assert(once.attach_plan(uid) =~= Seq::empty());
    assert(once.attach_commands(uid) =~= Seq::empty());
    assert(once.attach_plan(uid).take(0) =~= Seq::empty());
    assert(once.rules + Seq::<RuleView>::empty() =~= once.rules);
}

/// Detaching an endpoint a second time asks nothing of the host and
/// changes nothing, whatever the network holds.
pub proof fn lemma_detach_twice(net: NetworkView, uid: Seq<char>, done: nat)
    ensures
        leave(net, uid).detach_commands(uid) == Seq::<crate::host::OsCommandView>::empty(),
        leave(net, uid).detached(uid, done) == leave(net, uid),
{
    let once = leave(net, uid);
    lemma_detach_resumes(net, uid, net.detach_commands(uid).len());
    let plan = net.detach_plan(uid);
    assert(net.detach_commands(uid).len() == 2 * plan.len());
    assert(plan.skip(plan.len() as int) =~= Seq::empty());
    assert(once.detach_plan(uid) =~= Seq::empty());
    assert(once.detach_commands(uid) =~= Seq::empty());
    assert(once.detach_plan(uid).take(0) =~= Seq::empty());
}

} // verus!
