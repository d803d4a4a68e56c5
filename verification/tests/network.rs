use rustyvxcan::endpoint::Endpoint;
use rustyvxcan::error::TopologyError;
use rustyvxcan::host::InterfaceKind;
use rustyvxcan::host::OsCommand;
use rustyvxcan::network::Network;

fn s(text: &str) -> String {
    String::from(text)
}

fn rule(src: &str, dst: &str) -> (String, String) {
    (s(src), s(dst))
}

fn install(src: &str, dst: &str, extended: bool) -> OsCommand {
    OsCommand::InstallForwardRule { src: s(src), dst: s(dst), extended }
}

fn remove(src: &str, dst: &str, extended: bool) -> OsCommand {
    OsCommand::RemoveForwardRule { src: s(src), dst: s(dst), extended }
}

/// A network `vcan0` that the library created.
fn network() -> Network {
    Network::new(s("vcan"), s("vcanp"), 0, &Vec::new(), 2)
}

/// Adds the endpoint `uid`, as a host with no interfaces would have it.
fn add(net: &mut Network, uid: &str) {
    net.endpoint_add(Endpoint::new(s(uid), &Vec::new(), 2));
}

/// Attaches `uid` on a host that confirms every command.
fn attach(net: &mut Network, uid: &str) {
    let done = net.endpoint_attach_commands(&s(uid)).len();
    net.endpoint_attach(s(uid), String::new(), String::new(), done).unwrap();
}

/// Detaches `uid` on a host that confirms every command.
fn detach(net: &mut Network, uid: &str) {
    let done = net.endpoint_detach_commands(&s(uid)).len();
    net.endpoint_detach(s(uid), done).unwrap();
}

const A: &str = "aaaaaaaaaaaa";
const B: &str = "bbbbbbbbbbbb";
const C: &str = "cccccccccccc";
const DA: &str = "vxcanaaaaaaaa";
const DB: &str = "vxcanbbbbbbbb";
const DC: &str = "vxcancccccccc";

#[test]
fn a_new_network_creates_its_bus() {
    let plan = Network::create_commands(&s("vcan"), 3, &vec![s("lo"), s("vcan0")]);
    assert_eq!(
        plan,
        vec![OsCommand::CreateBus { device: s("vcan3") }, OsCommand::SetUp { name: s("vcan3") }]
    );
    let net = Network::new(s("vcan"), s("vcanp"), 3, &vec![s("lo"), s("vcan0")], 2);
    assert!(net.created());
    assert_eq!(net.ifc(), "vcan3");
    assert_eq!(net.device(), "vcan");
    assert_eq!(net.peer(), "vcanp");
    assert_eq!(net.canid(), 3);
    assert!(net.endpoints().is_empty());
    assert!(net.rules().is_empty());
}

#[test]
fn a_network_whose_bus_was_there_does_not_own_it() {
    let ifcs = vec![s("vcan0")];
    assert_eq!(Network::create_commands(&s("vcan"), 0, &ifcs), Vec::new());
    let net = Network::new(s("vcan"), s("vcanp"), 0, &ifcs, 0);
    assert!(!net.created());
    assert_eq!(net.teardown_commands(), Vec::new());
}

#[test]
fn a_network_whose_bus_could_not_be_created_does_not_own_it() {
    let net = Network::new(s("vcan"), s("vcanp"), 0, &Vec::new(), 0);
    assert!(!net.created());
    let net = Network::new(s("vcan"), s("vcanp"), 0, &Vec::new(), 1);
    assert!(net.created());
}

#[test]
fn attaching_the_first_endpoint_links_it_with_the_bus() {
    let mut net = network();
    add(&mut net, A);
    assert_eq!(
        net.endpoint_attach_commands(&s(A)),
        vec![
            install("vcan0", DA, false),
            install("vcan0", DA, true),
            install(DA, "vcan0", false),
            install(DA, "vcan0", true),
        ]
    );
    attach(&mut net, A);
    assert_eq!(net.rules(), &vec![rule("vcan0", DA), rule(DA, "vcan0")]);
}

#[test]
fn mesh_size_one_two_three() {
    let mut net = network();
    add(&mut net, A);
    attach(&mut net, A);
    assert_eq!(net.rules().len(), 2);
    add(&mut net, B);
    attach(&mut net, B);
    assert_eq!(net.rules().len(), 6);
    add(&mut net, C);
    attach(&mut net, C);
    assert_eq!(net.rules().len(), 12);
}

#[test]
fn mesh_size_of_ten() {
    let mut net = network();
    for i in 0..10 {
        let uid = format!("{:08}-endpoint", i);
        add(&mut net, &uid);
        attach(&mut net, &uid);
        let n = i + 1;
        assert_eq!(net.rules().len(), n * n + n);
    }
}

#[test]
fn mesh_size_does_not_depend_on_when_endpoints_were_added() {
    let mut net = network();
    add(&mut net, A);
    add(&mut net, B);
    add(&mut net, C);
    attach(&mut net, A);
    // A is linked with the bus and with both endpoints that are there.
    assert_eq!(net.rules().len(), 6);
    attach(&mut net, B);
    assert_eq!(net.rules().len(), 10);
    attach(&mut net, C);
    assert_eq!(net.rules().len(), 12);
}

#[test]
fn the_mesh_of_three_holds_every_pair_in_both_directions() {
    let mut net = network();
    for uid in [A, B, C] {
        add(&mut net, uid);
        attach(&mut net, uid);
    }
    let names = ["vcan0", DA, DB, DC];
    for x in names {
        for y in names {
            let there = net.rules().contains(&rule(x, y));
            assert_eq!(there, x != y, "{} -> {}", x, y);
        }
    }
}

#[test]
fn attaching_the_second_endpoint_installs_in_the_order_of_the_plan() {
    let mut net = network();
    add(&mut net, A);
    attach(&mut net, A);
    add(&mut net, B);
    assert_eq!(
        net.endpoint_attach_commands(&s(B)),
        vec![
            install("vcan0", DB, false),
            install("vcan0", DB, true),
            install(DB, "vcan0", false),
            install(DB, "vcan0", true),
            install(DA, DB, false),
            install(DA, DB, true),
            install(DB, DA, false),
            install(DB, DA, true),
        ]
    );
}

#[test]
fn attach_returns_the_join_descriptor() {
    let mut net = network();
    add(&mut net, A);
    let done = net.endpoint_attach_commands(&s(A)).len();
    let join = net.endpoint_attach(s(A), s("ns"), String::new(), done).unwrap();
    assert_eq!(join.src_name(), "vxcanaaaaaaaap");
    assert_eq!(join.dst_prefix(), "vcanp");
}

#[test]
fn attach_prefers_the_prefix_of_the_request() {
    let mut net = network();
    add(&mut net, A);
    let done = net.endpoint_attach_commands(&s(A)).len();
    let join = net.endpoint_attach(s(A), s("ns"), s("can"), done).unwrap();
    assert_eq!(join.src_name(), "vxcanaaaaaaaap");
    assert_eq!(join.dst_prefix(), "can");
    let copy = join.clone();
    assert_eq!(copy.src_name(), join.src_name());
    assert_eq!(copy.dst_prefix(), join.dst_prefix());
}

#[test]
fn attach_of_an_unknown_endpoint_is_not_found() {
    let mut net = network();
    add(&mut net, A);
    attach(&mut net, A);
    assert_eq!(net.endpoint_attach_commands(&s(B)), Vec::new());
    let r = net.endpoint_attach(s(B), String::new(), String::new(), 0);
    assert_eq!(r.err(), Some(TopologyError::EndpointNotFound));
    assert_eq!(net.rules().len(), 2);
    assert_eq!(net.endpoints().len(), 1);
}

#[test]
fn attach_twice_asks_nothing_the_second_time() {
    let mut net = network();
    add(&mut net, A);
    add(&mut net, B);
    attach(&mut net, A);
    let before = net.rules().clone();
    assert_eq!(net.endpoint_attach_commands(&s(A)), Vec::new());
    let join = net.endpoint_attach(s(A), String::new(), String::new(), 0).unwrap();
    assert_eq!(join.dst_prefix(), "vcanp");
    assert_eq!(net.rules(), &before);
}

#[test]
fn a_rule_counts_only_when_both_commands_were_confirmed() {
    for (done, rules) in [(0, 0), (1, 0), (2, 1), (3, 1)] {
        let mut net = network();
        add(&mut net, A);
        let r = net.endpoint_attach(s(A), String::new(), String::new(), done);
        assert_eq!(r.err(), Some(TopologyError::CommandFailed { index: done }));
        assert_eq!(net.rules().len(), rules, "after {} commands", done);
    }
    let mut net = network();
    add(&mut net, A);
    assert!(net.endpoint_attach(s(A), String::new(), String::new(), 4).is_ok());
    assert_eq!(net.rules().len(), 2);
}

#[test]
fn more_confirmations_than_commands_count_as_all() {
    let mut net = network();
    add(&mut net, A);
    assert!(net.endpoint_attach(s(A), String::new(), String::new(), usize::MAX).is_ok());
    assert_eq!(net.rules().len(), 2);
}

#[test]
fn an_attach_that_failed_half_way_is_finished_by_a_retry() {
    let mut net = network();
    add(&mut net, A);
    attach(&mut net, A);
    add(&mut net, B);
    // The host confirms the first five commands: two rules and a half.
    let r = net.endpoint_attach(s(B), String::new(), String::new(), 5);
    assert_eq!(r.err(), Some(TopologyError::CommandFailed { index: 5 }));
    assert_eq!(
        net.rules(),
        &vec![rule("vcan0", DA), rule(DA, "vcan0"), rule("vcan0", DB), rule(DB, "vcan0")]
    );
    // The retry asks for what is missing and for nothing else.
    assert_eq!(
        net.endpoint_attach_commands(&s(B)),
        vec![
            install(DA, DB, false),
            install(DA, DB, true),
            install(DB, DA, false),
            install(DB, DA, true),
        ]
    );
    attach(&mut net, B);
    assert_eq!(net.rules().len(), 6);
}

#[test]
fn detach_symmetry() {
    let mut net = network();
    for uid in [A, B, C] {
        add(&mut net, uid);
        attach(&mut net, uid);
    }
    detach(&mut net, B);
    assert_eq!(net.rules().len(), 6);
    for (src, dst) in net.rules() {
        assert_ne!(src, DB);
        assert_ne!(dst, DB);
    }
    let names = ["vcan0", DA, DC];
    for x in names {
        for y in names {
            assert_eq!(net.rules().contains(&rule(x, y)), x != y, "{} -> {}", x, y);
        }
    }
    // The endpoint itself stays.
    assert_eq!(net.endpoints().len(), 3);
    assert!(net.endpoint(&s(B)).is_some());
}

#[test]
fn detach_removes_in_the_order_of_the_plan() {
    let mut net = network();
    for uid in [A, B] {
        add(&mut net, uid);
        attach(&mut net, uid);
    }
    assert_eq!(
        net.endpoint_detach_commands(&s(A)),
        vec![
            remove(DB, DA, false),
            remove(DB, DA, true),
            remove(DA, DB, false),
            remove(DA, DB, true),
            remove(DA, "vcan0", false),
            remove(DA, "vcan0", true),
            remove("vcan0", DA, false),
            remove("vcan0", DA, true),
        ]
    );
    detach(&mut net, A);
    assert_eq!(net.rules(), &vec![rule("vcan0", DB), rule(DB, "vcan0")]);
}

#[test]
fn detach_twice_asks_nothing_the_second_time() {
    let mut net = network();
    for uid in [A, B, C] {
        add(&mut net, uid);
        attach(&mut net, uid);
    }
    assert_eq!(net.endpoint_detach_commands(&s(B)).len(), 12);
    detach(&mut net, B);
    let before = net.rules().clone();
    assert_eq!(net.endpoint_detach_commands(&s(B)), Vec::new());
    assert_eq!(net.endpoint_detach(s(B), 0), Ok(()));
    assert_eq!(net.rules(), &before);
}

#[test]
fn detach_of_an_endpoint_that_was_never_attached_asks_nothing() {
    let mut net = network();
    add(&mut net, A);
    assert_eq!(net.endpoint_detach_commands(&s(A)), Vec::new());
    assert_eq!(net.endpoint_detach(s(A), 0), Ok(()));
}

#[test]
fn detach_after_a_partial_attach_removes_what_was_installed() {
    let mut net = network();
    add(&mut net, A);
    attach(&mut net, A);
    add(&mut net, B);
    let _ = net.endpoint_attach(s(B), String::new(), String::new(), 4);
    assert_eq!(net.rules().len(), 4);
    assert_eq!(
        net.endpoint_detach_commands(&s(B)),
        vec![
            remove(DB, "vcan0", false),
            remove(DB, "vcan0", true),
            remove("vcan0", DB, false),
            remove("vcan0", DB, true),
        ]
    );
    detach(&mut net, B);
    assert_eq!(net.rules(), &vec![rule("vcan0", DA), rule(DA, "vcan0")]);
}

#[test]
fn a_rule_is_struck_off_only_when_both_removals_were_confirmed() {
    for (done, left) in [(0, 2), (1, 2), (2, 1), (3, 1)] {
        let mut net = network();
        add(&mut net, A);
        attach(&mut net, A);
        let r = net.endpoint_detach(s(A), done);
        assert_eq!(r, Err(TopologyError::CommandFailed { index: done }));
        assert_eq!(net.rules().len(), left, "after {} commands", done);
    }
}

#[test]
fn detach_of_an_unknown_endpoint_is_not_found() {
    let mut net = network();
    add(&mut net, A);
    attach(&mut net, A);
    assert_eq!(net.endpoint_detach_commands(&s(B)), Vec::new());
    assert_eq!(net.endpoint_detach(s(B), 0), Err(TopologyError::EndpointNotFound));
    assert_eq!(net.rules().len(), 2);
}

#[test]
fn adding_an_endpoint_again_hands_back_the_old_one() {
    let mut net = network();
    assert!(net.endpoint_add(Endpoint::new(s(A), &Vec::new(), 2)).is_none());
    assert!(net.endpoint_add(Endpoint::new(s(B), &Vec::new(), 2)).is_none());
    let old = net.endpoint_add(Endpoint::new(s(A), &vec![s(DA)], 0)).unwrap();
    assert!(old.created());
    assert_eq!(old.uid(), A);
    assert_eq!(net.endpoints().len(), 2);
    // The new endpoint stands where the old one stood, and owns nothing.
    assert_eq!(net.endpoints()[0].uid(), A);
    assert!(!net.endpoints()[0].created());
    assert_eq!(net.endpoints()[1].uid(), B);
}

#[test]
fn removing_an_endpoint_hands_it_back_and_keeps_the_rules() {
    let mut net = network();
    for uid in [A, B] {
        add(&mut net, uid);
        attach(&mut net, uid);
    }
    let gone = net.endpoint_remove(s(A)).unwrap();
    assert_eq!(gone.uid(), A);
    assert_eq!(net.endpoints().len(), 1);
    assert_eq!(net.rules().len(), 6);
    assert!(net.endpoint_remove(s(A)).is_none());
    assert!(net.endpoint(&s(A)).is_none());
    assert_eq!(net.endpoint(&s(B)).unwrap().device(), DB);
}

#[test]
fn endpoints_with_the_same_device_share_their_rules() {
    // Both identifiers begin with the same eight bytes.
    let mut net = network();
    add(&mut net, "samestart-one");
    add(&mut net, "samestart-two");
    attach(&mut net, "samestart-one");
    // Bus both ways, and the device with itself, once.
    assert_eq!(
        net.rules(),
        &vec![
            rule("vcan0", "vxcansamestar"),
            rule("vxcansamestar", "vcan0"),
            rule("vxcansamestar", "vxcansamestar"),
        ]
    );
    attach(&mut net, "samestart-two");
    assert_eq!(net.rules().len(), 3);
}

#[test]
fn teardown_removes_rules_then_endpoints_then_the_bus() {
    let mut net = network();
    add(&mut net, A);
    attach(&mut net, A);
    // An endpoint whose interface was there before is not torn down.
    net.endpoint_add(Endpoint::new(s(B), &vec![s(DB)], 0));
    assert_eq!(
        net.teardown_commands(),
        vec![
            remove("vcan0", DA, false),
            remove("vcan0", DA, true),
            remove(DA, "vcan0", false),
            remove(DA, "vcan0", true),
            OsCommand::SetDown { name: s(DA) },
            OsCommand::DeleteInterface { name: s(DA), kind: InterfaceKind::Tunnel },
            OsCommand::SetDown { name: s("vcan0") },
            OsCommand::DeleteInterface { name: s("vcan0"), kind: InterfaceKind::Bus },
        ]
    );
}
