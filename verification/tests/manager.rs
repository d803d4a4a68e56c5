use rustyvxcan::error::TopologyError;
use rustyvxcan::host::InterfaceKind;
use rustyvxcan::host::OsCommand;
use rustyvxcan::manager::command_outcome;
use rustyvxcan::manager::DiscoveredNetwork;
use rustyvxcan::manager::NetworkManager;

fn s(text: &str) -> String {
    String::from(text)
}

const A: &str = "aaaaaaaaaaaa";
const B: &str = "bbbbbbbbbbbb";
const C: &str = "cccccccccccc";
const DA: &str = "vxcanaaaaaaaa";
const DB: &str = "vxcanbbbbbbbb";

/// A host that holds the interfaces that were created on it and confirms
/// every command.
struct Host {
    ifcs: Vec<String>,
    log: Vec<OsCommand>,
}

impl Host {
    fn new() -> Host {
        Host { ifcs: Vec::new(), log: Vec::new() }
    }

    fn run(&mut self, plan: &Vec<OsCommand>) -> usize {
        for c in plan {
            match c {
                OsCommand::CreateBus { device } => self.ifcs.push(device.clone()),
                OsCommand::CreateTunnelPair { device, peer } => {
                    self.ifcs.push(device.clone());
                    self.ifcs.push(peer.clone());
                }
                OsCommand::DeleteInterface { name, kind } => {
                    let peer = format!("{}p", name);
                    self.ifcs.retain(|i| {
                        i != name && !(*kind == InterfaceKind::Tunnel && *i == peer)
                    });
                }
                _ => {}
            }
            self.log.push(c.clone());
        }
        plan.len()
    }
}

fn create_network(mgr: &mut NetworkManager, host: &mut Host, uid: &str, options: &str) {
    let ifcs = host.ifcs.clone();
    let plan = mgr.network_create_commands(&s(uid), &s(options), &ifcs);
    let done = host.run(&plan);
    assert_eq!(mgr.network_create(s(uid), s(options), &ifcs, done), Ok(()));
}

fn create_endpoint(mgr: &mut NetworkManager, host: &mut Host, nuid: &str, epuid: &str) {
    let ifcs = host.ifcs.clone();
    let plan = mgr.endpoint_create_commands(&s(nuid), &s(epuid), &ifcs);
    let done = host.run(&plan);
    assert_eq!(mgr.endpoint_create(s(nuid), s(epuid), &ifcs, done), Ok(()));
}

fn attach(mgr: &mut NetworkManager, host: &mut Host, nuid: &str, epuid: &str) {
    let plan = mgr.endpoint_attach_commands(&s(nuid), &s(epuid));
    let done = host.run(&plan);
    assert!(mgr.endpoint_attach(s(nuid), s(epuid), s("sandbox"), s("{}"), done).is_ok());
}

fn detach(mgr: &mut NetworkManager, host: &mut Host, nuid: &str, epuid: &str) {
    let plan = mgr.endpoint_detach_commands(&s(nuid), &s(epuid));
    let done = host.run(&plan);
    assert_eq!(mgr.endpoint_detach(s(nuid), s(epuid), done), Ok(()));
}

fn rule_count(mgr: &NetworkManager, nuid: &str) -> usize {
    mgr.network(&s(nuid)).unwrap().rules().len()
}

/// A registry with the network `n1` and the endpoints A and B, attached.
fn meshed(host: &mut Host) -> NetworkManager {
    let mut mgr = NetworkManager::new();
    create_network(&mut mgr, host, "n1", "{}");
    for uid in [A, B] {
        create_endpoint(&mut mgr, host, "n1", uid);
        attach(&mut mgr, host, "n1", uid);
    }
    mgr
}

#[test]
fn command_outcome_tells_success_from_the_first_failure() {
    assert_eq!(command_outcome(0, 0), Ok(()));
    assert_eq!(command_outcome(2, 2), Ok(()));
    assert_eq!(command_outcome(3, 2), Ok(()));
    assert_eq!(command_outcome(1, 2), Err(TopologyError::CommandFailed { index: 1 }));
    assert_eq!(command_outcome(0, 4), Err(TopologyError::CommandFailed { index: 0 }));
}

#[test]
fn a_new_registry_is_empty() {
    let mgr = NetworkManager::new();
    assert!(mgr.network(&s("n1")).is_none());
    assert!(mgr.network(&String::new()).is_none());
}

#[test]
fn create_network_with_unreadable_options_uses_the_defaults() {
    let mut host = Host::new();
    let mut mgr = NetworkManager::new();
    create_network(&mut mgr, &mut host, "n1", "this is no json");
    let net = mgr.network(&s("n1")).unwrap();
    assert_eq!(net.device(), "vcan");
    assert_eq!(net.peer(), "vcanp");
    assert_eq!(net.canid(), 0);
    assert_eq!(net.ifc(), "vcan0");
    assert!(net.created());
    assert_eq!(
        host.log,
        vec![OsCommand::CreateBus { device: s("vcan0") }, OsCommand::SetUp { name: s("vcan0") }]
    );
}

#[test]
fn create_network_with_absent_options_uses_the_defaults() {
    let mut host = Host::new();
    let mut mgr = NetworkManager::new();
    create_network(&mut mgr, &mut host, "n1", "null");
    let net = mgr.network(&s("n1")).unwrap();
    assert_eq!((net.device().as_str(), net.peer().as_str(), net.canid()), ("vcan", "vcanp", 0));
}

#[test]
fn create_network_reads_its_options() {
    let mut host = Host::new();
    let mut mgr = NetworkManager::new();
    create_network(
        &mut mgr,
        &mut host,
        "n1",
        r#"{"vxcan.dev":"bus","vxcan.peer":"can","vxcan.id":"12"}"#,
    );
    let net = mgr.network(&s("n1")).unwrap();
    assert_eq!(net.device(), "bus");
    assert_eq!(net.peer(), "can");
    assert_eq!(net.canid(), 12);
    assert_eq!(net.ifc(), "bus12");
    assert_eq!(host.ifcs, vec![s("bus12")]);
}

#[test]
fn create_network_registers_even_when_the_host_fails() {
    let mut mgr = NetworkManager::new();
    let ifcs = Vec::new();
    let r = mgr.network_create(s("n1"), s("{}"), &ifcs, 0);
    assert_eq!(r, Err(TopologyError::CommandFailed { index: 0 }));
    assert!(!mgr.network(&s("n1")).unwrap().created());
    let r = mgr.network_create(s("n2"), s("{}"), &ifcs, 1);
    assert_eq!(r, Err(TopologyError::CommandFailed { index: 1 }));
    assert!(mgr.network(&s("n2")).unwrap().created());
}

#[test]
fn two_networks_on_one_bus_share_it_and_only_the_first_owns_it() {
    let mut host = Host::new();
    let mut mgr = NetworkManager::new();
    create_network(&mut mgr, &mut host, "n1", "{}");
    create_network(&mut mgr, &mut host, "n2", "{}");
    assert!(mgr.network(&s("n1")).unwrap().created());
    assert!(!mgr.network(&s("n2")).unwrap().created());
    assert_eq!(host.log.len(), 2);
}

#[test]
fn creating_a_network_again_replaces_it_and_tears_the_old_one_down() {
    let mut host = Host::new();
    let mut mgr = meshed(&mut host);
    host.log.clear();
    let ifcs = host.ifcs.clone();
    let plan = mgr.network_create_commands(&s("n1"), &s(r#"{"vxcan.id":"1"}"#), &ifcs);
    // The new bus, then the six rules, the two endpoints and the bus of the
    // old network.
    assert_eq!(plan.len(), 2 + 12 + 4 + 2);
    assert_eq!(plan[0], OsCommand::CreateBus { device: s("vcan1") });
    assert_eq!(
        plan[19],
        OsCommand::DeleteInterface { name: s("vcan0"), kind: InterfaceKind::Bus }
    );
    let done = host.run(&plan);
    assert_eq!(mgr.network_create(s("n1"), s(r#"{"vxcan.id":"1"}"#), &ifcs, done), Ok(()));
    let net = mgr.network(&s("n1")).unwrap();
    assert_eq!(net.ifc(), "vcan1");
    assert!(net.endpoints().is_empty());
    assert!(net.rules().is_empty());
    assert_eq!(host.ifcs, vec![s("vcan1")]);
}

#[test]
fn delete_network_tears_everything_down() {
    let mut host = Host::new();
    let mut mgr = meshed(&mut host);
    let plan = mgr.network_delete_commands(&s("n1"));
    assert_eq!(plan.len(), 12 + 4 + 2);
    let done = host.run(&plan);
    assert_eq!(mgr.network_delete(s("n1"), done), Ok(()));
    assert!(mgr.network(&s("n1")).is_none());
    assert!(host.ifcs.is_empty());
}

#[test]
fn delete_network_reports_a_failed_command_and_still_forgets_the_network() {
    let mut host = Host::new();
    let mut mgr = meshed(&mut host);
    assert_eq!(mgr.network_delete(s("n1"), 3), Err(TopologyError::CommandFailed { index: 3 }));
    assert!(mgr.network(&s("n1")).is_none());
}

#[test]
fn delete_of_an_unknown_network_is_not_found_and_changes_nothing() {
    let mut host = Host::new();
    let mut mgr = meshed(&mut host);
    assert_eq!(mgr.network_delete_commands(&s("nope")), Vec::new());
    assert_eq!(mgr.network_delete(s("nope"), 0), Err(TopologyError::NetworkNotFound));
    assert_eq!(rule_count(&mgr, "n1"), 6);
    assert_eq!(mgr.network(&s("n1")).unwrap().endpoints().len(), 2);
}

#[test]
fn attach_to_an_unknown_network_is_not_found_and_changes_nothing() {
    let mut host = Host::new();
    let mut mgr = meshed(&mut host);
    let before = mgr.network(&s("n1")).unwrap().rules().clone();
    assert_eq!(mgr.endpoint_attach_commands(&s("nope"), &s(A)), Vec::new());
    let r = mgr.endpoint_attach(s("nope"), s(A), s("sandbox"), s("{}"), 0);
    assert_eq!(r.err(), Some(TopologyError::NetworkNotFound));
    assert_eq!(mgr.network(&s("n1")).unwrap().rules(), &before);
    assert!(mgr.network(&s("nope")).is_none());
}

#[test]
fn detach_from_an_unknown_network_is_not_found_and_changes_nothing() {
    let mut host = Host::new();
    let mut mgr = meshed(&mut host);
    let before = mgr.network(&s("n1")).unwrap().rules().clone();
    assert_eq!(mgr.endpoint_detach_commands(&s("nope"), &s(A)), Vec::new());
    assert_eq!(mgr.endpoint_detach(s("nope"), s(A), 0), Err(TopologyError::NetworkNotFound));
    assert_eq!(mgr.network(&s("n1")).unwrap().rules(), &before);
}

#[test]
fn attach_and_detach_of_an_unknown_endpoint_are_not_found() {
    let mut host = Host::new();
    let mut mgr = meshed(&mut host);
    let r = mgr.endpoint_attach(s("n1"), s(C), s("sandbox"), s("{}"), 0);
    assert_eq!(r.err(), Some(TopologyError::EndpointNotFound));
    assert_eq!(mgr.endpoint_detach(s("n1"), s(C), 0), Err(TopologyError::EndpointNotFound));
    assert_eq!(mgr.endpoint_delete(s("n1"), s(C), 0), Err(TopologyError::EndpointNotFound));
    assert_eq!(rule_count(&mgr, "n1"), 6);
    assert_eq!(mgr.network(&s("n1")).unwrap().endpoints().len(), 2);
}

#[test]
fn an_endpoint_for_an_unknown_network_is_made_but_not_kept() {
    let mut host = Host::new();
    let mut mgr = meshed(&mut host);
    let ifcs = host.ifcs.clone();
    let plan = mgr.endpoint_create_commands(&s("nope"), &s(C), &ifcs);
    assert_eq!(plan.len(), 2);
    assert_eq!(
        mgr.endpoint_create(s("nope"), s(C), &ifcs, plan.len()),
        Err(TopologyError::NetworkNotFound)
    );
    assert!(mgr.network(&s("nope")).is_none());
    assert_eq!(mgr.network(&s("n1")).unwrap().endpoints().len(), 2);
}

#[test]
fn the_mesh_grows_as_endpoints_join() {
    let mut host = Host::new();
    let mut mgr = NetworkManager::new();
    create_network(&mut mgr, &mut host, "n1", "{}");
    for (n, uid) in [A, B, C].iter().enumerate() {
        create_endpoint(&mut mgr, &mut host, "n1", uid);
        attach(&mut mgr, &mut host, "n1", uid);
        assert_eq!(rule_count(&mgr, "n1"), (n + 1) * (n + 1) + (n + 1));
    }
    // Two commands for each rule, and none twice.
    let installs = host
        .log
        .iter()
        .filter(|c| matches!(c, OsCommand::InstallForwardRule { .. }))
        .count();
    assert_eq!(installs, 24);
}

#[test]
fn detaching_one_of_three_leaves_the_mesh_of_two() {
    let mut host = Host::new();
    let mut mgr = meshed(&mut host);
    create_endpoint(&mut mgr, &mut host, "n1", C);
    attach(&mut mgr, &mut host, "n1", C);
    assert_eq!(rule_count(&mgr, "n1"), 12);
    detach(&mut mgr, &mut host, "n1", B);
    assert_eq!(rule_count(&mgr, "n1"), 6);
    for (src, dst) in mgr.network(&s("n1")).unwrap().rules() {
        assert_ne!(src, DB);
        assert_ne!(dst, DB);
    }
}

#[test]
fn the_second_detach_runs_no_command() {
    let mut host = Host::new();
    let mut mgr = meshed(&mut host);
    host.log.clear();
    detach(&mut mgr, &mut host, "n1", A);
    assert_eq!(host.log.len(), 8);
    detach(&mut mgr, &mut host, "n1", A);
    assert_eq!(host.log.len(), 8);
    assert_eq!(rule_count(&mgr, "n1"), 2);
}

#[test]
fn networks_do_not_touch_each_other() {
    let mut host = Host::new();
    let mut mgr = meshed(&mut host);
    create_network(&mut mgr, &mut host, "n2", r#"{"vxcan.id":"1"}"#);
    create_endpoint(&mut mgr, &mut host, "n2", C);
    attach(&mut mgr, &mut host, "n2", C);
    assert_eq!(rule_count(&mgr, "n1"), 6);
    assert_eq!(rule_count(&mgr, "n2"), 2);
    detach(&mut mgr, &mut host, "n1", A);
    assert_eq!(rule_count(&mgr, "n1"), 2);
    assert_eq!(rule_count(&mgr, "n2"), 2);
}

#[test]
fn attach_reads_the_peer_prefix_from_the_options() {
    let mut host = Host::new();
    let mut mgr = NetworkManager::new();
    create_network(&mut mgr, &mut host, "n1", "{}");
    create_endpoint(&mut mgr, &mut host, "n1", A);
    let done = host.run(&mgr.endpoint_attach_commands(&s("n1"), &s(A)));
    let join = mgr
        .endpoint_attach(s("n1"), s(A), s("sandbox"), s(r#"{"vxcan.peer":"eth"}"#), done)
        .unwrap();
    assert_eq!(join.src_name(), "vxcanaaaaaaaap");
    assert_eq!(join.dst_prefix(), "eth");
    let join = mgr.endpoint_attach(s("n1"), s(A), s("sandbox"), s("null"), 0).unwrap();
    assert_eq!(join.dst_prefix(), "vcanp");
}

#[test]
fn delete_endpoint_tears_down_what_was_created() {
    let mut host = Host::new();
    let mut mgr = meshed(&mut host);
    let plan = mgr.endpoint_delete_commands(&s("n1"), &s(A));
    assert_eq!(
        plan,
        vec![
            OsCommand::SetDown { name: s(DA) },
            OsCommand::DeleteInterface { name: s(DA), kind: InterfaceKind::Tunnel },
        ]
    );
    let done = host.run(&plan);
    assert_eq!(mgr.endpoint_delete(s("n1"), s(A), done), Ok(()));
    let net = mgr.network(&s("n1")).unwrap();
    assert!(net.endpoint(&s(A)).is_none());
    assert_eq!(net.endpoints().len(), 1);
    // The rules are the business of detach.
    assert_eq!(net.rules().len(), 6);
    assert!(!host.ifcs.contains(&s(DA)));
}

#[test]
fn delete_endpoint_leaves_an_interface_that_was_there_before() {
    let mut host = Host::new();
    host.ifcs.push(s(DA));
    let mut mgr = NetworkManager::new();
    create_network(&mut mgr, &mut host, "n1", "{}");
    host.log.clear();
    create_endpoint(&mut mgr, &mut host, "n1", A);
    assert!(host.log.is_empty());
    assert_eq!(mgr.endpoint_delete_commands(&s("n1"), &s(A)), Vec::new());
    assert_eq!(mgr.endpoint_delete(s("n1"), s(A), 0), Ok(()));
    assert!(host.ifcs.contains(&s(DA)));
}

#[test]
fn delete_endpoint_of_an_unknown_network_is_not_found() {
    let mut mgr = NetworkManager::new();
    assert_eq!(mgr.endpoint_delete_commands(&s("nope"), &s(A)), Vec::new());
    assert_eq!(mgr.endpoint_delete(s("nope"), s(A), 0), Err(TopologyError::NetworkNotFound));
}

#[test]
fn creating_an_endpoint_again_tears_the_old_one_down() {
    let mut host = Host::new();
    let mut mgr = NetworkManager::new();
    create_network(&mut mgr, &mut host, "n1", "{}");
    create_endpoint(&mut mgr, &mut host, "n1", A);
    host.log.clear();
    let ifcs = host.ifcs.clone();
    let plan = mgr.endpoint_create_commands(&s("n1"), &s(A), &ifcs);
    // The interface is there, so nothing is created; the old endpoint
    // created it, so it takes it down.
    assert_eq!(
        plan,
        vec![
            OsCommand::SetDown { name: s(DA) },
            OsCommand::DeleteInterface { name: s(DA), kind: InterfaceKind::Tunnel },
        ]
    );
    assert_eq!(mgr.endpoint_create(s("n1"), s(A), &ifcs, 1), Err(TopologyError::CommandFailed { index: 1 }));
    let net = mgr.network(&s("n1")).unwrap();
    assert_eq!(net.endpoints().len(), 1);
    assert!(!net.endpoint(&s(A)).unwrap().created());
}

fn found(driver: Option<&str>, options: Option<Vec<(&str, &str)>>, id: Option<&str>) -> DiscoveredNetwork {
    DiscoveredNetwork {
        driver: driver.map(s),
        options: options.map(|o| o.into_iter().map(|(k, v)| (s(k), s(v))).collect()),
        id: id.map(s),
    }
}

#[test]
fn a_listed_network_of_this_driver_is_taken_over() {
    let mut host = Host::new();
    let mut mgr = NetworkManager::new();
    let listed = found(
        Some("rustyvxcan"),
        Some(vec![("vxcan.dev", "can"), ("vxcan.id", " 2 "), ("com.docker.x", "y")]),
        Some("n1"),
    );
    let plan = mgr.network_load_commands(&listed, &host.ifcs);
    assert_eq!(
        plan,
        vec![OsCommand::CreateBus { device: s("can2") }, OsCommand::SetUp { name: s("can2") }]
    );
    let ifcs = host.ifcs.clone();
    let done = host.run(&plan);
    assert_eq!(mgr.network_load(&listed, &ifcs, done), Ok(true));
    let net = mgr.network(&s("n1")).unwrap();
    assert_eq!(net.device(), "can");
    assert_eq!(net.peer(), "vcan");
    assert_eq!(net.canid(), 2);
    assert!(net.created());
}

#[test]
fn a_listed_network_without_settings_of_its_own_gets_the_defaults() {
    let mut mgr = NetworkManager::new();
    let listed = found(Some("rustyvxcan"), Some(Vec::new()), Some("n1"));
    assert_eq!(mgr.network_load(&listed, &vec![s("vcan0")], 0), Ok(true));
    let net = mgr.network(&s("n1")).unwrap();
    assert_eq!((net.device().as_str(), net.peer().as_str(), net.canid()), ("vcan", "vcan", 0));
    assert!(!net.created());
}

#[test]
fn a_listed_network_of_another_driver_is_passed_over() {
    let mut mgr = NetworkManager::new();
    for listed in [
        found(Some("bridge"), Some(Vec::new()), Some("n1")),
        found(Some("RustyVxcan"), Some(Vec::new()), Some("n1")),
        found(None, Some(Vec::new()), Some("n1")),
        found(Some("rustyvxcan"), None, Some("n1")),
        found(Some("rustyvxcan"), Some(Vec::new()), None),
    ] {
        assert_eq!(mgr.network_load_commands(&listed, &Vec::new()), Vec::new());
        assert_eq!(mgr.network_load(&listed, &Vec::new(), 0), Ok(false));
        assert!(mgr.network(&s("n1")).is_none());
    }
}

#[test]
fn a_listed_network_whose_bus_cannot_be_created_is_reported() {
    let mut mgr = NetworkManager::new();
    let listed = found(Some("rustyvxcan"), Some(Vec::new()), Some("n1"));
    assert_eq!(
        mgr.network_load(&listed, &Vec::new(), 0),
        Err(TopologyError::CommandFailed { index: 0 })
    );
    assert!(!mgr.network(&s("n1")).unwrap().created());
}
