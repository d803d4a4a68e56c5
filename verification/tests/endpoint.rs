use rustyvxcan::endpoint::Endpoint;
use rustyvxcan::host::interface_exists;
use rustyvxcan::host::InterfaceKind;
use rustyvxcan::host::OsCommand;

fn s(text: &str) -> String {
    String::from(text)
}

#[test]
fn interface_exists_looks_for_the_exact_name() {
    let ifcs = vec![s("lo"), s("vcan0"), s("vxcanabcdefgh")];
    assert!(interface_exists(&ifcs, &s("vcan0")));
    assert!(interface_exists(&ifcs, &s("vxcanabcdefgh")));
    assert!(!interface_exists(&ifcs, &s("vcan")));
    assert!(!interface_exists(&ifcs, &s("vcan00")));
    assert!(!interface_exists(&ifcs, &s("VCAN0")));
    assert!(!interface_exists(&Vec::new(), &s("lo")));
}

#[test]
fn a_new_endpoint_creates_its_tunnel_and_brings_it_up() {
    let ifcs = vec![s("lo"), s("vcan0")];
    let plan = Endpoint::create_commands(&s("abcdefghijkl"), &ifcs);
    assert_eq!(
        plan,
        vec![
            OsCommand::CreateTunnelPair { device: s("vxcanabcdefgh"), peer: s("vxcanabcdefghp") },
            OsCommand::SetUp { name: s("vxcanabcdefgh") },
        ]
    );
    let ep = Endpoint::new(s("abcdefghijkl"), &ifcs, plan.len());
    assert!(ep.created());
}

#[test]
fn an_endpoint_that_it_created_is_deleted_on_teardown() {
    let ep = Endpoint::new(s("abcdefghijkl"), &Vec::new(), 2);
    assert_eq!(
        ep.teardown_commands(),
        vec![
            OsCommand::SetDown { name: s("vxcanabcdefgh") },
            OsCommand::DeleteInterface { name: s("vxcanabcdefgh"), kind: InterfaceKind::Tunnel },
        ]
    );
}

#[test]
fn an_endpoint_whose_interface_was_there_is_left_alone() {
    let ifcs = vec![s("vxcanabcdefgh")];
    assert_eq!(Endpoint::create_commands(&s("abcdefghijkl"), &ifcs), Vec::new());
    let ep = Endpoint::new(s("abcdefghijkl"), &ifcs, 0);
    assert!(!ep.created());
    assert_eq!(ep.teardown_commands(), Vec::new());
    // Whatever the caller reports, an interface that was there is not owned.
    let ep = Endpoint::new(s("abcdefghijkl"), &ifcs, 5);
    assert!(!ep.created());
    assert_eq!(ep.teardown_commands(), Vec::new());
}

#[test]
fn only_the_peer_being_there_does_not_count() {
    let ifcs = vec![s("vxcanabcdefghp")];
    assert_eq!(Endpoint::create_commands(&s("abcdefghijkl"), &ifcs).len(), 2);
}

#[test]
fn an_endpoint_whose_creation_failed_owns_nothing() {
    let ep = Endpoint::new(s("abcdefghijkl"), &Vec::new(), 0);
    assert!(!ep.created());
    assert_eq!(ep.teardown_commands(), Vec::new());
}

#[test]
fn an_endpoint_that_was_created_but_not_brought_up_is_still_owned() {
    let ep = Endpoint::new(s("abcdefghijkl"), &Vec::new(), 1);
    assert!(ep.created());
    assert_eq!(ep.teardown_commands().len(), 2);
}

#[test]
fn a_clone_is_the_same_endpoint() {
    let ep = Endpoint::new(s("abcdefghijkl"), &Vec::new(), 2);
    let copy = ep.clone();
    assert_eq!(copy.uid(), ep.uid());
    assert_eq!(copy.device(), ep.device());
    assert_eq!(copy.peer(), ep.peer());
    assert_eq!(copy.created(), ep.created());
}
