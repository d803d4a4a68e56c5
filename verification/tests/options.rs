use rustyvxcan::options::bus_number_of;
use rustyvxcan::options::join_peer_of;
use rustyvxcan::options::lookup_value;
use rustyvxcan::options::options_from_members;
use rustyvxcan::options::options_listed;
use rustyvxcan::options::options_parse;
use rustyvxcan::options::OptionsShape;

fn s(text: &str) -> String {
    String::from(text)
}

#[test]
fn absent_settings_give_the_defaults_of_a_request() {
    let o = options_from_members(None, None, None, OptionsShape::CreateNetwork);
    assert_eq!(o.device, "vcan");
    assert_eq!(o.peer, "vcanp");
    assert_eq!(o.canid, 0);
}

#[test]
fn absent_settings_give_the_defaults_of_a_found_network() {
    let o = options_from_members(None, None, None, OptionsShape::Discovered);
    assert_eq!(o.device, "vcan");
    assert_eq!(o.peer, "vcan");
    assert_eq!(o.canid, 0);
}

#[test]
fn given_settings_are_kept() {
    let o = options_from_members(
        Some(s("can")),
        Some(s("peer")),
        Some(s("12")),
        OptionsShape::CreateNetwork,
    );
    assert_eq!(o.device, "can");
    assert_eq!(o.peer, "peer");
    assert_eq!(o.canid, 12);
}

#[test]
fn each_setting_falls_back_on_its_own() {
    let o = options_from_members(Some(s("can")), None, None, OptionsShape::CreateNetwork);
    assert_eq!((o.device.as_str(), o.peer.as_str(), o.canid), ("can", "vcanp", 0));
    let o = options_from_members(None, Some(s("x")), None, OptionsShape::Discovered);
    assert_eq!((o.device.as_str(), o.peer.as_str(), o.canid), ("vcan", "x", 0));
    let o = options_from_members(None, None, Some(s("3")), OptionsShape::Discovered);
    assert_eq!((o.device.as_str(), o.peer.as_str(), o.canid), ("vcan", "vcan", 3));
}

#[test]
fn bus_number_drops_white_space_around_the_digits() {
    assert_eq!(bus_number_of(Some(s(" 7 "))), 7);
    assert_eq!(bus_number_of(Some(s("\t42\n"))), 42);
    assert_eq!(bus_number_of(Some(s("7"))), 7);
}

#[test]
fn bus_number_is_zero_for_what_is_no_number() {
    assert_eq!(bus_number_of(None), 0);
    assert_eq!(bus_number_of(Some(s(""))), 0);
    assert_eq!(bus_number_of(Some(s("   "))), 0);
    assert_eq!(bus_number_of(Some(s("seven"))), 0);
    assert_eq!(bus_number_of(Some(s("-1"))), 0);
    assert_eq!(bus_number_of(Some(s("4294967296"))), 0);
    assert_eq!(bus_number_of(Some(s("1 2"))), 0);
}

#[test]
fn options_parse_reads_a_settings_text() {
    let o = options_parse(&s(r#"{"vxcan.dev":"can","vxcan.peer":"canp","vxcan.id":"5"}"#));
    assert_eq!(o.device, "can");
    assert_eq!(o.peer, "canp");
    assert_eq!(o.canid, 5);
}

#[test]
fn options_parse_falls_back_for_an_unreadable_text() {
    for text in ["", "not json", "{", "{\"vxcan.dev\":", "\u{0}"] {
        let o = options_parse(&s(text));
        assert_eq!(o.device, "vcan", "for {:?}", text);
        assert_eq!(o.peer, "vcanp", "for {:?}", text);
        assert_eq!(o.canid, 0, "for {:?}", text);
    }
}

#[test]
fn options_parse_falls_back_for_an_absent_payload() {
    for text in ["null", "{}", "[]", "3", "\"vxcan.dev\""] {
        let o = options_parse(&s(text));
        assert_eq!(o.device, "vcan", "for {:?}", text);
        assert_eq!(o.peer, "vcanp", "for {:?}", text);
        assert_eq!(o.canid, 0, "for {:?}", text);
    }
}

#[test]
fn options_parse_ignores_members_that_are_no_strings() {
    let o = options_parse(&s(r#"{"vxcan.dev":1,"vxcan.peer":null,"vxcan.id":5}"#));
    assert_eq!(o.device, "vcan");
    assert_eq!(o.peer, "vcanp");
    assert_eq!(o.canid, 0);
}

#[test]
fn options_parse_reads_a_padded_bus_number() {
    let o = options_parse(&s(r#"{"vxcan.id":" 9 "}"#));
    assert_eq!(o.canid, 9);
    assert_eq!(o.device, "vcan");
}

#[test]
fn options_parse_unescapes_strings() {
    let o = options_parse(&s(r#"{"vxcan.dev":"can"}"#));
    assert_eq!(o.device, "can");
}

#[test]
fn join_peer_is_read_or_empty() {
    assert_eq!(join_peer_of(&s(r#"{"vxcan.peer":"eth"}"#)), "eth");
    assert_eq!(join_peer_of(&s(r#"{"vxcan.peer":7}"#)), "");
    assert_eq!(join_peer_of(&s("{}")), "");
    assert_eq!(join_peer_of(&s("null")), "");
    assert_eq!(join_peer_of(&s("garbage")), "");
}

#[test]
fn lookup_finds_the_first_entry_with_the_key() {
    let entries = vec![(s("a"), s("1")), (s("b"), s("2")), (s("a"), s("3"))];
    assert_eq!(lookup_value(&entries, "a"), Some(s("1")));
    assert_eq!(lookup_value(&entries, "b"), Some(s("2")));
    assert_eq!(lookup_value(&entries, "c"), None);
    assert_eq!(lookup_value(&Vec::new(), "a"), None);
}

#[test]
fn options_listed_reads_keys_and_values() {
    let entries = vec![
        (s("vxcan.id"), s(" 4")),
        (s("other"), s("x")),
        (s("vxcan.dev"), s("bus")),
    ];
    let o = options_listed(&entries);
    assert_eq!(o.device, "bus");
    assert_eq!(o.peer, "vcan");
    assert_eq!(o.canid, 4);
}

#[test]
fn options_listed_of_nothing_gives_the_defaults() {
    let o = options_listed(&Vec::new());
    assert_eq!(o.device, "vcan");
    assert_eq!(o.peer, "vcan");
    assert_eq!(o.canid, 0);
}
