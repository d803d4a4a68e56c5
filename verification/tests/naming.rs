use rustyvxcan::endpoint::Endpoint;
use rustyvxcan::naming::bus_interface_name;
use rustyvxcan::naming::tunnel_device_name;
use rustyvxcan::naming::tunnel_peer_name;

#[test]
fn device_name_keeps_eight_bytes_of_a_long_identifier() {
    let uid = String::from("0123456789abcdef");
    assert_eq!(tunnel_device_name(&uid), "vxcan01234567");
}

#[test]
fn device_name_keeps_a_short_identifier_whole() {
    assert_eq!(tunnel_device_name(&String::from("abc")), "vxcanabc");
    assert_eq!(tunnel_device_name(&String::new()), "vxcan");
}

#[test]
fn device_name_of_an_identifier_of_exactly_eight_bytes_drops_the_last() {
    assert_eq!(tunnel_device_name(&String::from("abcdefgh")), "vxcanabcdefg");
    assert_eq!(tunnel_device_name(&String::from("abcdefghi")), "vxcanabcdefgh");
}

#[test]
fn device_name_does_not_split_a_character() {
    // Each of these letters takes two bytes: four of them fill the eight.
    assert_eq!(tunnel_device_name(&String::from("ääääääää")), "vxcanääää");
    // One byte, then letters of two bytes: the fifth would end at byte nine.
    assert_eq!(tunnel_device_name(&String::from("aääääääää")), "vxcanaäää");
}

#[test]
fn device_name_drops_white_space_at_the_cut() {
    assert_eq!(tunnel_device_name(&String::from("abc     def")), "vxcanabc");
}

#[test]
fn device_name_is_never_longer_than_thirteen_characters() {
    for uid in ["", "a", "abcdefgh", "abcdefghijklmnop", "ääääääääääää", "0123456789"] {
        let device = tunnel_device_name(&String::from(uid));
        assert!(device.chars().count() <= 13);
        assert!(device.starts_with("vxcan"));
        assert!(uid.starts_with(&device[5..]));
    }
}

#[test]
fn peer_name_appends_p() {
    let device = String::from("vxcan01234567");
    assert_eq!(tunnel_peer_name(&device), "vxcan01234567p");
}

#[test]
fn bus_name_is_base_and_number() {
    assert_eq!(bus_interface_name(&String::from("vcan"), 0), "vcan0");
    assert_eq!(bus_interface_name(&String::from("vcan"), 10), "vcan10");
    assert_eq!(bus_interface_name(&String::from("can"), 4294967295), "can4294967295");
    assert_eq!(bus_interface_name(&String::new(), 907), "907");
}

#[test]
fn same_identifier_same_names() {
    let none: Vec<String> = Vec::new();
    let some = vec![String::from("vxcanabcdefgh")];
    let a = Endpoint::new(String::from("abcdefghijkl"), &none, 2);
    let b = Endpoint::new(String::from("abcdefghijkl"), &some, 0);
    assert_eq!(a.device(), b.device());
    assert_eq!(a.peer(), b.peer());
    assert_eq!(a.device(), "vxcanabcdefgh");
    assert_eq!(a.peer(), "vxcanabcdefghp");
    assert_eq!(a.uid(), "abcdefghijkl");
}

#[test]
fn prefixed_puts_the_tunnel_prefix_first() {
    assert_eq!(rustyvxcan::naming::prefixed("abc"), "vxcanabc");
    assert_eq!(rustyvxcan::naming::prefixed(""), "vxcan");
}
