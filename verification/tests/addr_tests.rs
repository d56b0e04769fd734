use intercom::addr::parse_ip;
use intercom::addr::parse_ipv4;
use intercom::addr::parse_ipv6;
use intercom::addr::IpAddress;
use intercom::events::map_key_code;
use intercom::tone::decode_bytes;
use intercom::ui::CallScreenCommand;

fn chars(s: &str) -> Vec<char> {
    s.chars().collect()
}

fn v6(s: &str) -> Option<u128> {
    parse_ipv6(&chars(s))
}

#[test]
fn parse_valid_addresses() {
    assert_eq!(parse_ipv4(&chars("192.0.2.7")), Some((192, 0, 2, 7)));
    assert_eq!(parse_ipv4(&chars("0.0.0.0")), Some((0, 0, 0, 0)));
    assert_eq!(parse_ipv4(&chars("255.255.255.255")), Some((255, 255, 255, 255)));
    assert_eq!(parse_ipv4(&chars("10.0.0.1")), Some((10, 0, 0, 1)));
}

#[test]
fn parse_rejects_bad_addresses() {
    assert_eq!(parse_ipv4(&chars("")), None);
    assert_eq!(parse_ipv4(&chars("1.2.3")), None);
    assert_eq!(parse_ipv4(&chars("1.2.3.4.5")), None);
    assert_eq!(parse_ipv4(&chars("256.0.0.1")), None);
    assert_eq!(parse_ipv4(&chars("01.2.3.4")), None);
    assert_eq!(parse_ipv4(&chars("1.2.3.")), None);
    assert_eq!(parse_ipv4(&chars(".1.2.3")), None);
    assert_eq!(parse_ipv4(&chars("1..2.3")), None);
    assert_eq!(parse_ipv4(&chars("a.b.c.d")), None);
    assert_eq!(parse_ipv4(&chars("1.2.3.4 ")), None);
    assert_eq!(parse_ipv4(&chars("1234.5.6.7")), None);
}

#[test]
fn parse_valid_ipv6_addresses() {
    assert_eq!(v6("::"), Some(0));
    assert_eq!(v6("::1"), Some(1));
    assert_eq!(v6("1::"), Some(0x0001_0000_0000_0000_0000_0000_0000_0000));
    assert_eq!(
        v6("1:2:3:4:5:6:7:8"),
        Some(0x0001_0002_0003_0004_0005_0006_0007_0008)
    );
    assert_eq!(v6("1:2::7:8"), Some(0x0001_0002_0000_0000_0000_0000_0007_0008));
    assert_eq!(
        v6("2001:db8::ff00:42:8329"),
        Some(0x2001_0db8_0000_0000_0000_ff00_0042_8329)
    );
    assert_eq!(v6("1:2:3:4:5:6:7::"), Some(0x0001_0002_0003_0004_0005_0006_0007_0000));
    assert_eq!(v6("::1:2:3:4:5:6:7"), Some(0x0000_0001_0002_0003_0004_0005_0006_0007));
    // Mixed case hex and leading zeros inside a group.
    assert_eq!(v6("ABcd::00ef"), Some(0xabcd_0000_0000_0000_0000_0000_0000_00ef));
    // Embedded dotted quads.
    assert_eq!(v6("::ffff:192.0.2.7"), Some(0x0000_0000_0000_0000_0000_ffff_c000_0207));
    assert_eq!(
        v6("1:2:3:4:5:6:1.2.3.4"),
        Some(0x0001_0002_0003_0004_0005_0006_0102_0304)
    );
    assert_eq!(v6("1::1.2.3.4"), Some(0x0001_0000_0000_0000_0000_0000_0102_0304));
}

#[test]
fn parse_rejects_bad_ipv6() {
    assert_eq!(v6(""), None);
    assert_eq!(v6(":"), None);
    assert_eq!(v6(":::"), None);
    assert_eq!(v6("1:2:3:4:5:6:7"), None);
    assert_eq!(v6("1:2:3:4:5:6:7:8:9"), None);
    assert_eq!(v6("1:2:3:4:5:6:7:8::"), None);
    assert_eq!(v6("::1:2:3:4:5:6:7:8"), None);
    assert_eq!(v6("1::2::3"), None);
    assert_eq!(v6("1:::2"), None);
    assert_eq!(v6(":1:2:3:4:5:6:7"), None);
    assert_eq!(v6("1:2:3:4:5:6:7:"), None);
    assert_eq!(v6("12345::"), None);
    assert_eq!(v6("g::"), None);
    assert_eq!(v6("1.2.3.4"), None);
    assert_eq!(v6("1:2:3:1.2.3.4:5"), None);
    assert_eq!(v6("1:2:3:4:5:6:7:1.2.3.4"), None);
    assert_eq!(v6("::256.0.0.1"), None);
}

#[test]
fn parse_ip_tries_v4_then_v6() {
    assert_eq!(parse_ip(&chars("192.0.2.7")), Some(IpAddress::V4(192, 0, 2, 7)));
    assert_eq!(parse_ip(&chars("::1")), Some(IpAddress::V6(1)));
    assert_eq!(parse_ip(&chars("not an ip")), None);
    assert_eq!(parse_ip(&chars("")), None);
}

#[test]
fn key_codes_map_to_commands() {
    assert_eq!(map_key_code(103), Some(CallScreenCommand::IncreaseVolume));
    assert_eq!(map_key_code(108), Some(CallScreenCommand::DecreaseVolume));
    assert_eq!(map_key_code(113), Some(CallScreenCommand::ToggleMute));
    assert_eq!(map_key_code(353), Some(CallScreenCommand::AcceptCall));
    assert_eq!(map_key_code(352), Some(CallScreenCommand::StopCall));
    assert_eq!(map_key_code(30), None);
    assert_eq!(map_key_code(0), None);
}

#[test]
fn decode_bytes_on_junk_yields_nothing() {
    // Not MP3 data: the decoder reaches the end without a frame.
    assert!(decode_bytes(&[]).is_empty());
    assert!(decode_bytes(&[1, 2, 3, 4, 5]).is_empty());
}
