use netwatch::api::ConnectionRow;
use netwatch::dns::hostname_or_ip;
use netwatch::ebpf::events::{host_is_little_endian, ConnEvent, CONN_EVENT_SIZE};
use netwatch::geoip::{geo_info, GeoInfo};
use netwatch::monitor::{connection_record, connection_row};
use netwatch::net::ipv4_string;
use netwatch::process::{executable_from_link, proc_path, process_name_from_comm};

fn sample_record() -> Vec<u8> {
    let mut b = Vec::new();
    b.extend_from_slice(&4242u32.to_ne_bytes());
    b.extend_from_slice(&[192, 168, 1, 10]);
    b.extend_from_slice(&[93, 184, 216, 34]);
    b.extend_from_slice(&51000u16.to_ne_bytes());
    b.extend_from_slice(&443u16.to_ne_bytes());
    b.extend_from_slice(&2u16.to_ne_bytes());
    b.extend_from_slice(&6u16.to_ne_bytes());
    b.extend_from_slice(&2u32.to_ne_bytes());
    b.extend_from_slice(&1u32.to_ne_bytes());
    let mut comm = [0u8; 16];
    comm[..4].copy_from_slice(b"curl");
    b.extend_from_slice(&comm);
    b
}

#[test]
fn event_size_is_the_record_size() {
    assert_eq!(CONN_EVENT_SIZE, 44);
    assert_eq!(sample_record().len(), CONN_EVENT_SIZE);
}

#[test]
fn event_decodes_fields() {
    let e = ConnEvent::from_bytes(&sample_record()).unwrap();
    assert_eq!(e.pid, 4242);
    assert_eq!(e.sport, 51000);
    assert_eq!(e.dport, 443);
    assert_eq!(e.family, 2);
    assert_eq!(e.protocol, 6);
    assert_eq!(e.oldstate, 2);
    assert_eq!(e.newstate, 1);
    assert_eq!(&e.comm[..5], b"curl\0");
    assert_eq!(ipv4_string(e.saddr), "192.168.1.10");
    assert_eq!(ipv4_string(e.daddr), "93.184.216.34");
}

#[test]
fn host_byte_order() {
    assert_eq!(host_is_little_endian(), u16::from_ne_bytes([1, 0]) == 1);
}

#[test]
fn event_decodes_in_either_byte_order() {
    let mut b = vec![0u8; 44];
    b[0..4].copy_from_slice(&[0x00, 0x00, 0x10, 0x92]);
    b[4..8].copy_from_slice(&[10, 0, 0, 1]);
    b[14..16].copy_from_slice(&[0x01, 0xbb]);
    let le = ConnEvent::decode(&b, true).unwrap();
    let be = ConnEvent::decode(&b, false).unwrap();
    assert_eq!(le.pid, 0x9210_0000);
    assert_eq!(be.pid, 0x0000_1092);
    assert_eq!(le.dport, 0xbb01);
    assert_eq!(be.dport, 443);
    assert_eq!(ipv4_string(le.saddr), "10.0.0.1");
    assert_eq!(ipv4_string(be.saddr), "10.0.0.1");
    assert!(ConnEvent::decode(&b[..43], false).is_none());
}

#[test]
fn event_short_record_is_refused() {
    let b = sample_record();
    assert!(ConnEvent::from_bytes(&b[..43]).is_none());
    assert!(ConnEvent::from_bytes(&[]).is_none());
    let mut longer = b.clone();
    longer.extend_from_slice(&[9, 9, 9]);
    assert_eq!(ConnEvent::from_bytes(&longer).unwrap().pid, 4242);
}

#[test]
fn ipv4_string_dotted_quad() {
    for (addr, text) in [
        (0u32, "0.0.0.0"),
        (1, "1.0.0.0"),
        (255, "255.0.0.0"),
        (256, "0.1.0.0"),
        (0x0100_007f, "127.0.0.1"),
        (0xffff_ffff, "255.255.255.255"),
        (0x0a00_a8c0, "192.168.0.10"),
        (0x1234_5678, "120.86.52.18"),
        (100, "100.0.0.0"),
        (0x6400_0000, "0.0.0.100"),
    ] {
        assert_eq!(ipv4_string(addr), text);
        let octets = addr.to_le_bytes();
        let by_format = format!("{}.{}.{}.{}", octets[0], octets[1], octets[2], octets[3]);
        assert_eq!(ipv4_string(addr), by_format);
    }
}

#[test]
fn proc_paths() {
    assert_eq!(proc_path(1234, "comm"), "/proc/1234/comm");
    assert_eq!(proc_path(0, "exe"), "/proc/0/exe");
    assert_eq!(proc_path(u32::MAX, "comm"), format!("/proc/{}/comm", u32::MAX));
}

#[test]
fn process_names() {
    assert_eq!(process_name_from_comm(Some("bash\n".to_string())), "bash");
    assert_eq!(process_name_from_comm(Some("  sshd: user \n".to_string())), "sshd: user");
    assert_eq!(process_name_from_comm(None), "unknown");
    assert_eq!(executable_from_link(Some("/usr/bin/curl".to_string())), "/usr/bin/curl");
    assert_eq!(executable_from_link(None), "unknown");
}

fn names(pairs: &[(&str, &str)]) -> Vec<(String, String)> {
    pairs.iter().map(|(c, n)| (c.to_string(), n.to_string())).collect()
}

#[test]
fn geo_lookups() {
    let g = geo_info(None);
    assert_eq!((g.country.as_str(), g.city.as_str()), ("Unknown", "Unknown"));
    let g = geo_info(Some((Some(names(&[("de", "Deutschland"), ("en", "Germany")])), None)));
    assert_eq!((g.country.as_str(), g.city.as_str()), ("Germany", "Unknown"));
    let g = geo_info(Some((Some(names(&[("en", "Japan")])), Some(names(&[("en", "Tokyo"), ("ja", "東京")])))));
    assert_eq!((g.country.as_str(), g.city.as_str()), ("Japan", "Tokyo"));
    let g = geo_info(Some((Some(names(&[("fr", "Italie")])), Some(Vec::new()))));
    assert_eq!((g.country.as_str(), g.city.as_str()), ("Unknown", "Unknown"));
    let g = GeoInfo::unknown();
    assert_eq!((g.country.as_str(), g.city.as_str()), ("Unknown", "Unknown"));
}

#[test]
fn reverse_lookup_falls_back_to_address() {
    assert_eq!(hostname_or_ip("8.8.8.8", Some("dns.google".to_string())), "dns.google");
    assert_eq!(hostname_or_ip("10.0.0.1", None), "10.0.0.1");
}

#[test]
fn record_of_an_event() {
    let e = ConnEvent::from_bytes(&sample_record()).unwrap();
    let geo = geo_info(Some((Some(names(&[("en", "United States")])), None)));
    let c = connection_record(&e, "relay.tor.example".to_string(), "curl".to_string(), "/usr/bin/curl".to_string(), geo, 1700000000);
    assert_eq!(c.pid, 4242);
    assert_eq!(c.src_ip, "192.168.1.10");
    assert_eq!(c.dst_ip, "93.184.216.34");
    assert_eq!((c.src_port, c.dst_port), (51000, 443));
    assert_eq!((c.old_state, c.new_state), (2, 1));
    assert_eq!(c.hostname, "relay.tor.example");
    assert_eq!((c.risk_score, c.threat_label.as_str(), c.threat_source.as_str(), c.threat_confidence), (80, "TOR", "HOSTNAME_RULE", 99));
    assert_eq!((c.country.as_str(), c.city.as_str()), ("United States", "Unknown"));
    assert_eq!(c.timestamp, 1700000000);
    assert_eq!((c.process_name.as_str(), c.executable.as_str()), ("curl", "/usr/bin/curl"));
}

#[test]
fn row_for_live_clients() {
    let e = ConnEvent::from_bytes(&sample_record()).unwrap();
    let c = connection_record(&e, "mail.ru".to_string(), "curl".to_string(), "/usr/bin/curl".to_string(), GeoInfo::unknown(), 5);
    let row: ConnectionRow = connection_row(&c);
    assert_eq!(row.id, 0);
    assert_eq!(row.pid, 4242);
    assert_eq!(row.timestamp, 5);
    assert_eq!(row.src_ip, "192.168.1.10");
    assert_eq!(row.dst_ip, "93.184.216.34");
    assert_eq!(row.hostname, "mail.ru");
    assert_eq!((row.risk_score, row.threat_label.as_str()), (60, "HIGH_RISK_TLD"));
    assert_eq!((row.process_name.as_str(), row.executable.as_str()), ("curl", "/usr/bin/curl"));
    assert_eq!((row.src_port, row.dst_port, row.old_state, row.new_state), (51000, 443, 2, 1));
}
