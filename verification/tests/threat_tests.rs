use netwatch::net::ipv4_string;
use netwatch::threat::classify;
use netwatch::threat_feed::ThreatFeed;
use netwatch::threatintel::classify_ip;

fn owned(r: (u8, String, String, u8)) -> (u8, String, String, u8) {
    r
}

#[test]
fn classify_telnet_port_wins() {
    assert_eq!(
        owned(classify("relay.tor.ru", 23)),
        (90, "TELNET".to_string(), "PORT RULE".to_string(), 95)
    );
}

#[test]
fn classify_tor_hostname() {
    assert_eq!(classify("exit1.torproject.org", 443), (80, "TOR".to_string(), "HOSTNAME_RULE".to_string(), 99));
    assert_eq!(classify("history.com", 80).1, "TOR");
    assert_eq!(classify("tor.example.ru", 80).1, "TOR");
}

#[test]
fn classify_ru_domain() {
    assert_eq!(classify("mail.ru", 443), (60, "HIGH_RISK_TLD".to_string(), "HOSTNAME_RULE".to_string(), 99));
    assert_eq!(classify("a.ru.example.com", 443).1, "HIGH_RISK_TLD");
}

#[test]
fn classify_normal() {
    assert_eq!(classify("example.com", 443), (0, "NORMAL".to_string(), "NONE".to_string(), 100));
    assert_eq!(classify("TOR.EXAMPLE.RU", 80).1, "NORMAL");
    assert_eq!(classify("", 22).1, "NORMAL");
    assert_eq!(classify("1.2.3.4", 24).1, "NORMAL");
}

#[test]
fn classify_ip_prefixes() {
    assert_eq!(classify_ip("185.220.101.4"), ("Suspicious".to_string(), "Local IOC Feed".to_string(), 70));
    assert_eq!(classify_ip("45.9.148.1"), ("Known Scanner".to_string(), "Abuse Feed".to_string(), 90));
    assert_eq!(classify_ip("1185.1.1.1"), ("Clean".to_string(), "None".to_string(), 0));
    assert_eq!(classify_ip("185"), ("Clean".to_string(), "None".to_string(), 0));
    assert_eq!(classify_ip("4.5.1.1"), ("Clean".to_string(), "None".to_string(), 0));
    assert_eq!(classify_ip(""), ("Clean".to_string(), "None".to_string(), 0));
}

#[test]
fn classify_ip_of_formatted_address_goes_by_first_octet() {
    for first in 0u32..=255 {
        let addr = first | (7 << 8) | (185 << 16) | (45 << 24);
        let verdict = classify_ip(&ipv4_string(addr)).0;
        let expected = if first == 185 {
            "Suspicious"
        } else if first == 45 {
            "Known Scanner"
        } else {
            "Clean"
        };
        assert_eq!(verdict, expected, "first octet {}", first);
    }
}

#[test]
fn threat_feed_starts_with_two_indicators() {
    let feed = ThreatFeed::new();
    assert_eq!(feed.len(), 2);
    assert!(feed.check_ip("1.1.1.1"));
    assert!(feed.check_ip("8.8.8.8"));
    assert!(!feed.check_ip("1.1.1.2"));
    assert!(!feed.check_ip(" 1.1.1.1"));
    assert!(!feed.check_ip(""));
}

#[test]
fn threat_feed_reload_keeps_answers() {
    let mut feed = ThreatFeed::new();
    feed.reload();
    assert_eq!(feed.len(), 2);
    assert!(feed.check_ip("8.8.8.8"));
    assert!(!feed.check_ip("9.9.9.9"));
}

#[test]
fn threat_feed_insert_adds_once() {
    let mut feed = ThreatFeed::new();
    feed.insert("185.220.101.4".to_string());
    assert_eq!(feed.len(), 3);
    assert!(feed.check_ip("185.220.101.4"));
    feed.insert("1.1.1.1".to_string());
    assert_eq!(feed.len(), 3);
    assert!(feed.check_ip("1.1.1.1"));
    assert!(!feed.check_ip("185.220.101.5"));
}
