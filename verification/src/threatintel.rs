//! Classification of an address by the indicator feeds its prefix belongs to.
use vstd::prelude::*;
use crate::net::{decimal, digit, ipv4_text, lemma_digit, lemma_octet_decimal, octet};
use crate::text::{has_prefix, occurs_at, starts_with_str};

verus! {

/// What `classify_ip` answers for the address text `ip`: (verdict, feed, score).
/// Addresses starting with `"185."` are suspicious, then those starting with
/// `"45."` are known scanners; all others are clean.
pub open spec fn ip_classification(ip: Seq<char>) -> (Seq<char>, Seq<char>, i32) {
    if has_prefix(ip, "185."@) {
        ("Suspicious"@, "Local IOC Feed"@, 70)
    } else if has_prefix(ip, "45."@) {
        ("Known Scanner"@, "Abuse Feed"@, 90)
    } else {
        ("Clean"@, "None"@, 0)
    }
}

/// Classifies the address text `ip`; returns the verdict, the feed that
/// reported it and the score.
pub fn classify_ip(ip: &str) -> (r: (String, String, i32))
    ensures
        (r.0@, r.1@, r.2) == ip_classification(ip@),
{
    if starts_with_str(ip, "185.") {
        return ("Suspicious".to_owned(), "Local IOC Feed".to_owned(), 70);
    }
    if starts_with_str(ip, "45.") {
        return ("Known Scanner".to_owned(), "Abuse Feed".to_owned(), 90);
    }
    ("Clean".to_owned(), "None".to_owned(), 0)
}

/// Which feed judges an address text: one that starts with the four characters
/// `"185."` is suspicious; otherwise one that starts with the three characters
/// `"45."` is a known scanner; every other text is clean.
pub proof fn lemma_ip_classification_rules(ip: Seq<char>)
    ensures
        ip.len() >= 4 && ip[0] == '1' && ip[1] == '8' && ip[2] == '5' && ip[3] == '.'
            ==> ip_classification(ip) == ("Suspicious"@, "Local IOC Feed"@, 70i32),
        !(ip.len() >= 4 && ip[0] == '1' && ip[1] == '8' && ip[2] == '5' && ip[3] == '.') && (
        ip.len() >= 3 && ip[0] == '4' && ip[1] == '5' && ip[2] == '.') ==> ip_classification(ip)
            == ("Known Scanner"@, "Abuse Feed"@, 90i32),
        !(ip.len() >= 4 && ip[0] == '1' && ip[1] == '8' && ip[2] == '5' && ip[3] == '.') && !(
        ip.len() >= 3 && ip[0] == '4' && ip[1] == '5' && ip[2] == '.') ==> ip_classification(ip)
            == ("Clean"@, "None"@, 0i32),
{
    reveal_strlit("185.");
    reveal_strlit("45.");
    let p185 = "185."@;
    let p45 = "45."@;
    if ip.len() >= 4 && ip[0] == '1' && ip[1] == '8' && ip[2] == '5' && ip[3] == '.' {
        assert(ip.subrange(0, 4) =~= p185);
    } else if occurs_at(ip, p185, 0) {
        assert(ip.subrange(0, 4)[0] == ip[0]);
        assert(ip.subrange(0, 4)[1] == ip[1]);
        assert(ip.subrange(0, 4)[2] == ip[2]);
        assert(ip.subrange(0, 4)[3] == ip[3]);
    }
    if ip.len() >= 3 && ip[0] == '4' && ip[1] == '5' && ip[2] == '.' {
        assert(ip.subrange(0, 3) =~= p45);
    } else if occurs_at(ip, p45, 0) {
        assert(ip.subrange(0, 3)[0] == ip[0]);
        assert(ip.subrange(0, 3)[1] == ip[1]);
        assert(ip.subrange(0, 3)[2] == ip[2]);
    }
}

/// The first characters of the dotted-quad text of `addr` are those of its first octet and a dot.
proof fn lemma_ipv4_text_start(addr: u32)
    ensures
        ipv4_text(addr).len() >= 4,
        ({
            let o = octet(addr, 0);
            let t = ipv4_text(addr);
            &&& o < 256
            &&& o < 10 ==> t[0] == digit(o) && t[1] == '.'
            &&& 10 <= o < 100 ==> t[0] == digit(o / 10) && t[1] == digit(o % 10) && t[2] == '.'
            &&& 100 <= o ==> t[0] == digit(o / 100) && t[1] == digit((o / 10) % 10) && t[2]
                == digit(o % 10) && t[3] == '.'
        }),
{
    let o = octet(addr, 0);
    lemma_octet_decimal(o);
    lemma_octet_decimal(octet(addr, 1));
    lemma_octet_decimal(octet(addr, 2));
    lemma_octet_decimal(octet(addr, 3));
    let t = ipv4_text(addr);
    let d = decimal(o);
    assert(t == d + seq!['.'] + decimal(octet(addr, 1)) + seq!['.'] + decimal(octet(addr, 2))
        + seq!['.'] + decimal(octet(addr, 3)));
    assert(decimal(octet(addr, 1)).len() >= 1);
    assert(forall|i: int| 0 <= i < d.len() ==> t[i] == d[i]);
    assert(t[d.len() as int] == '.');
}

/// `classify_ip` judges the text of an IPv4 address, as `ipv4_string` writes it,
/// by the address's first octet alone: suspicious when it is 185, a known scanner
/// when it is 45, clean otherwise.
pub proof fn lemma_classify_ipv4_first_octet(addr: u32)
    ensures
        ip_classification(ipv4_text(addr)) == if octet(addr, 0) == 185 {
            ("Suspicious"@, "Local IOC Feed"@, 70i32)
        } else if octet(addr, 0) == 45 {
            ("Known Scanner"@, "Abuse Feed"@, 90i32)
        } else {
            ("Clean"@, "None"@, 0i32)
        },
{
    reveal_strlit("185.");
    reveal_strlit("45.");
    let o = octet(addr, 0);
    let t = ipv4_text(addr);
    lemma_ipv4_text_start(addr);
    lemma_digit(o % 10);
    lemma_digit((o / 10) % 10);
    if o < 10 {
        lemma_digit(o);
    } else if o < 100 {
        lemma_digit(o / 10);
    } else {
        lemma_digit(o / 100);
    }
    let p185 = "185."@;
    let p45 = "45."@;
    if o == 185 {
        assert(t.subrange(0, 4) =~= p185);
    } else if occurs_at(t, p185, 0) {
        assert(t.subrange(0, 4)[0] == '1');
        assert(t.subrange(0, 4)[1] == '8');
        assert(t.subrange(0, 4)[2] == '5');
        assert(t.subrange(0, 4)[3] == '.');
    }
    if o == 45 {
        assert(t.subrange(0, 3) =~= p45);
    } else if occurs_at(t, p45, 0) {
        assert(t.subrange(0, 3)[0] == '4');
        assert(t.subrange(0, 3)[1] == '5');
        assert(t.subrange(0, 3)[2] == '.');
    }
}

} // verus!
