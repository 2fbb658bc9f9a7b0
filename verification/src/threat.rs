//! Rule-based risk classification of a connection by its destination port and hostname.
use vstd::prelude::*;
use crate::text::{contains_str, has_substring};

verus! {

/// What `classify` answers for a connection to `hostname` on `port`:
/// (risk score, threat label, rule that matched, confidence). The first rule
/// that applies wins: Telnet's port 23, then a hostname holding `"tor"`, then one
/// holding `".ru"`.
pub open spec fn classification(hostname: Seq<char>, port: u16) -> (u8, Seq<char>, Seq<char>, u8) {
    if port == 23 {
        (90, "TELNET"@, "PORT RULE"@, 95)
    } else if has_substring(hostname, "tor"@) {
        (80, "TOR"@, "HOSTNAME_RULE"@, 99)
    } else if has_substring(hostname, ".ru"@) {
        (60, "HIGH_RISK_TLD"@, "HOSTNAME_RULE"@, 99)
    } else {
        (0, "NORMAL"@, "NONE"@, 100)
    }
}

/// Classifies a connection to `hostname` on `port`; returns the risk score,
/// the threat label, the rule that matched and the confidence.
pub fn classify(hostname: &str, port: u16) -> (r: (u8, String, String, u8))
    ensures
        (r.0, r.1@, r.2@, r.3) == classification(hostname@, port),
{
    if port == 23 {
        return (90, "TELNET".to_owned(), "PORT RULE".to_owned(), 95);
    }
    if contains_str(hostname, "tor") {
        return (80, "TOR".to_owned(), "HOSTNAME_RULE".to_owned(), 99);
    }
    if contains_str(hostname, ".ru") {
        return (60, "HIGH_RISK_TLD".to_owned(), "HOSTNAME_RULE".to_owned(), 99);
    }
    (0, "NORMAL".to_owned(), "NONE".to_owned(), 100)
}

/// Which rule fires. Port 23 is always Telnet. Otherwise a hostname that holds
/// the characters `"tor"` is Tor; failing that, one that holds the three
/// characters `".ru"` is a high-risk domain; every other connection is normal.
/// In particular a hostname without `".ru"` is never a high-risk domain (such as
/// `"rubygems.org"`), and the scores, rules and confidences are those of the label.
pub proof fn lemma_classification_rules(hostname: Seq<char>, port: u16)
    ensures
        port == 23 ==> classification(hostname, port) == (90u8, "TELNET"@, "PORT RULE"@, 95u8),
        port != 23 && has_substring(hostname, "tor"@) ==> classification(hostname, port) == (
            80u8,
            "TOR"@,
            "HOSTNAME_RULE"@,
            99u8,
        ),
        port != 23 && !has_substring(hostname, "tor"@) && has_substring(hostname, ".ru"@)
            ==> classification(hostname, port) == (60u8, "HIGH_RISK_TLD"@, "HOSTNAME_RULE"@, 99u8),
        port != 23 && !has_substring(hostname, "tor"@) && !has_substring(hostname, ".ru"@)
            ==> classification(hostname, port) == (0u8, "NORMAL"@, "NONE"@, 100u8),
        classification(hostname, port).1 == "HIGH_RISK_TLD"@ ==> has_substring(hostname, ".ru"@),
        classification(hostname, port).1 == "TOR"@ ==> has_substring(hostname, "tor"@),
{
    reveal_strlit("HIGH_RISK_TLD");
    reveal_strlit("TOR");
    reveal_strlit("TELNET");
    reveal_strlit("NORMAL");
    assert("HIGH_RISK_TLD"@[1] != "TOR"@[1]);
    assert("HIGH_RISK_TLD"@[0] != "TELNET"@[0]);
    assert("HIGH_RISK_TLD"@[0] != "NORMAL"@[0]);
    assert("TOR"@.len() != "TELNET"@.len());
    assert("TOR"@[0] != "NORMAL"@[0]);
}

} // verus!
