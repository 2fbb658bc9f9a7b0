//! Turning a connection event into the record that is stored and the row that
//! live clients are sent.
use vstd::prelude::*;
use crate::api::ConnectionRow;
use crate::ebpf::events::{decodes_to, holds16, holds32, lemma_event_address_octets, lemma_event_numbers_in_host_order, ConnEvent, CONN_EVENT_SIZE};
use crate::geoip::GeoInfo;
use crate::models::Connection;
use crate::net::{ipv4_string, ipv4_text, octet};
use crate::threat::{classification, classify};

verus! {

/// `c` is the record of `event` for the given hostname, process details and
/// location: every field but the timestamp.
pub open spec fn describes(
    c: Connection,
    event: ConnEvent,
    hostname: Seq<char>,
    process_name: Seq<char>,
    executable: Seq<char>,
    geo: GeoInfo,
) -> bool {
    let (risk, label, source, confidence) = classification(hostname, event.dport);
    &&& c.pid == event.pid
    &&& c.process_name@ == process_name
    &&& c.executable@ == executable
    &&& c.src_ip@ == ipv4_text(event.saddr)
    &&& c.dst_ip@ == ipv4_text(event.daddr)
    &&& c.src_port == event.sport
    &&& c.dst_port == event.dport
    &&& c.old_state == event.oldstate
    &&& c.new_state == event.newstate
    &&& c.hostname@ == hostname
    &&& c.risk_score == risk
    &&& c.threat_label@ == label
    &&& c.threat_source@ == source
    &&& c.threat_confidence == confidence
    &&& c.country@ == geo.country@
    &&& c.city@ == geo.city@
}

/// The record of `event`, observed at `timestamp`: its addresses as text, its
/// ports and states, and the classification of `hostname` (the name of the
/// destination) with the destination port.
pub fn connection_record(
    event: &ConnEvent,
    hostname: String,
    process_name: String,
    executable: String,
    geo: GeoInfo,
    timestamp: i64,
) -> (c: Connection)
    ensures
        describes(c, *event, hostname@, process_name@, executable@, geo),
        c.timestamp == timestamp,
{
    let (risk_score, threat_label, threat_source, threat_confidence) = classify(
        hostname.as_str(),
        event.dport,
    );
    Connection {
        pid: event.pid,
        process_name,
        executable,
        timestamp,
        src_ip: ipv4_string(event.saddr),
        dst_ip: ipv4_string(event.daddr),
        src_port: event.sport,
        dst_port: event.dport,
        old_state: event.oldstate,
        new_state: event.newstate,
        hostname,
        risk_score,
        threat_label,
        threat_source,
        threat_confidence,
        country: geo.country,
        city: geo.city,
    }
}

/// The record of an event decoded from the raw record `b` shows what the
/// kernel wrote: the source address text is that of record bytes 4 to 7 and the
/// destination's that of bytes 8 to 11, in order; pid, ports and states are the
/// record's numbers; and the threat fields are the classification of the
/// record's own hostname with its destination port.
pub proof fn lemma_record_of_raw_event(
    b: Seq<u8>,
    e: ConnEvent,
    little_endian: bool,
    c: Connection,
    hostname: Seq<char>,
    process_name: Seq<char>,
    executable: Seq<char>,
    geo: GeoInfo,
)
    requires
        b.len() >= CONN_EVENT_SIZE,
        decodes_to(b, e, little_endian),
        describes(c, e, hostname, process_name, executable, geo),
    ensures
        exists|w: u32|
            c.src_ip@ == ipv4_text(w) && forall|i: nat| i < 4 ==> #[trigger] octet(w, i) == b[4 + i as int],
        exists|w: u32|
            c.dst_ip@ == ipv4_text(w) && forall|i: nat| i < 4 ==> #[trigger] octet(w, i) == b[8 + i as int],
        holds32(b, 0, c.pid, little_endian),
        holds16(b, 12, c.src_port, little_endian),
        holds16(b, 14, c.dst_port, little_endian),
        holds32(b, 20, c.old_state, little_endian),
        holds32(b, 24, c.new_state, little_endian),
        (c.risk_score, c.threat_label@, c.threat_source@, c.threat_confidence) == classification(
            c.hostname@,
            c.dst_port,
        ),
{
    lemma_event_address_octets(b, e, little_endian);
    lemma_event_numbers_in_host_order(b, e, little_endian);
    assert(forall|i: nat| i < 4 ==> #[trigger] octet(e.saddr, i) == b[4 + i as int]);
    assert(forall|i: nat| i < 4 ==> #[trigger] octet(e.daddr, i) == b[8 + i as int]);
}

/// The row that live clients are sent for `record`; it has no stored id yet (0).
pub fn connection_row(record: &Connection) -> (row: ConnectionRow)
    ensures
        row.id == 0,
        row.pid == record.pid,
        row.process_name@ == record.process_name@,
        row.executable@ == record.executable@,
        row.timestamp == record.timestamp,
        row.src_ip@ == record.src_ip@,
        row.dst_ip@ == record.dst_ip@,
        row.src_port == record.src_port,
        row.dst_port == record.dst_port,
        row.old_state == record.old_state,
        row.new_state == record.new_state,
        row.hostname@ == record.hostname@,
        row.risk_score == record.risk_score,
        row.threat_label@ == record.threat_label@,
{
    ConnectionRow {
        id: 0,
        pid: record.pid,
        process_name: record.process_name.clone(),
        executable: record.executable.clone(),
        timestamp: record.timestamp,
        src_ip: record.src_ip.clone(),
        dst_ip: record.dst_ip.clone(),
        src_port: record.src_port,
        dst_port: record.dst_port,
        old_state: record.old_state,
        new_state: record.new_state,
        hostname: record.hostname.clone(),
        risk_score: record.risk_score,
        threat_label: record.threat_label.clone(),
    }
}

} // verus!
