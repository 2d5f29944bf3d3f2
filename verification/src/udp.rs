//! The UDP tracker wire protocol of BEP-15: the 16-byte connect frame, the
//! 98-byte announce frame, and the decoding of both replies. The socket work
//! around these frames is the caller's; everything here is a function of the
//! bytes alone, apart from the fresh transaction ids drawn for each request.

use vstd::prelude::*;
use crate::announce::{Announce, ClientIp, Event, announce_wf};
use crate::decimal::{spec_idec, push_decimal_i32};
use crate::peers::{PeerAddr, be16};
use crate::response::{Response, ResponseModel};

verus! {

/// The magic protocol id of a connect request.
pub const PROTOCOL_MAGIC: u64 = 0x41727101980;

/// The big-endian bytes of a 16-bit value.
pub open spec fn be2(x: u16) -> Seq<u8> {
    seq![(x / 256) as u8, (x % 256) as u8]
}

/// The big-endian bytes of a 32-bit value.
pub open spec fn be4(x: u32) -> Seq<u8> {
    seq![
        (x / 0x1000000) as u8,
        ((x / 0x10000) % 256) as u8,
        ((x / 256) % 256) as u8,
        (x % 256) as u8,
    ]
}

/// The big-endian bytes of a 64-bit value.
pub open spec fn be8(x: u64) -> Seq<u8> {
    seq![
        (x / 0x100000000000000) as u8,
        ((x / 0x1000000000000) % 256) as u8,
        ((x / 0x10000000000) % 256) as u8,
        ((x / 0x100000000) % 256) as u8,
        ((x / 0x1000000) % 256) as u8,
        ((x / 0x10000) % 256) as u8,
        ((x / 256) % 256) as u8,
        (x % 256) as u8,
    ]
}

/// The big-endian 32-bit value at position `i`.
pub open spec fn read_u32_be(s: Seq<u8>, i: int) -> u32 {
    (s[i] * 0x1000000 + s[i + 1] * 0x10000 + s[i + 2] * 256 + s[i + 3]) as u32
}

/// The big-endian 64-bit value at position `i`.
pub open spec fn read_u64_be(s: Seq<u8>, i: int) -> u64 {
    (read_u32_be(s, i) * 0x100000000 + read_u32_be(s, i + 4)) as u64
}

fn push_be2(out: &mut Vec<u8>, x: u16)
    ensures
        final(out)@ == old(out)@ + be2(x),
{
    out.push((x / 256) as u8);
    out.push((x % 256) as u8);
    proof {
        assert(out@ =~= old(out)@ + be2(x));
    }
}

fn push_be4(out: &mut Vec<u8>, x: u32)
    ensures
        final(out)@ == old(out)@ + be4(x),
{
    out.push((x / 0x1000000) as u8);
    out.push(((x / 0x10000) % 256) as u8);
    out.push(((x / 256) % 256) as u8);
    out.push((x % 256) as u8);
    proof {
        assert(out@ =~= old(out)@ + be4(x));
    }
}

fn push_be8(out: &mut Vec<u8>, x: u64)
    ensures
        final(out)@ == old(out)@ + be8(x),
{
    out.push((x / 0x100000000000000) as u8);
    out.push(((x / 0x1000000000000) % 256) as u8);
    out.push(((x / 0x10000000000) % 256) as u8);
    out.push(((x / 0x100000000) % 256) as u8);
    out.push(((x / 0x1000000) % 256) as u8);
    out.push(((x / 0x10000) % 256) as u8);
    out.push(((x / 256) % 256) as u8);
    out.push((x % 256) as u8);
    proof {
        assert(out@ =~= old(out)@ + be8(x));
    }
}

fn get_u32_be(v: &Vec<u8>, i: usize) -> (r: u32)
    requires
        i + 4 <= v@.len(),
    ensures
        r == read_u32_be(v@, i as int),
{
    let n = v.len();
    assert(i + 4 <= n);
    (v[i] as u32) * 0x1000000 + (v[i + 1] as u32) * 0x10000 + (v[i + 2] as u32) * 256 + (v[i
        + 3] as u32)
}

fn get_u64_be(v: &Vec<u8>, i: usize) -> (r: u64)
    requires
        i + 8 <= v@.len(),
    ensures
        r == read_u64_be(v@, i as int),
{
    let n = v.len();
    assert(i + 8 <= n);
    (get_u32_be(v, i) as u64) * 0x100000000 + (get_u32_be(v, i + 4) as u64)
}

/// The 16-byte connect request: the protocol magic, action 0, and the
/// transaction id.
pub open spec fn spec_connect_frame(tid: i32) -> Seq<u8> {
    be8(PROTOCOL_MAGIC) + be4(0u32) + be4(tid as u32)
}

/// Builds the connect request frame for a given transaction id.
pub fn build_connect_frame(tid: i32) -> (r: Vec<u8>)
    ensures
        r@ == spec_connect_frame(tid),
        r@.len() == 16,
{
    let mut out: Vec<u8> = Vec::new();
    push_be8(&mut out, PROTOCOL_MAGIC);
    push_be4(&mut out, 0u32);
    push_be4(&mut out, tid as u32);
    proof {
        assert(out@ =~= spec_connect_frame(tid));
    }
    out
}

/// Relies on `rand::random`, which draws a value from the thread's
/// generator; nothing is promised of the outcome.
pub assume_specification<T>[ rand::random::<T> ]() -> (r: T)
    where
        rand::distributions::Standard: rand::distributions::Distribution<T>,
;

/// Builds a connect request around a fresh random transaction id; returns
/// the 16-byte frame and the id, to be matched against the reply.
pub fn connect_request() -> (r: (Vec<u8>, i32))
    ensures
        r.0@ == spec_connect_frame(r.1),
        r.0@.len() == 16,
{
    let tid: i32 = rand::random();
    (build_connect_frame(tid), tid)
}

/// Whether a reply buffer still holds only zeros, that is, whether nothing
/// has been written into it yet.
pub fn reply_is_empty(buf: &Vec<u8>) -> (r: bool)
    ensures
        r == (forall|k: int| 0 <= k < buf@.len() ==> buf@[k] == 0),
{
    let mut k: usize = 0;
    while k < buf.len()
        invariant
            k <= buf@.len(),
            forall|m: int| 0 <= m < k ==> buf@[m] == 0,
        decreases buf@.len() - k,
    {
        if buf[k] != 0 {
            return false;
        }
        k = k + 1;
    }
    true
}

/// Interprets a 16-byte connect reply: the connection id it carries,
/// provided the reply's transaction id matches the one sent; otherwise
/// nothing.
pub open spec fn spec_connect_reply(s: Seq<u8>, sent_tid: i32) -> Option<i64> {
    if read_u32_be(s, 4) as i32 == sent_tid {
        Some(read_u64_be(s, 8) as i64)
    } else {
        None
    }
}

/// Reads a connect reply, as `spec_connect_reply` describes it.
pub fn parse_connect_reply(buf: &Vec<u8>, sent_tid: i32) -> (r: Option<i64>)
    requires
        buf@.len() >= 16,
    ensures
        r == spec_connect_reply(buf@, sent_tid),
{
    let tid_recv = get_u32_be(buf, 4) as i32;
    if tid_recv == sent_tid {
        Some(get_u64_be(buf, 8) as i64)
    } else {
        None
    }
}

/// The wire code of an announce event: 0 none, 1 completed, 2 started, 3
/// stopped.
pub open spec fn spec_event_code(e: Option<Event>) -> u32 {
    match e {
        None => 0u32,
        Some(Event::Completed) => 1u32,
        Some(Event::Started) => 2u32,
        Some(Event::Stopped) => 3u32,
    }
}

/// The 4-byte ip field: the v4 octets, or zero when absent or v6.
pub open spec fn spec_ip_field(ip: Option<ClientIp>) -> Seq<u8> {
    match ip {
        Some(ClientIp::V4(a, b, c, d)) => seq![a, b, c, d],
        _ => be4(0u32),
    }
}

/// The numwant field: the wished-for peer count, or all ones for "let the
/// tracker decide".
pub open spec fn spec_numwant(pc: Option<u64>) -> u32 {
    match pc {
        Some(n) => n as u32,
        None => 0xFFFFFFFFu32,
    }
}

/// The 98-byte announce request frame of BEP-15.
pub open spec fn spec_announce_frame(cid: i64, tid: i32, key: u32, a: Announce) -> Seq<u8> {
    be8(cid as u64) + be4(1u32) + be4(tid as u32) + a.info_hash@ + a.peer_id@ + be8(a.downloaded)
        + be8(a.left) + be8(a.uploaded) + be4(spec_event_code(a.event)) + spec_ip_field(a.ip)
        + be4(key) + be4(spec_numwant(a.peer_count)) + be2(a.port)
}

/// Builds the announce request frame, as `spec_announce_frame` describes it.
pub fn build_announce_frame(cid: i64, tid: i32, key: u32, a: &Announce) -> (r: Vec<u8>)
    requires
        announce_wf(*a),
    ensures
        r@ == spec_announce_frame(cid, tid, key, *a),
        r@.len() == 98,
{
    let mut out: Vec<u8> = Vec::new();
    push_be8(&mut out, cid as u64);
    push_be4(&mut out, 1u32);
    push_be4(&mut out, tid as u32);
    crate::announce::push_all(&mut out, &a.info_hash);
    crate::announce::push_all(&mut out, &a.peer_id);
    push_be8(&mut out, a.downloaded);
    push_be8(&mut out, a.left);
    push_be8(&mut out, a.uploaded);
    let event_code: u32 = match a.event {
        None => 0,
        Some(Event::Completed) => 1,
        Some(Event::Started) => 2,
        Some(Event::Stopped) => 3,
    };
    push_be4(&mut out, event_code);
    match &a.ip {
        Some(ClientIp::V4(o0, o1, o2, o3)) => {
            let ghost mid = out@;
            out.push(*o0);
            out.push(*o1);
            out.push(*o2);
            out.push(*o3);
            proof {
                assert(out@ =~= mid + spec_ip_field(a.ip));
            }
        },
        _ => {
            push_be4(&mut out, 0u32);
        },
    }
    push_be4(&mut out, key);
    let numwant: u32 = match a.peer_count {
        Some(n) => n as u32,
        None => 0xFFFFFFFF,
    };
    push_be4(&mut out, numwant);
    push_be2(&mut out, a.port);
    proof {
        assert(out@ =~= spec_announce_frame(cid, tid, key, *a));
    }
    out
}

/// Builds an announce request around a fresh random transaction id and key;
/// returns the frame, the transaction id to match against the reply, and the
/// key.
pub fn announce_request(cid: i64, a: &Announce) -> (r: (Vec<u8>, i32, u32))
    requires
        announce_wf(*a),
    ensures
        r.0@ == spec_announce_frame(cid, r.1, r.2, *a),
        r.0@.len() == 98,
{
    let tid: i32 = rand::random();
    let key: u32 = rand::random();
    (build_announce_frame(cid, tid, key, a), tid, key)
}

/// The peer records of an announce reply, 6 bytes each from position `i`,
/// up to the first record that is all zero in both address and port (the
/// unused tail of the receive buffer) or the end of the buffer.
pub open spec fn spec_udp_peers(s: Seq<u8>, i: int) -> Seq<PeerAddr>
    decreases s.len() - i,
{
    if i < 0 || i + 6 > s.len() {
        Seq::empty()
    } else {
        let p = PeerAddr {
            o0: s[i],
            o1: s[i + 1],
            o2: s[i + 2],
            o3: s[i + 3],
            port: be16(s[i + 4], s[i + 5]),
        };
        if p.o0 == 0 && p.o1 == 0 && p.o2 == 0 && p.o3 == 0 && p.port == 0 {
            Seq::empty()
        } else {
            seq![p] + spec_udp_peers(s, i + 6)
        }
    }
}

/// The normalized response read from an announce reply buffer. The reply's
/// own interval field is surfaced; the received transaction id becomes the
/// tracker id, in decimal; a timeout or a transaction id mismatch is
/// reported in band through `failure_reason`.
pub open spec fn spec_udp_response(s: Seq<u8>, sent_tid: i32, timed_out: bool) -> ResponseModel {
    let tid_recv = read_u32_be(s, 4) as i32;
    ResponseModel {
        tracker_id: Some(spec_idec(tid_recv as int)),
        failure_reason: if timed_out {
            Some(msg_no_response())
        } else if tid_recv != sent_tid {
            Some(msg_tid_mismatch())
        } else {
            None
        },
        warning_message: None,
        interval: Some(read_u32_be(s, 8) as u64),
        min_interval: None,
        seeder_count: Some(read_u32_be(s, 16) as u64),
        leecher_count: Some(read_u32_be(s, 12) as u64),
        peers: spec_udp_peers(s, 20),
    }
}

/// The failure text `"Couldn't announce to tracker"`.
pub open spec fn msg_no_response() -> Seq<u8> {
    seq![67, 111, 117, 108, 100, 110, 39, 116, 32, 97, 110, 110, 111, 117, 110, 99, 101, 32, 116, 111, 32, 116, 114, 97, 99, 107, 101, 114]
}

fn msg_no_response_vec() -> (r: Vec<u8>)
    ensures
        r@ == msg_no_response(),
{
    let mut r: Vec<u8> = Vec::new();
    r.push(67);
    r.push(111);
    r.push(117);
    r.push(108);
    r.push(100);
    r.push(110);
    r.push(39);
    r.push(116);
    r.push(32);
    r.push(97);
    r.push(110);
    r.push(110);
    r.push(111);
    r.push(117);
    r.push(110);
    r.push(99);
    r.push(101);
    r.push(32);
    r.push(116);
    r.push(111);
    r.push(32);
    r.push(116);
    r.push(114);
    r.push(97);
    r.push(99);
    r.push(107);
    r.push(101);
    r.push(114);
    proof {
        assert(r@ =~= msg_no_response());
    }
    r
}

/// The failure text `"Transaction ID's did not match"`.
pub open spec fn msg_tid_mismatch() -> Seq<u8> {
    seq![84, 114, 97, 110, 115, 97, 99, 116, 105, 111, 110, 32, 73, 68, 39, 115, 32, 100, 105, 100, 32, 110, 111, 116, 32, 109, 97, 116, 99, 104]
}

fn msg_tid_mismatch_vec() -> (r: Vec<u8>)
    ensures
        r@ == msg_tid_mismatch(),
{
    let mut r: Vec<u8> = Vec::new();
    r.push(84);
    r.push(114);
    r.push(97);
    r.push(110);
    r.push(115);
    r.push(97);
    r.push(99);
    r.push(116);
    r.push(105);
    r.push(111);
    r.push(110);
    r.push(32);
    r.push(73);
    r.push(68);
    r.push(39);
    r.push(115);
    r.push(32);
    r.push(100);
    r.push(105);
    r.push(100);
    r.push(32);
    r.push(110);
    r.push(111);
    r.push(116);
    r.push(32);
    r.push(109);
    r.push(97);
    r.push(116);
    r.push(99);
    r.push(104);
    proof {
        assert(r@ =~= msg_tid_mismatch());
    }
    r
}

/// Decodes an announce reply buffer into the normalized response, as
/// `spec_udp_response` describes it. `timed_out` says whether any reply
/// arrived at all.
pub fn parse_announce_reply(buf: &Vec<u8>, sent_tid: i32, timed_out: bool) -> (r: Response)
    requires
        buf@.len() >= 20,
    ensures
        r@ == spec_udp_response(buf@, sent_tid, timed_out),
{
    let tid_recv = get_u32_be(buf, 4) as i32;
    let interval = get_u32_be(buf, 8) as u64;
    let leechers = get_u32_be(buf, 12) as u64;
    let seeders = get_u32_be(buf, 16) as u64;

    let failure_reason: Option<Vec<u8>> = if timed_out {
        Some(msg_no_response_vec())
    } else if tid_recv != sent_tid {
        Some(msg_tid_mismatch_vec())
    } else {
        None
    };

    let mut tracker_id: Vec<u8> = Vec::new();
    push_decimal_i32(&mut tracker_id, tid_recv);
    proof {
        assert(tracker_id@ =~= spec_idec(tid_recv as int));
    }

    let mut peers: Vec<PeerAddr> = Vec::new();
    let mut i: usize = 20;
    let mut stop = false;
    while buf.len() - i >= 6 && !stop
        invariant
            20 <= i <= buf@.len(),
            peers@ + spec_udp_peers(buf@, i as int) == spec_udp_peers(buf@, 20),
            stop ==> spec_udp_peers(buf@, i as int) =~= Seq::<PeerAddr>::empty(),
        decreases buf@.len() - i + (if stop {
            0int
        } else {
            1int
        }),
    {
        let port: u16 = (buf[i + 4] as u16) * 256 + (buf[i + 5] as u16);
        let p = PeerAddr { o0: buf[i], o1: buf[i + 1], o2: buf[i + 2], o3: buf[i + 3], port };
        if p.o0 == 0 && p.o1 == 0 && p.o2 == 0 && p.o3 == 0 && p.port == 0 {
            stop = true;
        } else {
            proof {
                assert(peers@.push(p) + spec_udp_peers(buf@, i + 6) =~= peers@ + spec_udp_peers(
                    buf@,
                    i as int,
                ));
            }
            peers.push(p);
            i = i + 6;
        }
    }
    proof {
        if !stop {
            assert(spec_udp_peers(buf@, i as int) =~= Seq::<PeerAddr>::empty());
        }
        assert(peers@ =~= spec_udp_peers(buf@, 20));
    }

    Response {
        tracker_id: Some(tracker_id),
        failure_reason,
        warning_message: None,
        interval: Some(interval),
        min_interval: None,
        seeder_count: Some(seeders),
        leecher_count: Some(leechers),
        peers,
    }
}

} // verus!
