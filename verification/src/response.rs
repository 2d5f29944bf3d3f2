//! The normalized tracker announce response and the decoder for the Bencode
//! dictionary an HTTP tracker returns.
//!
//! Recognized keys: `tracker id`, `failure reason`, `warning message`,
//! `interval`, `min interval`, `complete` (seeders), `incomplete` (leechers)
//! and `peers` (compact byte string or a list of `{ip, port}` dictionaries).
//! Unrecognized keys are skipped; a duplicate recognized key, a negative or
//! oversized integer, or malformed Bencode fails the decode. Bytes after the
//! top-level dictionary are ignored.

use vstd::prelude::*;
use crate::ascii::{LC_D, LC_E, LC_L};
use crate::bencode::{
    is_digit, bstr_bounds, uint_value, value_end, read_bstr_bounds, read_uint, skip_value,
};
use crate::peers::{
    PeerAddr, spec_parse_compact, parse_compact_peers, spec_parse_ipv4, parse_ipv4_text,
};

verus! {

/// A malformed tracker response body.
#[derive(Clone, Copy, Debug, PartialEq, Eq, Structural)]
pub struct BencodeError;

/// The normalized tracker announce response.
#[derive(Clone, Debug)]
pub struct Response {
    /// The tracker id to echo in subsequent announces, if the tracker set one.
    pub tracker_id: Option<Vec<u8>>,
    /// If set, the announce failed and no other field need be meaningful.
    pub failure_reason: Option<Vec<u8>>,
    /// A warning that does not invalidate the rest of the response.
    pub warning_message: Option<Vec<u8>>,
    /// Seconds to wait before the next announce.
    pub interval: Option<u64>,
    /// Seconds before which the tracker must not be recontacted.
    pub min_interval: Option<u64>,
    /// The number of seeders in the swarm.
    pub seeder_count: Option<u64>,
    /// The number of leechers in the swarm.
    pub leecher_count: Option<u64>,
    /// The peers to download from.
    pub peers: Vec<PeerAddr>,
}

/// The mathematical picture of a `Response`.
pub struct ResponseModel {
    pub tracker_id: Option<Seq<u8>>,
    pub failure_reason: Option<Seq<u8>>,
    pub warning_message: Option<Seq<u8>>,
    pub interval: Option<u64>,
    pub min_interval: Option<u64>,
    pub seeder_count: Option<u64>,
    pub leecher_count: Option<u64>,
    pub peers: Seq<PeerAddr>,
}

/// The view of an optional byte buffer.
pub open spec fn view_opt_bytes(o: Option<Vec<u8>>) -> Option<Seq<u8>> {
    match o {
        Some(v) => Some(v@),
        None => None,
    }
}

impl View for Response {
    type V = ResponseModel;

    open spec fn view(&self) -> ResponseModel {
        ResponseModel {
            tracker_id: view_opt_bytes(self.tracker_id),
            failure_reason: view_opt_bytes(self.failure_reason),
            warning_message: view_opt_bytes(self.warning_message),
            interval: self.interval,
            min_interval: self.min_interval,
            seeder_count: self.seeder_count,
            leecher_count: self.leecher_count,
            peers: self.peers@,
        }
    }
}

/// The fields gathered while walking the response dictionary; `peers` is
/// still optional so that a duplicate `peers` key can be recognized.
pub struct PartialModel {
    pub tracker_id: Option<Seq<u8>>,
    pub failure_reason: Option<Seq<u8>>,
    pub warning_message: Option<Seq<u8>>,
    pub interval: Option<u64>,
    pub min_interval: Option<u64>,
    pub seeder_count: Option<u64>,
    pub leecher_count: Option<u64>,
    pub peers: Option<Seq<PeerAddr>>,
}

struct Partial {
    tracker_id: Option<Vec<u8>>,
    failure_reason: Option<Vec<u8>>,
    warning_message: Option<Vec<u8>>,
    interval: Option<u64>,
    min_interval: Option<u64>,
    seeder_count: Option<u64>,
    leecher_count: Option<u64>,
    peers: Option<Vec<PeerAddr>>,
}

impl View for Partial {
    type V = PartialModel;

    closed spec fn view(&self) -> PartialModel {
        PartialModel {
            tracker_id: view_opt_bytes(self.tracker_id),
            failure_reason: view_opt_bytes(self.failure_reason),
            warning_message: view_opt_bytes(self.warning_message),
            interval: self.interval,
            min_interval: self.min_interval,
            seeder_count: self.seeder_count,
            leecher_count: self.leecher_count,
            peers: match self.peers {
                Some(ps) => Some(ps@),
                None => None,
            },
        }
    }
}

/// No field seen yet.
pub open spec fn empty_partial() -> PartialModel {
    PartialModel {
        tracker_id: None,
        failure_reason: None,
        warning_message: None,
        interval: None,
        min_interval: None,
        seeder_count: None,
        leecher_count: None,
        peers: None,
    }
}

/// A finished walk: a missing `peers` key means an empty peer list.
pub open spec fn finish_partial(acc: PartialModel) -> ResponseModel {
    ResponseModel {
        tracker_id: acc.tracker_id,
        failure_reason: acc.failure_reason,
        warning_message: acc.warning_message,
        interval: acc.interval,
        min_interval: acc.min_interval,
        seeder_count: acc.seeder_count,
        leecher_count: acc.leecher_count,
        peers: match acc.peers {
            Some(ps) => ps,
            None => Seq::empty(),
        },
    }
}

/// The dictionary key `"tracker id"`.
pub open spec fn key_tracker_id() -> Seq<u8> {
    seq![116, 114, 97, 99, 107, 101, 114, 32, 105, 100]
}

fn key_tracker_id_vec() -> (r: Vec<u8>)
    ensures
        r@ == key_tracker_id(),
{
    let mut r: Vec<u8> = Vec::new();
    r.push(116);
    r.push(114);
    r.push(97);
    r.push(99);
    r.push(107);
    r.push(101);
    r.push(114);
    r.push(32);
    r.push(105);
    r.push(100);
    proof {
        assert(r@ =~= key_tracker_id());
    }
    r
}

/// The dictionary key `"failure reason"`.
pub open spec fn key_failure_reason() -> Seq<u8> {
    seq![102, 97, 105, 108, 117, 114, 101, 32, 114, 101, 97, 115, 111, 110]
}

fn key_failure_reason_vec() -> (r: Vec<u8>)
    ensures
        r@ == key_failure_reason(),
{
    let mut r: Vec<u8> = Vec::new();
    r.push(102);
    r.push(97);
    r.push(105);
    r.push(108);
    r.push(117);
    r.push(114);
    r.push(101);
    r.push(32);
    r.push(114);
    r.push(101);
    r.push(97);
    r.push(115);
    r.push(111);
    r.push(110);
    proof {
        assert(r@ =~= key_failure_reason());
    }
    r
}

/// The dictionary key `"warning message"`.
pub open spec fn key_warning_message() -> Seq<u8> {
    seq![119, 97, 114, 110, 105, 110, 103, 32, 109, 101, 115, 115, 97, 103, 101]
}

fn key_warning_message_vec() -> (r: Vec<u8>)
    ensures
        r@ == key_warning_message(),
{
    let mut r: Vec<u8> = Vec::new();
    r.push(119);
    r.push(97);
    r.push(114);
    r.push(110);
    r.push(105);
    r.push(110);
    r.push(103);
    r.push(32);
    r.push(109);
    r.push(101);
    r.push(115);
    r.push(115);
    r.push(97);
    r.push(103);
    r.push(101);
    proof {
        assert(r@ =~= key_warning_message());
    }
    r
}

/// The dictionary key `"interval"`.
pub open spec fn key_interval() -> Seq<u8> {
    seq![105, 110, 116, 101, 114, 118, 97, 108]
}

fn key_interval_vec() -> (r: Vec<u8>)
    ensures
        r@ == key_interval(),
{
    let mut r: Vec<u8> = Vec::new();
    r.push(105);
    r.push(110);
    r.push(116);
    r.push(101);
    r.push(114);
    r.push(118);
    r.push(97);
    r.push(108);
    proof {
        assert(r@ =~= key_interval());
    }
    r
}

/// The dictionary key `"min interval"`.
pub open spec fn key_min_interval() -> Seq<u8> {
    seq![109, 105, 110, 32, 105, 110, 116, 101, 114, 118, 97, 108]
}

fn key_min_interval_vec() -> (r: Vec<u8>)
    ensures
        r@ == key_min_interval(),
{
    let mut r: Vec<u8> = Vec::new();
    r.push(109);
    r.push(105);
    r.push(110);
    r.push(32);
    r.push(105);
    r.push(110);
    r.push(116);
    r.push(101);
    r.push(114);
    r.push(118);
    r.push(97);
    r.push(108);
    proof {
        assert(r@ =~= key_min_interval());
    }
    r
}

/// The dictionary key `"complete"`.
pub open spec fn key_complete() -> Seq<u8> {
    seq![99, 111, 109, 112, 108, 101, 116, 101]
}

fn key_complete_vec() -> (r: Vec<u8>)
    ensures
        r@ == key_complete(),
{
    let mut r: Vec<u8> = Vec::new();
    r.push(99);
    r.push(111);
    r.push(109);
    r.push(112);
    r.push(108);
    r.push(101);
    r.push(116);
    r.push(101);
    proof {
        assert(r@ =~= key_complete());
    }
    r
}

/// The dictionary key `"incomplete"`.
pub open spec fn key_incomplete() -> Seq<u8> {
    seq![105, 110, 99, 111, 109, 112, 108, 101, 116, 101]
}

fn key_incomplete_vec() -> (r: Vec<u8>)
    ensures
        r@ == key_incomplete(),
{
    let mut r: Vec<u8> = Vec::new();
    r.push(105);
    r.push(110);
    r.push(99);
    r.push(111);
    r.push(109);
    r.push(112);
    r.push(108);
    r.push(101);
    r.push(116);
    r.push(101);
    proof {
        assert(r@ =~= key_incomplete());
    }
    r
}

/// The dictionary key `"peers"`.
pub open spec fn key_peers() -> Seq<u8> {
    seq![112, 101, 101, 114, 115]
}

fn key_peers_vec() -> (r: Vec<u8>)
    ensures
        r@ == key_peers(),
{
    let mut r: Vec<u8> = Vec::new();
    r.push(112);
    r.push(101);
    r.push(101);
    r.push(114);
    r.push(115);
    proof {
        assert(r@ =~= key_peers());
    }
    r
}

/// The dictionary key `"ip"`.
pub open spec fn key_ip() -> Seq<u8> {
    seq![105, 112]
}

fn key_ip_vec() -> (r: Vec<u8>)
    ensures
        r@ == key_ip(),
{
    let mut r: Vec<u8> = Vec::new();
    r.push(105);
    r.push(112);
    proof {
        assert(r@ =~= key_ip());
    }
    r
}

/// The dictionary key `"port"`.
pub open spec fn key_port() -> Seq<u8> {
    seq![112, 111, 114, 116]
}

fn key_port_vec() -> (r: Vec<u8>)
    ensures
        r@ == key_port(),
{
    let mut r: Vec<u8> = Vec::new();
    r.push(112);
    r.push(111);
    r.push(114);
    r.push(116);
    proof {
        assert(r@ =~= key_port());
    }
    r
}

/// One entry of the full peer list: a dictionary that must carry `ip` (a
/// byte string) and `port` (an integer up to 65535); other keys, such as the
/// peer's id, are skipped. Yields the ip text, the port, and the position
/// after the closing `e`.
pub open spec fn sp_peer_dict(
    s: Seq<u8>,
    i: int,
    ip: Option<Seq<u8>>,
    port: Option<u16>,
    fuel: nat,
) -> Option<(Seq<u8>, u16, int)>
    decreases fuel,
{
    if fuel == 0 {
        None
    } else if !(0 <= i && i < s.len()) {
        None
    } else if s[i] == LC_E {
        match (ip, port) {
            (Some(a), Some(p)) => Some((a, p, i + 1)),
            _ => None,
        }
    } else {
        match bstr_bounds(s, i) {
            None => None,
            Some((ks, ke)) => {
                let key = s.subrange(ks, ke);
                if key == key_ip() {
                    if ip is Some {
                        None
                    } else {
                        match bstr_bounds(s, ke) {
                            None => None,
                            Some((cs, ce)) => sp_peer_dict(
                                s,
                                ce,
                                Some(s.subrange(cs, ce)),
                                port,
                                (fuel - 1) as nat,
                            ),
                        }
                    }
                } else if key == key_port() {
                    if port is Some {
                        None
                    } else {
                        match uint_value(s, ke) {
                            None => None,
                            Some((n, j)) => if n > 65535 {
                                None
                            } else {
                                sp_peer_dict(s, j, ip, Some(n as u16), (fuel - 1) as nat)
                            },
                        }
                    }
                } else {
                    match value_end(s, ke, (fuel - 1) as nat) {
                        None => None,
                        Some(j) => sp_peer_dict(s, j, ip, port, (fuel - 1) as nat),
                    }
                }
            },
        }
    }
}

/// The full peer list: `{ip, port}` dictionaries up to the closing `e`. An
/// entry whose ip text is not a dotted-quad IPv4 address is skipped
/// silently.
pub open spec fn sp_peer_list(s: Seq<u8>, i: int, acc: Seq<PeerAddr>, fuel: nat) -> Option<
    (Seq<PeerAddr>, int),
>
    decreases fuel,
{
    if fuel == 0 {
        None
    } else if !(0 <= i && i < s.len()) {
        None
    } else if s[i] == LC_E {
        Some((acc, i + 1))
    } else if s[i] == LC_D {
        match sp_peer_dict(s, i + 1, None, None, (fuel - 1) as nat) {
            None => None,
            Some((ip, port, j)) => {
                let acc2 = match spec_parse_ipv4(ip) {
                    Some((a, b, c, d)) => acc.push(
                        PeerAddr { o0: a, o1: b, o2: c, o3: d, port },
                    ),
                    None => acc,
                };
                sp_peer_list(s, j, acc2, (fuel - 1) as nat)
            },
        }
    } else {
        None
    }
}

/// The value of the `peers` key, in either of its two shapes: a compact
/// byte string of 6-byte records, or a list of `{ip, port}` dictionaries.
pub open spec fn sp_peers_value(s: Seq<u8>, i: int, fuel: nat) -> Option<(Seq<PeerAddr>, int)> {
    if !(0 <= i && i < s.len()) {
        None
    } else if is_digit(s[i]) {
        match bstr_bounds(s, i) {
            None => None,
            Some((cs, ce)) => match spec_parse_compact(s.subrange(cs, ce)) {
                None => None,
                Some(ps) => Some((ps, ce)),
            },
        }
    } else if s[i] == LC_L {
        sp_peer_list(s, i + 1, Seq::empty(), fuel)
    } else {
        None
    }
}

/// Walks the key-value pairs of the response dictionary from position `i`,
/// filling `acc`, up to the closing `e`.
pub open spec fn sp_pairs(s: Seq<u8>, i: int, acc: PartialModel, fuel: nat) -> Option<PartialModel>
    decreases fuel,
{
    if fuel == 0 {
        None
    } else if !(0 <= i && i < s.len()) {
        None
    } else if s[i] == LC_E {
        Some(acc)
    } else {
        match bstr_bounds(s, i) {
            None => None,
            Some((ks, ke)) => {
                let key = s.subrange(ks, ke);
                if key == key_tracker_id() {
                    if acc.tracker_id is Some {
                        None
                    } else {
                        match bstr_bounds(s, ke) {
                            None => None,
                            Some((cs, ce)) => sp_pairs(
                                s,
                                ce,
                                PartialModel { tracker_id: Some(s.subrange(cs, ce)), ..acc },
                                (fuel - 1) as nat,
                            ),
                        }
                    }
                } else if key == key_failure_reason() {
                    if acc.failure_reason is Some {
                        None
                    } else {
                        match bstr_bounds(s, ke) {
                            None => None,
                            Some((cs, ce)) => sp_pairs(
                                s,
                                ce,
                                PartialModel { failure_reason: Some(s.subrange(cs, ce)), ..acc },
                                (fuel - 1) as nat,
                            ),
                        }
                    }
                } else if key == key_warning_message() {
                    if acc.warning_message is Some {
                        None
                    } else {
                        match bstr_bounds(s, ke) {
                            None => None,
                            Some((cs, ce)) => sp_pairs(
                                s,
                                ce,
                                PartialModel { warning_message: Some(s.subrange(cs, ce)), ..acc },
                                (fuel - 1) as nat,
                            ),
                        }
                    }
                } else if key == key_interval() {
                    if acc.interval is Some {
                        None
                    } else {
                        match uint_value(s, ke) {
                            None => None,
                            Some((n, j)) => sp_pairs(
                                s,
                                j,
                                PartialModel { interval: Some(n as u64), ..acc },
                                (fuel - 1) as nat,
                            ),
                        }
                    }
                } else if key == key_min_interval() {
                    if acc.min_interval is Some {
                        None
                    } else {
                        match uint_value(s, ke) {
                            None => None,
                            Some((n, j)) => sp_pairs(
                                s,
                                j,
                                PartialModel { min_interval: Some(n as u64), ..acc },
                                (fuel - 1) as nat,
                            ),
                        }
                    }
                } else if key == key_complete() {
                    if acc.seeder_count is Some {
                        None
                    } else {
                        match uint_value(s, ke) {
                            None => None,
                            Some((n, j)) => sp_pairs(
                                s,
                                j,
                                PartialModel { seeder_count: Some(n as u64), ..acc },
                                (fuel - 1) as nat,
                            ),
                        }
                    }
                } else if key == key_incomplete() {
                    if acc.leecher_count is Some {
                        None
                    } else {
                        match uint_value(s, ke) {
                            None => None,
                            Some((n, j)) => sp_pairs(
                                s,
                                j,
                                PartialModel { leecher_count: Some(n as u64), ..acc },
                                (fuel - 1) as nat,
                            ),
                        }
                    }
                } else if key == key_peers() {
                    if acc.peers is Some {
                        None
                    } else {
                        match sp_peers_value(s, ke, (fuel - 1) as nat) {
                            None => None,
                            Some((ps, j)) => sp_pairs(
                                s,
                                j,
                                PartialModel { peers: Some(ps), ..acc },
                                (fuel - 1) as nat,
                            ),
                        }
                    }
                } else {
                    match value_end(s, ke, (fuel - 1) as nat) {
                        None => None,
                        Some(j) => sp_pairs(s, j, acc, (fuel - 1) as nat),
                    }
                }
            },
        }
    }
}

/// The whole response: a Bencode dictionary of the recognized keys.
pub open spec fn spec_parse_response(s: Seq<u8>) -> Option<ResponseModel> {
    if s.len() == 0 || s[0] != LC_D {
        None
    } else {
        match sp_pairs(s, 1, empty_partial(), s.len() as nat) {
            Some(acc) => Some(finish_partial(acc)),
            None => None,
        }
    }
}

/// Compares `v[ks..ke)` with `w`.
fn range_eq(v: &Vec<u8>, ks: usize, ke: usize, w: &Vec<u8>) -> (r: bool)
    requires
        ks <= ke <= v@.len(),
    ensures
        r == (v@.subrange(ks as int, ke as int) == w@),
{
    if ke - ks != w.len() {
        return false;
    }
    let mut m: usize = 0;
    while m < w.len()
        invariant
            ks <= ke <= v@.len(),
            ke - ks == w@.len(),
            m <= w@.len(),
            forall|t: int| 0 <= t < m ==> v@[ks + t] == #[trigger] w@[t],
        decreases w@.len() - m,
    {
        if v[ks + m] != w[m] {
            proof {
                assert(v@.subrange(ks as int, ke as int)[m as int] == v@[ks + m]);
            }
            return false;
        }
        m = m + 1;
    }
    proof {
        assert(v@.subrange(ks as int, ke as int) =~= w@);
    }
    true
}

/// Copies `v[s..e)` into a fresh buffer.
fn copy_range(v: &Vec<u8>, s: usize, e: usize) -> (r: Vec<u8>)
    requires
        s <= e <= v@.len(),
    ensures
        r@ == v@.subrange(s as int, e as int),
{
    let mut out: Vec<u8> = Vec::new();
    let mut k = s;
    while k < e
        invariant
            s <= k <= e <= v@.len(),
            out@ == v@.subrange(s as int, k as int),
        decreases e - k,
    {
        out.push(v[k]);
        proof {
            assert(out@ =~= v@.subrange(s as int, k + 1 as int));
        }
        k = k + 1;
    }
    out
}

fn parse_peer_dict(v: &Vec<u8>, i: usize, ip: Option<Vec<u8>>, port: Option<u16>, fuel: usize) -> (r:
    Option<(Vec<u8>, u16, usize)>)
    requires
        i <= v@.len(),
    ensures
        match r {
            Some((a, p, j)) => sp_peer_dict(
                v@,
                i as int,
                view_opt_bytes(ip),
                port,
                fuel as nat,
            ) == Some((a@, p, j as int)) && i < j <= v@.len(),
            None => sp_peer_dict(v@, i as int, view_opt_bytes(ip), port, fuel as nat) is None,
        },
    decreases fuel,
{
    if fuel == 0 || i >= v.len() {
        return None;
    }
    if v[i] == LC_E {
        return match (ip, port) {
            (Some(a), Some(p)) => Some((a, p, i + 1)),
            _ => None,
        };
    }
    let kb = read_bstr_bounds(v, i);
    let (ks, ke) = match kb {
        Some(x) => x,
        None => {
            return None;
        },
    };
    if range_eq(v, ks, ke, &key_ip_vec()) {
        if ip.is_some() {
            return None;
        }
        match read_bstr_bounds(v, ke) {
            None => None,
            Some((cs, ce)) => {
                let text = copy_range(v, cs, ce);
                parse_peer_dict(v, ce, Some(text), port, fuel - 1)
            },
        }
    } else if range_eq(v, ks, ke, &key_port_vec()) {
        if port.is_some() {
            return None;
        }
        match read_uint(v, ke) {
            None => None,
            Some((n, j)) => {
                if n > 65535 {
                    return None;
                }
                parse_peer_dict(v, j, ip, Some(n as u16), fuel - 1)
            },
        }
    } else {
        match skip_value(v, ke, fuel - 1) {
            None => None,
            Some(j) => parse_peer_dict(v, j, ip, port, fuel - 1),
        }
    }
}

fn parse_peer_list(v: &Vec<u8>, i: usize, acc: Vec<PeerAddr>, fuel: usize) -> (r: Option<
    (Vec<PeerAddr>, usize)>)
    requires
        i <= v@.len(),
    ensures
        match r {
            Some((ps, j)) => sp_peer_list(v@, i as int, acc@, fuel as nat) == Some(
                (ps@, j as int),
            ) && i < j <= v@.len(),
            None => sp_peer_list(v@, i as int, acc@, fuel as nat) is None,
        },
    decreases fuel,
{
    if fuel == 0 || i >= v.len() {
        return None;
    }
    if v[i] == LC_E {
        return Some((acc, i + 1));
    }
    if v[i] != LC_D {
        return None;
    }
    match parse_peer_dict(v, i + 1, None, None, fuel - 1) {
        None => None,
        Some((ip, port, j)) => {
            let mut acc2 = acc;
            match parse_ipv4_text(&ip) {
                Some((a, b, c, d)) => {
                    acc2.push(PeerAddr { o0: a, o1: b, o2: c, o3: d, port });
                },
                None => {},
            }
            parse_peer_list(v, j, acc2, fuel - 1)
        },
    }
}

fn parse_peers_value(v: &Vec<u8>, i: usize, fuel: usize) -> (r: Option<(Vec<PeerAddr>, usize)>)
    requires
        i <= v@.len(),
    ensures
        match r {
            Some((ps, j)) => sp_peers_value(v@, i as int, fuel as nat) == Some((ps@, j as int)) && i
                < j <= v@.len(),
            None => sp_peers_value(v@, i as int, fuel as nat) is None,
        },
{
    if i >= v.len() {
        return None;
    }
    let b = v[i];
    if b >= crate::ascii::ZERO && b <= crate::ascii::NINE {
        match read_bstr_bounds(v, i) {
            None => None,
            Some((cs, ce)) => match parse_compact_peers(v, cs, ce) {
                None => None,
                Some(ps) => Some((ps, ce)),
            },
        }
    } else if b == LC_L {
        let empty: Vec<PeerAddr> = Vec::new();
        parse_peer_list(v, i + 1, empty, fuel)
    } else {
        None
    }
}

fn parse_pairs(v: &Vec<u8>, i: usize, acc: Partial, fuel: usize) -> (r: Option<Partial>)
    requires
        i <= v@.len(),
    ensures
        match r {
            Some(p) => sp_pairs(v@, i as int, acc@, fuel as nat) == Some(p@),
            None => sp_pairs(v@, i as int, acc@, fuel as nat) is None,
        },
    decreases fuel,
{
    if fuel == 0 || i >= v.len() {
        return None;
    }
    if v[i] == LC_E {
        return Some(acc);
    }
    let kb = read_bstr_bounds(v, i);
    let (ks, ke) = match kb {
        Some(x) => x,
        None => {
            return None;
        },
    };
    if range_eq(v, ks, ke, &key_tracker_id_vec()) {
        if acc.tracker_id.is_some() {
            return None;
        }
        match read_bstr_bounds(v, ke) {
            None => None,
            Some((cs, ce)) => {
                let text = copy_range(v, cs, ce);
                parse_pairs(v, ce, Partial { tracker_id: Some(text), ..acc }, fuel - 1)
            },
        }
    } else if range_eq(v, ks, ke, &key_failure_reason_vec()) {
        if acc.failure_reason.is_some() {
            return None;
        }
        match read_bstr_bounds(v, ke) {
            None => None,
            Some((cs, ce)) => {
                let text = copy_range(v, cs, ce);
                parse_pairs(v, ce, Partial { failure_reason: Some(text), ..acc }, fuel - 1)
            },
        }
    } else if range_eq(v, ks, ke, &key_warning_message_vec()) {
        if acc.warning_message.is_some() {
            return None;
        }
        match read_bstr_bounds(v, ke) {
            None => None,
            Some((cs, ce)) => {
                let text = copy_range(v, cs, ce);
                parse_pairs(v, ce, Partial { warning_message: Some(text), ..acc }, fuel - 1)
            },
        }
    } else if range_eq(v, ks, ke, &key_interval_vec()) {
        if acc.interval.is_some() {
            return None;
        }
        match read_uint(v, ke) {
            None => None,
            Some((n, j)) => parse_pairs(v, j, Partial { interval: Some(n), ..acc }, fuel - 1),
        }
    } else if range_eq(v, ks, ke, &key_min_interval_vec()) {
        if acc.min_interval.is_some() {
            return None;
        }
        match read_uint(v, ke) {
            None => None,
            Some((n, j)) => parse_pairs(v, j, Partial { min_interval: Some(n), ..acc }, fuel - 1),
        }
    } else if range_eq(v, ks, ke, &key_complete_vec()) {
        if acc.seeder_count.is_some() {
            return None;
        }
        match read_uint(v, ke) {
            None => None,
            Some((n, j)) => parse_pairs(v, j, Partial { seeder_count: Some(n), ..acc }, fuel - 1),
        }
    } else if range_eq(v, ks, ke, &key_incomplete_vec()) {
        if acc.leecher_count.is_some() {
            return None;
        }
        match read_uint(v, ke) {
            None => None,
            Some((n, j)) => parse_pairs(v, j, Partial { leecher_count: Some(n), ..acc }, fuel - 1),
        }
    } else if range_eq(v, ks, ke, &key_peers_vec()) {
        if acc.peers.is_some() {
            return None;
        }
        match parse_peers_value(v, ke, fuel - 1) {
            None => None,
            Some((ps, j)) => parse_pairs(v, j, Partial { peers: Some(ps), ..acc }, fuel - 1),
        }
    } else {
        match skip_value(v, ke, fuel - 1) {
            None => None,
            Some(j) => parse_pairs(v, j, acc, fuel - 1),
        }
    }
}

/// Decodes the Bencode dictionary of a tracker's HTTP response body into the
/// normalized `Response`, exactly as `spec_parse_response` describes it.
pub fn parse_response(v: &Vec<u8>) -> (r: Result<Response, BencodeError>)
    ensures
        match spec_parse_response(v@) {
            Some(m) => r matches Ok(resp) && resp@ == m,
            None => r matches Err(_),
        },
{
    if v.len() == 0 {
        return Err(BencodeError);
    }
    if v[0] != LC_D {
        return Err(BencodeError);
    }
    let acc = Partial {
        tracker_id: None,
        failure_reason: None,
        warning_message: None,
        interval: None,
        min_interval: None,
        seeder_count: None,
        leecher_count: None,
        peers: None,
    };
    proof {
        assert(acc@ == empty_partial());
    }
    match parse_pairs(v, 1, acc, v.len()) {
        None => Err(BencodeError),
        Some(p) => {
            let peers = match p.peers {
                Some(ps) => ps,
                None => Vec::new(),
            };
            let resp = Response {
                tracker_id: p.tracker_id,
                failure_reason: p.failure_reason,
                warning_message: p.warning_message,
                interval: p.interval,
                min_interval: p.min_interval,
                seeder_count: p.seeder_count,
                leecher_count: p.leecher_count,
                peers,
            };
            proof {
                assert(resp@.peers =~= finish_partial(
                    sp_pairs(v@, 1, empty_partial(), v@.len() as nat).unwrap(),
                ).peers);
            }
            Ok(resp)
        },
    }
}

} // verus!
