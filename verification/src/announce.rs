//! The announce request parameters and the HTTP announce URL built from
//! them: the tracker's base URL followed by the query string, with the raw
//! 20-byte info hash and peer id percent-encoded byte for byte.

use vstd::prelude::*;
use crate::ascii::{ZERO, NINE, MINUS, DOT, PERCENT, UNDERSCORE, TILDE, LC_A, LC_Z, UC_A, UC_Z};
use crate::decimal::{spec_udec, push_decimal_u64};
use crate::peers::{spec_ipv4_text, push_ipv4_text};

verus! {

/// The optional announce event.
#[derive(Clone, Copy, Debug, PartialEq, Eq, Structural)]
pub enum Event {
    /// The first request to the tracker must carry this.
    Started,
    /// Sent when the client becomes a seeder.
    Completed,
    /// Sent when the client shuts down gracefully.
    Stopped,
}

/// The client's own address for the `ip` parameter. A v6 address carries its
/// textual form, which only the caller can render; the v4 form is rendered
/// here as a dotted quad.
#[derive(Clone, Debug)]
pub enum ClientIp {
    V4(u8, u8, u8, u8),
    V6(Vec<u8>),
}

/// Parameters for announcing to a tracker.
#[derive(Clone, Debug)]
pub struct Announce {
    /// The torrent's 20-byte info hash.
    pub info_hash: Vec<u8>,
    /// The client's 20-byte peer id.
    pub peer_id: Vec<u8>,
    /// The port on which the client is listening.
    pub port: u16,
    /// The true address of the client, for NAT or proxy setups.
    pub ip: Option<ClientIp>,
    /// Bytes downloaded so far.
    pub downloaded: u64,
    /// Bytes uploaded so far.
    pub uploaded: u64,
    /// Bytes left to download.
    pub left: u64,
    /// How many peers the client wishes to receive.
    pub peer_count: Option<u64>,
    /// The tracker id received earlier, to send back with each announce.
    pub tracker_id: Option<Vec<u8>>,
    /// The event, if this announce marks one.
    pub event: Option<Event>,
}

/// Well-formed announce parameters: 20-byte identifiers, and counters within
/// the ranges the UDP wire format carries (signed 64-bit counters, a signed
/// 32-bit want count).
pub open spec fn announce_wf(a: Announce) -> bool {
    &&& a.info_hash@.len() == 20
    &&& a.peer_id@.len() == 20
    &&& a.downloaded <= i64::MAX
    &&& a.uploaded <= i64::MAX
    &&& a.left <= i64::MAX
    &&& match a.peer_count {
        Some(n) => n <= i32::MAX,
        None => true,
    }
}

/// The bytes that stay as they are under percent-encoding: ASCII
/// alphanumerics and `-`, `_`, `~`, `.`; every other byte is escaped.
pub open spec fn is_unreserved(b: u8) -> bool {
    (LC_A <= b && b <= LC_Z) || (UC_A <= b && b <= UC_Z) || (ZERO <= b && b <= NINE) || b == MINUS
        || b == UNDERSCORE || b == TILDE || b == DOT
}

/// The uppercase hex digit for a value in 0..16.
pub open spec fn hex_upper(d: int) -> u8 {
    if d < 10 {
        (ZERO + d) as u8
    } else {
        (UC_A + d - 10) as u8
    }
}

/// The `%XX` escape of one byte.
pub open spec fn pct_byte(b: u8) -> Seq<u8> {
    seq![PERCENT, hex_upper(b as int / 16), hex_upper(b as int % 16)]
}

/// The percent-encoding of a byte string: unreserved bytes stay, all others
/// become `%XX`.
pub open spec fn spec_percent_encode(s: Seq<u8>) -> Seq<u8>
    decreases s.len(),
{
    if s.len() == 0 {
        Seq::empty()
    } else {
        (if is_unreserved(s[0]) {
            seq![s[0]]
        } else {
            pct_byte(s[0])
        }) + spec_percent_encode(s.drop_first())
    }
}

/// Relies on `percent_encoding::percent_encode_byte`: the unconditional
/// three-character `%XX` form of a byte, with uppercase hex digits.
#[verifier::external_body]
fn percent_escape_byte(b: u8) -> (r: Vec<u8>)
    ensures
        r@ == pct_byte(b),
{
    percent_encoding::percent_encode_byte(b).as_bytes().to_vec()
}

/// Appends the percent-encoding of `s` to `out`.
pub fn push_percent_encoded(out: &mut Vec<u8>, s: &Vec<u8>)
    ensures
        final(out)@ == old(out)@ + spec_percent_encode(s@),
{
    let mut k: usize = 0;
    proof {
        assert(s@.skip(0) =~= s@);
        assert(out@ + spec_percent_encode(s@) =~= old(out)@ + spec_percent_encode(s@));
    }
    while k < s.len()
        invariant
            k <= s@.len(),
            out@ + spec_percent_encode(s@.skip(k as int)) == old(out)@ + spec_percent_encode(s@),
        decreases s@.len() - k,
    {
        let b = s[k];
        proof {
            assert(s@.skip(k as int)[0] == b);
            assert(s@.skip(k as int).drop_first() =~= s@.skip(k + 1));
        }
        let ghost mid = out@;
        if (b >= LC_A && b <= LC_Z) || (b >= UC_A && b <= UC_Z) || (b >= ZERO && b <= NINE) || b
            == MINUS || b == UNDERSCORE || b == TILDE || b == DOT {
            out.push(b);
            proof {
                assert(out@ =~= mid + seq![b]);
            }
        } else {
            let esc = percent_escape_byte(b);
            out.push(esc[0]);
            out.push(esc[1]);
            out.push(esc[2]);
            proof {
                assert(out@ =~= mid + pct_byte(b));
            }
        }
        proof {
            assert(out@ + spec_percent_encode(s@.skip(k + 1)) =~= mid + spec_percent_encode(
                s@.skip(k as int),
            ));
        }
        k = k + 1;
    }
    proof {
        assert(s@.skip(s@.len() as int) =~= Seq::<u8>::empty());
        assert(out@ + Seq::<u8>::empty() =~= out@);
    }
}

/// Appends all of `s` to `out`.
pub fn push_all(out: &mut Vec<u8>, s: &Vec<u8>)
    ensures
        final(out)@ == old(out)@ + s@,
{
    let mut k: usize = 0;
    while k < s.len()
        invariant
            k <= s@.len(),
            out@ == old(out)@ + s@.take(k as int),
        decreases s@.len() - k,
    {
        out.push(s[k]);
        proof {
            assert(old(out)@ + s@.take(k as int) + seq![s@[k as int]] =~= old(out)@ + s@.take(
                k + 1,
            ));
        }
        k = k + 1;
    }
    proof {
        assert(s@.take(s@.len() as int) =~= s@);
    }
}

/// The query text `"?info_hash="`.
pub open spec fn lbl_info_hash() -> Seq<u8> {
    seq![63, 105, 110, 102, 111, 95, 104, 97, 115, 104, 61]
}

fn lbl_info_hash_vec() -> (r: Vec<u8>)
    ensures
        r@ == lbl_info_hash(),
{
    let mut r: Vec<u8> = Vec::new();
    r.push(63);
    r.push(105);
    r.push(110);
    r.push(102);
    r.push(111);
    r.push(95);
    r.push(104);
    r.push(97);
    r.push(115);
    r.push(104);
    r.push(61);
    proof {
        assert(r@ =~= lbl_info_hash());
    }
    r
}

/// The query text `"&peer_id="`.
pub open spec fn lbl_peer_id() -> Seq<u8> {
    seq![38, 112, 101, 101, 114, 95, 105, 100, 61]
}

fn lbl_peer_id_vec() -> (r: Vec<u8>)
    ensures
        r@ == lbl_peer_id(),
{
    let mut r: Vec<u8> = Vec::new();
    r.push(38);
    r.push(112);
    r.push(101);
    r.push(101);
    r.push(114);
    r.push(95);
    r.push(105);
    r.push(100);
    r.push(61);
    proof {
        assert(r@ =~= lbl_peer_id());
    }
    r
}

/// The query text `"&port="`.
pub open spec fn lbl_port() -> Seq<u8> {
    seq![38, 112, 111, 114, 116, 61]
}

fn lbl_port_vec() -> (r: Vec<u8>)
    ensures
        r@ == lbl_port(),
{
    let mut r: Vec<u8> = Vec::new();
    r.push(38);
    r.push(112);
    r.push(111);
    r.push(114);
    r.push(116);
    r.push(61);
    proof {
        assert(r@ =~= lbl_port());
    }
    r
}

/// The query text `"&downloaded="`.
pub open spec fn lbl_downloaded() -> Seq<u8> {
    seq![38, 100, 111, 119, 110, 108, 111, 97, 100, 101, 100, 61]
}

fn lbl_downloaded_vec() -> (r: Vec<u8>)
    ensures
        r@ == lbl_downloaded(),
{
    let mut r: Vec<u8> = Vec::new();
    r.push(38);
    r.push(100);
    r.push(111);
    r.push(119);
    r.push(110);
    r.push(108);
    r.push(111);
    r.push(97);
    r.push(100);
    r.push(101);
    r.push(100);
    r.push(61);
    proof {
        assert(r@ =~= lbl_downloaded());
    }
    r
}

/// The query text `"&uploaded="`.
pub open spec fn lbl_uploaded() -> Seq<u8> {
    seq![38, 117, 112, 108, 111, 97, 100, 101, 100, 61]
}

fn lbl_uploaded_vec() -> (r: Vec<u8>)
    ensures
        r@ == lbl_uploaded(),
{
    let mut r: Vec<u8> = Vec::new();
    r.push(38);
    r.push(117);
    r.push(112);
    r.push(108);
    r.push(111);
    r.push(97);
    r.push(100);
    r.push(101);
    r.push(100);
    r.push(61);
    proof {
        assert(r@ =~= lbl_uploaded());
    }
    r
}

/// The query text `"&left="`.
pub open spec fn lbl_left() -> Seq<u8> {
    seq![38, 108, 101, 102, 116, 61]
}

fn lbl_left_vec() -> (r: Vec<u8>)
    ensures
        r@ == lbl_left(),
{
    let mut r: Vec<u8> = Vec::new();
    r.push(38);
    r.push(108);
    r.push(101);
    r.push(102);
    r.push(116);
    r.push(61);
    proof {
        assert(r@ =~= lbl_left());
    }
    r
}

/// The query text `"&compact=1"`.
pub open spec fn lbl_compact1() -> Seq<u8> {
    seq![38, 99, 111, 109, 112, 97, 99, 116, 61, 49]
}

fn lbl_compact1_vec() -> (r: Vec<u8>)
    ensures
        r@ == lbl_compact1(),
{
    let mut r: Vec<u8> = Vec::new();
    r.push(38);
    r.push(99);
    r.push(111);
    r.push(109);
    r.push(112);
    r.push(97);
    r.push(99);
    r.push(116);
    r.push(61);
    r.push(49);
    proof {
        assert(r@ =~= lbl_compact1());
    }
    r
}

/// The query text `"&numwant="`.
pub open spec fn lbl_numwant() -> Seq<u8> {
    seq![38, 110, 117, 109, 119, 97, 110, 116, 61]
}

fn lbl_numwant_vec() -> (r: Vec<u8>)
    ensures
        r@ == lbl_numwant(),
{
    let mut r: Vec<u8> = Vec::new();
    r.push(38);
    r.push(110);
    r.push(117);
    r.push(109);
    r.push(119);
    r.push(97);
    r.push(110);
    r.push(116);
    r.push(61);
    proof {
        assert(r@ =~= lbl_numwant());
    }
    r
}

/// The query text `"&ip="`.
pub open spec fn lbl_ip() -> Seq<u8> {
    seq![38, 105, 112, 61]
}

fn lbl_ip_vec() -> (r: Vec<u8>)
    ensures
        r@ == lbl_ip(),
{
    let mut r: Vec<u8> = Vec::new();
    r.push(38);
    r.push(105);
    r.push(112);
    r.push(61);
    proof {
        assert(r@ =~= lbl_ip());
    }
    r
}

/// The textual form of the client's address as it goes into the query.
pub open spec fn spec_client_ip_text(ip: ClientIp) -> Seq<u8> {
    match ip {
        ClientIp::V4(a, b, c, d) => spec_ipv4_text(a, b, c, d),
        ClientIp::V6(t) => t@,
    }
}

/// The full announce GET URL: the base URL followed by `info_hash`,
/// `peer_id`, `port`, `downloaded`, `uploaded`, `left`, `compact=1`, then
/// `numwant` if a peer count is wished for and `ip` if the client states its
/// address.
pub open spec fn spec_announce_url(base: Seq<u8>, a: Announce) -> Seq<u8> {
    base + lbl_info_hash() + spec_percent_encode(a.info_hash@) + lbl_peer_id()
        + spec_percent_encode(a.peer_id@) + lbl_port() + spec_udec(a.port as int)
        + lbl_downloaded() + spec_udec(a.downloaded as int) + lbl_uploaded() + spec_udec(
        a.uploaded as int,
    ) + lbl_left() + spec_udec(a.left as int) + lbl_compact1() + (match a.peer_count {
        Some(n) => lbl_numwant() + spec_udec(n as int),
        None => Seq::empty(),
    }) + (match a.ip {
        Some(ip) => lbl_ip() + spec_percent_encode(spec_client_ip_text(ip)),
        None => Seq::empty(),
    })
}

/// Builds the announce GET URL for the given base URL and parameters, as
/// `spec_announce_url` describes it.
pub fn build_announce_url(base: &Vec<u8>, a: &Announce) -> (r: Vec<u8>)
    ensures
        r@ == spec_announce_url(base@, *a),
{
    let mut out: Vec<u8> = Vec::new();
    push_all(&mut out, base);
    push_all(&mut out, &lbl_info_hash_vec());
    push_percent_encoded(&mut out, &a.info_hash);
    push_all(&mut out, &lbl_peer_id_vec());
    push_percent_encoded(&mut out, &a.peer_id);
    push_all(&mut out, &lbl_port_vec());
    push_decimal_u64(&mut out, a.port as u64);
    push_all(&mut out, &lbl_downloaded_vec());
    push_decimal_u64(&mut out, a.downloaded);
    push_all(&mut out, &lbl_uploaded_vec());
    push_decimal_u64(&mut out, a.uploaded);
    push_all(&mut out, &lbl_left_vec());
    push_decimal_u64(&mut out, a.left);
    push_all(&mut out, &lbl_compact1_vec());
    match &a.peer_count {
        Some(n) => {
            push_all(&mut out, &lbl_numwant_vec());
            push_decimal_u64(&mut out, *n);
        },
        None => {},
    }
    match &a.ip {
        Some(ip) => {
            push_all(&mut out, &lbl_ip_vec());
            let mut text: Vec<u8> = Vec::new();
            match ip {
                ClientIp::V4(o0, o1, o2, o3) => {
                    push_ipv4_text(&mut text, *o0, *o1, *o2, *o3);
                },
                ClientIp::V6(t) => {
                    push_all(&mut text, t);
                },
            }
            proof {
                assert(text@ =~= spec_client_ip_text(a.ip.unwrap()));
            }
            push_percent_encoded(&mut out, &text);
        },
        None => {},
    }
    proof {
        assert(out@ =~= spec_announce_url(base@, *a));
    }
    out
}

} // verus!
