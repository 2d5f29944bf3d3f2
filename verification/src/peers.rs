//! Peer addresses as trackers report them: the compact 6-byte wire records
//! (IPv4 address and port, both big-endian) and dotted-quad IPv4 text.

use vstd::prelude::*;
use crate::ascii::{ZERO, DOT};
use crate::bencode::{is_digit, digits_end, dec_val, lemma_dec_val_congruent, lemma_digits_end_at};
use crate::decimal::{spec_udec, push_decimal_u64, lemma_udec_shape, lemma_udec_value};

verus! {

/// An IPv4 peer address with its port, as tracker responses carry them.
#[derive(Clone, Copy, Debug, PartialEq, Eq, Hash, Structural)]
pub struct PeerAddr {
    pub o0: u8,
    pub o1: u8,
    pub o2: u8,
    pub o3: u8,
    pub port: u16,
}

/// The big-endian 16-bit value of two bytes.
pub open spec fn be16(hi: u8, lo: u8) -> u16 {
    (hi * 256 + lo) as u16
}

/// The 6-byte compact wire record of a peer: the four address octets
/// followed by the port, big-endian.
pub open spec fn spec_peer_record(p: PeerAddr) -> Seq<u8> {
    seq![p.o0, p.o1, p.o2, p.o3, (p.port / 256) as u8, (p.port % 256) as u8]
}

/// The peers encoded 6 bytes at a time from position `i` to the end of `s`.
pub open spec fn peers_from(s: Seq<u8>, i: int) -> Seq<PeerAddr>
    decreases s.len() - i,
{
    if i < 0 || i + 6 > s.len() {
        Seq::empty()
    } else {
        seq![
            PeerAddr {
                o0: s[i],
                o1: s[i + 1],
                o2: s[i + 2],
                o3: s[i + 3],
                port: be16(s[i + 4], s[i + 5]),
            },
        ] + peers_from(s, i + 6)
    }
}

/// A compact peer list: one 6-byte record per peer. A byte string whose
/// length is not a multiple of 6 is rejected.
pub open spec fn spec_parse_compact(s: Seq<u8>) -> Option<Seq<PeerAddr>> {
    if s.len() % 6 == 0 {
        Some(peers_from(s, 0))
    } else {
        None
    }
}

/// The compact encoding of a peer list: the 6-byte records in order.
pub open spec fn spec_encode_compact(ps: Seq<PeerAddr>) -> Seq<u8>
    decreases ps.len(),
{
    if ps.len() == 0 {
        Seq::empty()
    } else {
        spec_peer_record(ps[0]) + spec_encode_compact(ps.drop_first())
    }
}

proof fn lemma_peers_from_shift(s: Seq<u8>, t: Seq<u8>, i: int)
    requires
        0 <= i,
    ensures
        peers_from(s + t, s.len() + i) == peers_from(t, i),
    decreases t.len() - i,
{
    if i + 6 <= t.len() {
        lemma_peers_from_shift(s, t, i + 6);
        assert(peers_from(s + t, s.len() + i) =~= peers_from(t, i));
    } else {
        assert(peers_from(s + t, s.len() + i) =~= Seq::<PeerAddr>::empty());
    }
}

/// The compact codec round trip: encoding any peer list as 6-byte records
/// and decoding the result yields the original list.
pub proof fn lemma_compact_round_trip(ps: Seq<PeerAddr>)
    ensures
        spec_encode_compact(ps).len() == 6 * ps.len(),
        spec_parse_compact(spec_encode_compact(ps)) == Some(ps),
    decreases ps.len(),
{
    let e = spec_encode_compact(ps);
    if ps.len() == 0 {
        assert(peers_from(e, 0) =~= ps);
    } else {
        let p = ps[0];
        let rest = ps.drop_first();
        lemma_compact_round_trip(rest);
        let r = spec_peer_record(p);
        assert(e == r + spec_encode_compact(rest));
        assert(e[4] == (p.port / 256) as u8);
        assert(e[5] == (p.port % 256) as u8);
        assert(be16((p.port / 256) as u8, (p.port % 256) as u8) == p.port);
        lemma_peers_from_shift(r, spec_encode_compact(rest), 0);
        assert(peers_from(e, 0) =~= ps);
        assert(e.len() % 6 == 0);
    }
}

/// Decodes the compact peer list held in `v[start..end)`. Fails exactly when
/// the range's length is not a multiple of 6.
pub fn parse_compact_peers(v: &Vec<u8>, start: usize, end: usize) -> (r: Option<Vec<PeerAddr>>)
    requires
        start <= end <= v@.len(),
    ensures
        match r {
            Some(ps) => spec_parse_compact(v@.subrange(start as int, end as int)) == Some(ps@),
            None => spec_parse_compact(v@.subrange(start as int, end as int)) is None,
        },
{
    let ghost s = v@.subrange(start as int, end as int);
    if (end - start) % 6 != 0 {
        return None;
    }
    let mut out: Vec<PeerAddr> = Vec::new();
    let mut i = start;
    proof {
        assert(out@ + peers_from(s, 0) =~= peers_from(s, 0));
    }
    while end - i >= 6
        invariant
            start <= i <= end <= v@.len(),
            s == v@.subrange(start as int, end as int),
            (end - start) % 6 == 0,
            (i - start) % 6 == 0,
            out@ + peers_from(s, i - start) == peers_from(s, 0),
        decreases end - i,
    {
        let hi = v[i + 4];
        let lo = v[i + 5];
        let port: u16 = (hi as u16) * 256 + (lo as u16);
        let p = PeerAddr { o0: v[i], o1: v[i + 1], o2: v[i + 2], o3: v[i + 3], port };
        proof {
            assert(peers_from(s, i - start) == seq![
                PeerAddr {
                    o0: s[i - start],
                    o1: s[i - start + 1],
                    o2: s[i - start + 2],
                    o3: s[i - start + 3],
                    port: be16(s[i - start + 4], s[i - start + 5]),
                },
            ] + peers_from(s, i - start + 6));
            assert(out@.push(p) + peers_from(s, i + 6 - start) =~= out@ + peers_from(
                s,
                i - start,
            ));
        }
        out.push(p);
        i = i + 6;
    }
    proof {
        assert(peers_from(s, i - start) =~= Seq::<PeerAddr>::empty());
        assert(out@ =~= peers_from(s, 0));
    }
    Some(out)
}

/// Encodes a peer list as compact 6-byte records.
pub fn encode_compact_peers(ps: &Vec<PeerAddr>) -> (r: Vec<u8>)
    ensures
        r@ == spec_encode_compact(ps@),
{
    let mut out: Vec<u8> = Vec::new();
    let mut k: usize = 0;
    proof {
        assert(ps@.skip(0) =~= ps@);
        assert(out@ + spec_encode_compact(ps@) =~= spec_encode_compact(ps@));
    }
    while k < ps.len()
        invariant
            k <= ps@.len(),
            out@ + spec_encode_compact(ps@.skip(k as int)) == spec_encode_compact(ps@),
        decreases ps@.len() - k,
    {
        let p = ps[k];
        proof {
            assert(ps@.skip(k as int)[0] == p);
            assert(ps@.skip(k as int).drop_first() =~= ps@.skip(k + 1));
            assert(out@ + seq![p.o0, p.o1, p.o2, p.o3, (p.port / 256) as u8, (p.port % 256) as u8]
                + spec_encode_compact(ps@.skip(k + 1)) =~= out@ + spec_encode_compact(
                ps@.skip(k as int),
            ));
        }
        out.push(p.o0);
        out.push(p.o1);
        out.push(p.o2);
        out.push(p.o3);
        out.push((p.port / 256) as u8);
        out.push((p.port % 256) as u8);
        k = k + 1;
    }
    proof {
        assert(ps@.skip(ps@.len() as int) =~= Seq::<PeerAddr>::empty());
        assert(out@ =~= spec_encode_compact(ps@));
    }
    out
}

/// Whether the digit run `s[i..j)` is a valid dotted-quad octet: one to
/// three digits, no leading zero unless the octet is exactly `0`, value at
/// most 255.
pub open spec fn octet_ok(s: Seq<u8>, i: int, j: int) -> bool {
    &&& i < j <= i + 3
    &&& (s[i] != ZERO || j == i + 1)
    &&& dec_val(s, i, j) <= 255
}

/// Parses dotted-quad IPv4 text, in the strict form the standard library
/// accepts: four octets of at most three digits each, no leading zeros.
pub open spec fn spec_parse_ipv4(s: Seq<u8>) -> Option<(u8, u8, u8, u8)> {
    let j0 = digits_end(s, 0);
    let i1 = j0 + 1;
    let j1 = digits_end(s, i1);
    let i2 = j1 + 1;
    let j2 = digits_end(s, i2);
    let i3 = j2 + 1;
    let j3 = digits_end(s, i3);
    if !(octet_ok(s, 0, j0) && j0 < s.len() && s[j0] == DOT) {
        None
    } else if !(octet_ok(s, i1, j1) && j1 < s.len() && s[j1] == DOT) {
        None
    } else if !(octet_ok(s, i2, j2) && j2 < s.len() && s[j2] == DOT) {
        None
    } else if !(octet_ok(s, i3, j3) && j3 == s.len()) {
        None
    } else {
        Some(
            (
                dec_val(s, 0, j0) as u8,
                dec_val(s, i1, j1) as u8,
                dec_val(s, i2, j2) as u8,
                dec_val(s, i3, j3) as u8,
            ),
        )
    }
}

/// Reads the octet whose digits start at `i`, if `octet_ok` holds of the
/// digit run there.
fn read_octet(v: &Vec<u8>, i: usize) -> (r: Option<(u8, usize)>)
    requires
        i <= v@.len(),
    ensures
        match r {
            Some((val, j)) => {
                &&& j == digits_end(v@, i as int)
                &&& octet_ok(v@, i as int, j as int)
                &&& val == dec_val(v@, i as int, j as int)
                &&& i < j <= v@.len()
            },
            None => !octet_ok(v@, i as int, digits_end(v@, i as int)),
        },
{
    let j = crate::bencode::scan_digits(v, i);
    if j == i || j - i > 3 {
        return None;
    }
    if v[i] == ZERO && j != i + 1 {
        return None;
    }
    let n = j - i;
    let mut val: u32 = (v[i] - ZERO) as u32;
    if n >= 2 {
        val = val * 10 + (v[i + 1] - ZERO) as u32;
    }
    if n == 3 {
        val = val * 10 + (v[i + 2] - ZERO) as u32;
    }
    proof {
        let ii = i as int;
        assert(dec_val(v@, ii, ii) == 0);
        assert(dec_val(v@, ii, ii + 1) == (v@[ii] - ZERO));
        if n >= 2 {
            assert(dec_val(v@, ii, ii + 2) == dec_val(v@, ii, ii + 1) * 10 + (v@[ii + 1] - ZERO));
        }
        if n == 3 {
            assert(dec_val(v@, ii, ii + 3) == dec_val(v@, ii, ii + 2) * 10 + (v@[ii + 2] - ZERO));
        }
    }
    if val > 255 {
        return None;
    }
    Some((val as u8, j))
}

/// Parses dotted-quad IPv4 text, as `spec_parse_ipv4` describes it.
pub fn parse_ipv4_text(v: &Vec<u8>) -> (r: Option<(u8, u8, u8, u8)>)
    ensures
        r == spec_parse_ipv4(v@),
{
    let r0 = read_octet(v, 0);
    let (a, j0) = match r0 {
        Some(x) => x,
        None => {
            return None;
        },
    };
    if j0 >= v.len() || v[j0] != DOT {
        return None;
    }
    let r1 = read_octet(v, j0 + 1);
    let (b, j1) = match r1 {
        Some(x) => x,
        None => {
            return None;
        },
    };
    if j1 >= v.len() || v[j1] != DOT {
        return None;
    }
    let r2 = read_octet(v, j1 + 1);
    let (c, j2) = match r2 {
        Some(x) => x,
        None => {
            return None;
        },
    };
    if j2 >= v.len() || v[j2] != DOT {
        return None;
    }
    let r3 = read_octet(v, j2 + 1);
    let (d, j3) = match r3 {
        Some(x) => x,
        None => {
            return None;
        },
    };
    if j3 != v.len() {
        return None;
    }
    Some((a, b, c, d))
}

/// The dotted-quad text of four address octets.
pub open spec fn spec_ipv4_text(o0: u8, o1: u8, o2: u8, o3: u8) -> Seq<u8> {
    spec_udec(o0 as int) + seq![DOT] + spec_udec(o1 as int) + seq![DOT] + spec_udec(o2 as int)
        + seq![DOT] + spec_udec(o3 as int)
}

/// Dotted-quad round trip: rendering four octets as text and parsing the
/// text back yields the same octets. Together with the compact codec round
/// trip this pins what "the corresponding address" means for both shapes of
/// a peer list.
pub proof fn lemma_ipv4_text_round_trip(o0: u8, o1: u8, o2: u8, o3: u8)
    ensures
        spec_parse_ipv4(spec_ipv4_text(o0, o1, o2, o3)) == Some((o0, o1, o2, o3)),
{
    let u0 = spec_udec(o0 as int);
    let u1 = spec_udec(o1 as int);
    let u2 = spec_udec(o2 as int);
    let u3 = spec_udec(o3 as int);
    lemma_udec_shape(o0 as int);
    lemma_udec_shape(o1 as int);
    lemma_udec_shape(o2 as int);
    lemma_udec_shape(o3 as int);
    lemma_udec_value(o0 as int);
    lemma_udec_value(o1 as int);
    lemma_udec_value(o2 as int);
    lemma_udec_value(o3 as int);
    let s = spec_ipv4_text(o0, o1, o2, o3);
    let j0 = u0.len() as int;
    let i1 = j0 + 1;
    let j1 = i1 + u1.len();
    let i2 = j1 + 1;
    let j2 = i2 + u2.len();
    let i3 = j2 + 1;
    let j3 = i3 + u3.len();
    assert(s.len() == j3);
    assert(forall|k: int| 0 <= k < u0.len() ==> s[0 + k] == #[trigger] u0[k]);
    assert(s[j0] == DOT);
    assert(forall|k: int| 0 <= k < u1.len() ==> s[i1 + k] == #[trigger] u1[k]);
    assert(s[j1] == DOT);
    assert(forall|k: int| 0 <= k < u2.len() ==> s[i2 + k] == #[trigger] u2[k]);
    assert(s[j2] == DOT);
    assert(forall|k: int| 0 <= k < u3.len() ==> s[i3 + k] == #[trigger] u3[k]);
    assert(!is_digit(DOT));
    lemma_digits_end_at(s, 0, j0);
    lemma_digits_end_at(s, i1, j1);
    lemma_digits_end_at(s, i2, j2);
    lemma_digits_end_at(s, i3, j3);
    lemma_dec_val_congruent(s, 0, u0, 0, u0.len() as int);
    lemma_dec_val_congruent(s, i1, u1, 0, u1.len() as int);
    lemma_dec_val_congruent(s, i2, u2, 0, u2.len() as int);
    lemma_dec_val_congruent(s, i3, u3, 0, u3.len() as int);
    assert(octet_ok(s, 0, j0));
    assert(octet_ok(s, i1, j1));
    assert(octet_ok(s, i2, j2));
    assert(octet_ok(s, i3, j3));
}

/// Appends the dotted-quad text of an address to `out`.
pub fn push_ipv4_text(out: &mut Vec<u8>, o0: u8, o1: u8, o2: u8, o3: u8)
    ensures
        final(out)@ == old(out)@ + spec_ipv4_text(o0, o1, o2, o3),
{
    push_decimal_u64(out, o0 as u64);
    out.push(DOT);
    push_decimal_u64(out, o1 as u64);
    out.push(DOT);
    push_decimal_u64(out, o2 as u64);
    out.push(DOT);
    push_decimal_u64(out, o3 as u64);
    proof {
        assert(out@ =~= old(out)@ + spec_ipv4_text(o0, o1, o2, o3));
    }
}

} // verus!
