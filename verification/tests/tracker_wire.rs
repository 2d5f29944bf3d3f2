use cratetorrent::announce::{build_announce_url, Announce, ClientIp, Event};
use cratetorrent::peers::{encode_compact_peers, parse_compact_peers, parse_ipv4_text, PeerAddr};
use cratetorrent::response::parse_response;
use cratetorrent::udp::{
    announce_request, build_announce_frame, build_connect_frame, connect_request,
    parse_announce_reply, parse_connect_reply, reply_is_empty,
};
use serde_bencode::value::Value;
use std::collections::HashMap;

fn peer(o0: u8, o1: u8, o2: u8, o3: u8, port: u16) -> PeerAddr {
    PeerAddr {
        o0,
        o1,
        o2,
        o3,
        port,
    }
}

fn announce_params() -> Announce {
    Announce {
        info_hash: b"abcdefghij1234567890".to_vec(),
        peer_id: b"cbt-2020-03-03-00000".to_vec(),
        port: 16,
        ip: None,
        downloaded: 1234,
        uploaded: 1234,
        left: 1234,
        peer_count: Some(2),
        tracker_id: None,
        event: None,
    }
}

#[test]
fn should_parse_compact_peer_list() {
    let ip = [192u8, 168, 0, 10];
    let port = 49123;

    // build up encoded byte string
    let mut encoded = Vec::new();
    encoded.extend_from_slice(b"d5:peers6:");
    encoded.extend_from_slice(&encode_compact_peers(&vec![peer(
        ip[0], ip[1], ip[2], ip[3], port,
    )]));
    encoded.push(b'e');

    let decoded = parse_response(&encoded).expect("cannot decode bencode string of peers");
    assert_eq!(decoded.peers, vec![peer(192, 168, 0, 10, port)]);
}

#[test]
fn should_parse_full_peer_list() {
    let raw_peers: Vec<(&str, u16)> = vec![
        ("192.168.1.10", 55123),
        ("1.45.96.2", 1234),
        ("123.123.123.123", 49950),
    ];

    let mut encoded = Vec::new();
    encoded.extend_from_slice(b"d5:peersl");
    for (ip, port) in raw_peers.iter() {
        let entry = format!("d2:ip{}:{}4:porti{}ee", ip.len(), ip, port);
        encoded.extend_from_slice(entry.as_bytes());
    }
    encoded.extend_from_slice(b"ee");

    let decoded = parse_response(&encoded).expect("cannot decode bencode list of peers");
    let expected = vec![
        peer(192, 168, 1, 10, 55123),
        peer(1, 45, 96, 2, 1234),
        peer(123, 123, 123, 123, 49950),
    ];
    assert_eq!(decoded.peers, expected);
}

// An entry of the full list whose ip does not parse is skipped; the others
// are kept.
#[test]
fn should_skip_unparseable_ips_in_full_peer_list() {
    let raw_peers: Vec<(&str, u16)> = vec![
        ("300.1.2.3", 1000),
        ("10.0.0.1", 2000),
        ("not an ip", 3000),
        ("1.2.3.04", 4000),
        ("8.8.8.8", 5000),
    ];

    let mut encoded = Vec::new();
    encoded.extend_from_slice(b"d5:peersl");
    for (ip, port) in raw_peers.iter() {
        let entry = format!("d2:ip{}:{}4:porti{}ee", ip.len(), ip, port);
        encoded.extend_from_slice(entry.as_bytes());
    }
    encoded.extend_from_slice(b"ee");

    let decoded = parse_response(&encoded).expect("peer list should decode");
    assert_eq!(
        decoded.peers,
        vec![peer(10, 0, 0, 1, 2000), peer(8, 8, 8, 8, 5000)]
    );
}

// A compact peer string whose length is not a multiple of 6 is a decode
// error, both at the peers codec and for the whole response.
#[test]
fn should_reject_compact_list_of_bad_length() {
    let bytes = vec![1u8, 2, 3, 4, 5];
    assert!(parse_compact_peers(&bytes, 0, 5).is_none());

    let mut encoded = Vec::new();
    encoded.extend_from_slice(b"d5:peers5:abcdee");
    assert!(parse_response(&encoded).is_err());
}

// Compact round trip: encoding a peer list and decoding it gives it back.
#[test]
fn compact_codec_round_trip() {
    let ps = vec![
        peer(192, 168, 0, 10, 49123),
        peer(0, 0, 0, 1, 1),
        peer(255, 255, 255, 255, 65535),
    ];
    let encoded = encode_compact_peers(&ps);
    assert_eq!(encoded.len(), 6 * ps.len());
    let decoded = parse_compact_peers(&encoded, 0, encoded.len()).unwrap();
    assert_eq!(decoded, ps);
}

#[test]
fn ipv4_text_parsing() {
    assert_eq!(
        parse_ipv4_text(&b"192.168.0.10".to_vec()),
        Some((192, 168, 0, 10))
    );
    assert_eq!(parse_ipv4_text(&b"0.0.0.0".to_vec()), Some((0, 0, 0, 0)));
    assert_eq!(parse_ipv4_text(&b"256.1.1.1".to_vec()), None);
    assert_eq!(parse_ipv4_text(&b"01.1.1.1".to_vec()), None);
    assert_eq!(parse_ipv4_text(&b"1.1.1".to_vec()), None);
    assert_eq!(parse_ipv4_text(&b"1.1.1.1.1".to_vec()), None);
    assert_eq!(parse_ipv4_text(&b"".to_vec()), None);
}

// The announce GET URL for the happy-path parameters, byte for byte.
#[test]
fn should_build_announce_url() {
    let url = build_announce_url(&b"http://tracker.test/".to_vec(), &announce_params());
    assert_eq!(
        String::from_utf8(url).unwrap(),
        "http://tracker.test/\
         ?info_hash=abcdefghij1234567890\
         &peer_id=cbt-2020-03-03-00000\
         &port=16&downloaded=1234&uploaded=1234&left=1234&compact=1&numwant=2"
    );
}

// Raw hash bytes are percent-encoded with uppercase hex digits and do not
// pass through unchanged.
#[test]
fn should_percent_encode_raw_hash_bytes() {
    let mut params = announce_params();
    params.info_hash = vec![
        0x00, 0xff, b' ', b'a', b'~', b'%', 0x12, 0xab, b'.', b'_', b'-', b'/', b':', b'z', 0x01,
        0x02, 0x03, 0x04, 0x05, 0x7f,
    ];
    params.peer_count = None;
    params.ip = Some(ClientIp::V4(127, 0, 0, 1));
    let url = build_announce_url(&b"http://t/".to_vec(), &params);
    let url = String::from_utf8(url).unwrap();
    assert_eq!(
        url,
        "http://t/?info_hash=%00%FF%20a~%25%12%AB._-%2F%3Az%01%02%03%04%05%7F\
         &peer_id=cbt-2020-03-03-00000\
         &port=16&downloaded=1234&uploaded=1234&left=1234&compact=1&ip=127.0.0.1"
    );
}

// The S6 happy-path response body decodes to the normalized response.
#[test]
fn should_decode_announce_response() {
    let peer_bytes = [2u8, 156, 201, 254, 0xbf, 0xe3];
    let mut encoded = Vec::new();
    encoded.extend_from_slice(
        b"d\
        8:completei5e\
        10:incompletei3e\
        8:intervali15e\
        12:min intervali10e",
    );
    encoded.extend_from_slice(b"5:peers6:");
    encoded.extend_from_slice(&peer_bytes);
    encoded.push(b'e');

    let resp = parse_response(&encoded).unwrap();
    assert_eq!(resp.seeder_count, Some(5));
    assert_eq!(resp.leecher_count, Some(3));
    assert_eq!(resp.interval, Some(15));
    assert_eq!(resp.min_interval, Some(10));
    assert_eq!(resp.peers, vec![peer(2, 156, 201, 254, 49123)]);
    assert_eq!(resp.tracker_id, None);
    assert_eq!(resp.failure_reason, None);
    assert_eq!(resp.warning_message, None);
}

// Unknown keys, nested or flat, are skipped; text fields come through.
#[test]
fn should_decode_response_with_extra_keys() {
    let encoded = b"d\
        5:aaaaali1ei2eld3:zzzi0eeee\
        8:intervali1800e\
        10:tracker id3:abc\
        14:failure reason4:nope\
        15:warning message4:warn\
        7:unknowni-5e\
        e"
    .to_vec();
    let resp = parse_response(&encoded).unwrap();
    assert_eq!(resp.interval, Some(1800));
    assert_eq!(resp.tracker_id, Some(b"abc".to_vec()));
    assert_eq!(resp.failure_reason, Some(b"nope".to_vec()));
    assert_eq!(resp.warning_message, Some(b"warn".to_vec()));
    assert!(resp.peers.is_empty());
}

// Malformed bodies and out-of-range integers are decode errors.
#[test]
fn should_reject_malformed_responses() {
    // not a dictionary
    assert!(parse_response(&b"le".to_vec()).is_err());
    // empty input
    assert!(parse_response(&Vec::new()).is_err());
    // unterminated dictionary
    assert!(parse_response(&b"d8:intervali15e".to_vec()).is_err());
    // negative interval
    assert!(parse_response(&b"d8:intervali-15ee".to_vec()).is_err());
    // interval beyond the signed 64-bit range
    assert!(parse_response(&b"d8:intervali9223372036854775808ee".to_vec()).is_err());
    // duplicate key
    assert!(parse_response(&b"d8:intervali15e8:intervali15ee".to_vec()).is_err());
    // a peers list entry without a port
    assert!(parse_response(&b"d5:peersld2:ip7:1.2.3.4eee".to_vec()).is_err());
    // a peer port beyond 16 bits
    assert!(parse_response(&b"d5:peersld2:ip7:1.2.3.44:porti65536eeee".to_vec()).is_err());
}

// The connect request frame: magic, action 0, and the returned id.
#[test]
fn connect_frame_layout() {
    let (frame, tid) = connect_request();
    assert_eq!(frame.len(), 16);
    assert_eq!(&frame[0..8], &0x41727101980i64.to_be_bytes());
    assert_eq!(&frame[8..12], &[0, 0, 0, 0]);
    assert_eq!(&frame[12..16], &tid.to_be_bytes());

    let frame = build_connect_frame(0x01020304);
    assert_eq!(&frame[12..16], &[1, 2, 3, 4]);
}

// The announce request frame, byte for byte.
#[test]
fn announce_frame_layout() {
    let mut params = announce_params();
    params.ip = Some(ClientIp::V4(10, 0, 0, 7));
    params.event = Some(Event::Started);
    let frame = build_announce_frame(0x1122334455667788, 0x0a0b0c0d, 0xdeadbeef, &params);
    assert_eq!(frame.len(), 98);

    let mut expected = Vec::new();
    expected.extend_from_slice(&0x1122334455667788i64.to_be_bytes());
    expected.extend_from_slice(&1i32.to_be_bytes());
    expected.extend_from_slice(&0x0a0b0c0di32.to_be_bytes());
    expected.extend_from_slice(b"abcdefghij1234567890");
    expected.extend_from_slice(b"cbt-2020-03-03-00000");
    expected.extend_from_slice(&1234i64.to_be_bytes()); // downloaded
    expected.extend_from_slice(&1234i64.to_be_bytes()); // left
    expected.extend_from_slice(&1234i64.to_be_bytes()); // uploaded
    expected.extend_from_slice(&2i32.to_be_bytes()); // event: started
    expected.extend_from_slice(&[10, 0, 0, 7]); // ip
    expected.extend_from_slice(&0xdeadbeefu32.to_be_bytes()); // key
    expected.extend_from_slice(&2i32.to_be_bytes()); // numwant
    expected.extend_from_slice(&16u16.to_be_bytes()); // port
    assert_eq!(frame, expected);

    // without a wished-for peer count, numwant is -1; without an ip, zero
    let mut params = announce_params();
    params.peer_count = None;
    let (frame, tid, key) = announce_request(7, &params);
    assert_eq!(frame.len(), 98);
    assert_eq!(&frame[12..16], &tid.to_be_bytes());
    assert_eq!(&frame[80..84], &0i32.to_be_bytes()); // event: none
    assert_eq!(&frame[84..88], &[0, 0, 0, 0]); // ip
    assert_eq!(&frame[88..92], &key.to_be_bytes());
    assert_eq!(&frame[92..96], &(-1i32).to_be_bytes());
}

// The connect reply yields the connection id only under a matching
// transaction id.
#[test]
fn connect_reply_transaction_id_check() {
    let mut reply = Vec::new();
    reply.extend_from_slice(&0i32.to_be_bytes());
    reply.extend_from_slice(&0x0102_0304i32.to_be_bytes());
    reply.extend_from_slice(&0x1122334455667788i64.to_be_bytes());
    assert_eq!(
        parse_connect_reply(&reply, 0x0102_0304),
        Some(0x1122334455667788)
    );
    assert_eq!(parse_connect_reply(&reply, 0x0102_0305), None);
}

// The announce reply: interval, counts, and the peer records up to the
// all-zero sentinel.
#[test]
fn announce_reply_decoding() {
    let tid: i32 = 0x00c0ffee;
    let mut reply = Vec::new();
    reply.extend_from_slice(&1i32.to_be_bytes()); // action
    reply.extend_from_slice(&tid.to_be_bytes());
    reply.extend_from_slice(&1800i32.to_be_bytes()); // interval
    reply.extend_from_slice(&3i32.to_be_bytes()); // leechers
    reply.extend_from_slice(&5i32.to_be_bytes()); // seeders
    reply.extend_from_slice(&[192, 168, 0, 10, 0xbf, 0xe3]);
    reply.extend_from_slice(&[10, 0, 0, 1, 0x00, 0x50]);
    reply.extend_from_slice(&[0, 0, 0, 0, 0, 0]); // sentinel
    reply.extend_from_slice(&[9, 9, 9, 9, 9, 9]); // past the sentinel: ignored
    reply.resize(2048, 0);

    let resp = parse_announce_reply(&reply, tid, false);
    assert_eq!(resp.interval, Some(1800));
    assert_eq!(resp.leecher_count, Some(3));
    assert_eq!(resp.seeder_count, Some(5));
    assert_eq!(resp.failure_reason, None);
    assert_eq!(resp.min_interval, None);
    assert_eq!(resp.tracker_id, Some(b"12648430".to_vec()));
    assert_eq!(
        resp.peers,
        vec![peer(192, 168, 0, 10, 49123), peer(10, 0, 0, 1, 80)]
    );
}

// A timeout and a transaction id mismatch are reported in band.
#[test]
fn announce_reply_failures() {
    let reply = vec![0u8; 2048];
    let resp = parse_announce_reply(&reply, 1, true);
    assert_eq!(
        resp.failure_reason,
        Some(b"Couldn't announce to tracker".to_vec())
    );

    let resp = parse_announce_reply(&reply, 1, false);
    assert_eq!(
        resp.failure_reason,
        Some(b"Transaction ID's did not match".to_vec())
    );
    assert_eq!(resp.tracker_id, Some(b"0".to_vec()));

    let resp = parse_announce_reply(&reply, 0, false);
    assert_eq!(resp.failure_reason, None);
    assert!(resp.peers.is_empty());
}

// A response body produced by serde_bencode's own encoder decodes to the
// same values: the hand-written decoder agrees with a real-world encoder.
#[test]
fn should_decode_serde_bencode_output() {
    let mut peer_dict = HashMap::new();
    peer_dict.insert(b"ip".to_vec(), Value::Bytes(b"1.45.96.2".to_vec()));
    peer_dict.insert(b"port".to_vec(), Value::Int(1234));
    peer_dict.insert(b"peer id".to_vec(), Value::Bytes(b"cbt-2020-03-03-00000".to_vec()));

    let mut dict = HashMap::new();
    dict.insert(b"complete".to_vec(), Value::Int(5));
    dict.insert(b"incomplete".to_vec(), Value::Int(3));
    dict.insert(b"interval".to_vec(), Value::Int(15));
    dict.insert(b"min interval".to_vec(), Value::Int(10));
    dict.insert(b"tracker id".to_vec(), Value::Bytes(b"xyz".to_vec()));
    dict.insert(
        b"peers".to_vec(),
        Value::List(vec![Value::Dict(peer_dict)]),
    );

    let encoded = serde_bencode::to_bytes(&Value::Dict(dict)).unwrap();
    let resp = parse_response(&encoded).unwrap();
    assert_eq!(resp.seeder_count, Some(5));
    assert_eq!(resp.leecher_count, Some(3));
    assert_eq!(resp.interval, Some(15));
    assert_eq!(resp.min_interval, Some(10));
    assert_eq!(resp.tracker_id, Some(b"xyz".to_vec()));
    assert_eq!(resp.peers, vec![peer(1, 45, 96, 2, 1234)]);
}

// A buffer is "empty" exactly when every byte is still zero.
#[test]
fn reply_buffer_emptiness() {
    assert!(reply_is_empty(&vec![0u8; 16]));
    assert!(!reply_is_empty(&vec![0, 0, 1, 0]));
    assert!(reply_is_empty(&Vec::new()));
}
