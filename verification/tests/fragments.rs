//! The datagram format: splitting payloads and putting them together again.
use anyst::endian::{get_be16, get_be32, put_be16, put_be32};
use anyst::fragment::{build_datagrams, feed_fragment, ReassemblyBuf, FIRST, LAST, MIDDLE, SINGLE};
use anyst::reassembly::{discard_reason, receive_datagram, Discard, Incoming};
use std::collections::HashMap;

fn counting(len: usize) -> Vec<u8> {
    (0..len).map(|i| (i % 251) as u8).collect()
}

/// Receives the datagrams in order, and collects the messages.
fn receive_all(
    bufs: &mut HashMap<u32, ReassemblyBuf>,
    dgrams: &[Vec<u8>],
) -> Vec<(u32, Vec<u8>)> {
    let mut messages = Vec::new();
    for dgram in dgrams {
        if let Incoming::Message { session_id, payload } = receive_datagram(bufs, dgram) {
            messages.push((session_id, payload));
        }
    }
    messages
}

#[test]
fn big_endian_numbers() {
    let mut out = vec![9u8];
    put_be16(&mut out, 0x0102);
    put_be32(&mut out, 0xdeadbeef);
    assert_eq!(out, vec![9, 1, 2, 0xde, 0xad, 0xbe, 0xef]);
    assert_eq!(get_be16(0x01, 0x02), 0x0102);
    assert_eq!(get_be32(0xde, 0xad, 0xbe, 0xef), 0xdeadbeef);
}

#[test]
fn length_field_wraps() {
    let mut out = Vec::new();
    put_be16(&mut out, 65536 + 5);
    assert_eq!(out, vec![0, 5]);
}

#[test]
fn single_datagram_layout() {
    let frames = build_datagrams(0x01020304, b"hello", 1200);
    assert_eq!(frames, vec![vec![1, 2, 3, 4, SINGLE, 0, 5, b'h', b'e', b'l', b'l', b'o']]);
}

#[test]
fn single_datagram_at_the_limit() {
    assert_eq!(build_datagrams(1, &counting(13), 20).len(), 1);
    assert_eq!(build_datagrams(1, &counting(14), 20).len(), 2);
}

#[test]
fn fragmented_layout() {
    // 10 bytes per datagram: 3 in the first, 5 in each one after it.
    let frames = build_datagrams(7, &counting(15), 10);
    assert_eq!(
        frames,
        vec![
            vec![0, 0, 0, 7, FIRST, 0, 15, 0, 1, 2],
            vec![0, 0, 0, 7, MIDDLE, 3, 4, 5, 6, 7],
            vec![0, 0, 0, 7, MIDDLE, 8, 9, 10, 11, 12],
            vec![0, 0, 0, 7, LAST, 13, 14],
        ]
    );
}

#[test]
fn full_last_fragment() {
    let frames = build_datagrams(7, &counting(13), 10);
    assert_eq!(
        frames.iter().map(|frame| (frame[4], frame.len())).collect::<Vec<_>>(),
        vec![(FIRST, 10), (MIDDLE, 10), (LAST, 10)]
    );
}

#[test]
fn smallest_limits() {
    let frames = build_datagrams(1, &[5, 6], 6);
    assert_eq!(
        frames,
        vec![
            vec![0, 0, 0, 1, FIRST, 0, 2],
            vec![0, 0, 0, 1, MIDDLE, 5],
            vec![0, 0, 0, 1, LAST, 6],
        ]
    );
    assert_eq!(build_datagrams(1, &[], 7), vec![vec![0, 0, 0, 1, SINGLE, 0, 0]]);
    assert_eq!(build_datagrams(1, &[], 6), vec![vec![0, 0, 0, 1, SINGLE, 0, 0]]);
    assert_eq!(build_datagrams(1, &[], 0), vec![vec![0, 0, 0, 1, SINGLE, 0, 0]]);
}

#[test]
fn datagrams_fit_their_limit() {
    for max in 7..40 {
        for len in 0..120 {
            for frame in build_datagrams(3, &counting(len), max) {
                assert!(frame.len() <= max);
                assert_eq!(frame[..4], [0, 0, 0, 3]);
            }
        }
    }
}

#[test]
fn round_trip_for_many_lengths() {
    for max in [6, 7, 8, 20, 1200] {
        for len in [0, 1, 2, 3, 13, 14, 500, 1193, 1194, 5000] {
            let mut bufs = HashMap::new();
            let payload = counting(len);
            let got = receive_all(&mut bufs, &build_datagrams(42, &payload, max));
            assert_eq!(got, vec![(42, payload)]);
            assert!(bufs.is_empty());
        }
    }
}

#[test]
fn largest_payload_round_trip() {
    let mut bufs = HashMap::new();
    let payload = counting(65535);
    let got = receive_all(&mut bufs, &build_datagrams(1, &payload, 1200));
    assert_eq!(got, vec![(1, payload)]);
}

#[test]
fn payload_beyond_the_length_field_is_cut() {
    let mut bufs = HashMap::new();
    let got = receive_all(&mut bufs, &build_datagrams(1, &counting(65536), 1200));
    assert_eq!(got, vec![(1, vec![])]);
}

#[test]
fn sessions_do_not_mix() {
    let a = build_datagrams(1, &counting(30), 12);
    let b = build_datagrams(2, &counting(40), 12);
    let mut mixed = Vec::new();
    for i in 0..a.len().max(b.len()) {
        mixed.extend(b.get(i).cloned());
        mixed.extend(a.get(i).cloned());
    }
    let mut bufs = HashMap::new();
    let mut got = receive_all(&mut bufs, &mixed);
    got.sort();
    assert_eq!(got, vec![(1, counting(30)), (2, counting(40))]);
}

#[test]
fn only_the_last_datagram_completes() {
    let mut bufs = HashMap::new();
    let frames = build_datagrams(9, &counting(50), 12);
    let (last, before) = frames.split_last().unwrap();
    assert_eq!(receive_all(&mut bufs, before), vec![]);
    assert_eq!(receive_all(&mut bufs, &[last.clone()]), vec![(9, counting(50))]);
}

#[test]
fn batches_are_one_reception() {
    let frames = build_datagrams(9, &counting(50), 12);
    let mut bufs = HashMap::new();
    let mut got = receive_all(&mut bufs, &frames[..2]);
    got.extend(receive_all(&mut bufs, &frames[2..]));
    assert_eq!(got, vec![(9, counting(50))]);
}

#[test]
fn short_datagrams_are_dropped() {
    let mut bufs = HashMap::new();
    for len in 0..5 {
        assert!(matches!(receive_datagram(&mut bufs, &vec![0; len]), Incoming::TooShort));
    }
    assert!(matches!(receive_datagram(&mut bufs, &[0; 5]), Incoming::Incomplete));
}

#[test]
fn malformed_single_is_discarded() {
    let mut bufs = HashMap::new();
    assert_eq!(feed_fragment(&mut bufs, 1, SINGLE, &[0]), None);
    assert_eq!(feed_fragment(&mut bufs, 1, SINGLE, &[0, 3, 1, 2]), None);
    assert_eq!(feed_fragment(&mut bufs, 1, SINGLE, &[0, 2, 1, 2]), Some(vec![1, 2]));
    assert_eq!(feed_fragment(&mut bufs, 1, SINGLE, &[0, 1, 1, 2]), Some(vec![1]));
    assert_eq!(feed_fragment(&mut bufs, 1, SINGLE, &[0, 0]), Some(vec![]));
    assert!(bufs.is_empty());
}

#[test]
fn orphans_and_unknown_kinds_are_discarded() {
    let mut bufs = HashMap::new();
    assert_eq!(feed_fragment(&mut bufs, 1, MIDDLE, &[1]), None);
    assert_eq!(feed_fragment(&mut bufs, 1, LAST, &[1]), None);
    assert_eq!(feed_fragment(&mut bufs, 1, FIRST, &[1]), None);
    assert_eq!(feed_fragment(&mut bufs, 1, 4, &[0, 1, 1]), None);
    assert!(bufs.is_empty());
}

#[test]
fn first_fragment_replaces_an_incomplete_message() {
    let mut bufs = HashMap::new();
    assert_eq!(feed_fragment(&mut bufs, 1, FIRST, &[0, 4, 1, 2]), None);
    assert_eq!(feed_fragment(&mut bufs, 1, FIRST, &[0, 3, 7, 8]), None);
    assert_eq!(feed_fragment(&mut bufs, 1, LAST, &[9]), Some(vec![7, 8, 9]));
    assert!(bufs.is_empty());
}

#[test]
fn message_is_cut_to_what_was_announced() {
    let mut bufs = HashMap::new();
    assert_eq!(feed_fragment(&mut bufs, 1, FIRST, &[0, 3, 1, 2]), None);
    assert_eq!(feed_fragment(&mut bufs, 1, MIDDLE, &[3, 4]), None);
    assert_eq!(feed_fragment(&mut bufs, 1, LAST, &[5]), Some(vec![1, 2, 3]));
}

#[test]
fn incomplete_message_is_not_handed_out() {
    let mut bufs = HashMap::new();
    assert_eq!(feed_fragment(&mut bufs, 1, FIRST, &[0, 9, 1, 2]), None);
    assert_eq!(bufs[&1].total_len, 9);
    assert_eq!(bufs[&1].data, vec![1, 2]);
    assert_eq!(feed_fragment(&mut bufs, 1, LAST, &[5]), None);
    assert!(bufs.is_empty());
    assert_eq!(feed_fragment(&mut bufs, 1, FIRST, &[0, 3, 1, 2]), None);
    assert_eq!(feed_fragment(&mut bufs, 1, LAST, &[5]), Some(vec![1, 2, 5]));
}

#[test]
fn lost_fragment_loses_the_message() {
    let frames = build_datagrams(9, &counting(50), 12);
    for lost in 0..frames.len() {
        let mut left = frames.clone();
        left.remove(lost);
        let mut bufs = HashMap::new();
        assert_eq!(receive_all(&mut bufs, &left), vec![]);
    }
}

#[test]
fn reasons_to_discard() {
    let mut bufs = HashMap::new();
    let reason = |bufs: &HashMap<u32, ReassemblyBuf>, kind: u8, data: &[u8]| {
        let mut dgram = vec![0, 0, 0, 1, kind];
        dgram.extend_from_slice(data);
        discard_reason(bufs, &dgram)
    };
    assert_eq!(discard_reason(&bufs, &[0; 4]), Some(Discard::TooShort));
    assert_eq!(reason(&bufs, SINGLE, &[0]), Some(Discard::SingleTooShort));
    assert_eq!(reason(&bufs, SINGLE, &[0, 3, 1, 2]), Some(Discard::SingleOverflow));
    assert_eq!(reason(&bufs, SINGLE, &[0, 2, 1, 2]), None);
    assert_eq!(reason(&bufs, FIRST, &[0]), Some(Discard::FirstTooShort));
    assert_eq!(reason(&bufs, FIRST, &[0, 2]), None);
    assert_eq!(reason(&bufs, MIDDLE, &[]), Some(Discard::Orphan(MIDDLE)));
    assert_eq!(reason(&bufs, LAST, &[]), Some(Discard::Orphan(LAST)));
    assert_eq!(reason(&bufs, 4, &[]), Some(Discard::UnknownKind(4)));
    feed_fragment(&mut bufs, 1, FIRST, &[0, 9]);
    assert_eq!(reason(&bufs, MIDDLE, &[]), None);
    assert_eq!(reason(&bufs, LAST, &[]), None);
}

#[test]
fn single_leaves_a_begun_message_alone() {
    let mut bufs = HashMap::new();
    assert_eq!(feed_fragment(&mut bufs, 1, FIRST, &[0, 3, 1, 2]), None);
    assert_eq!(feed_fragment(&mut bufs, 1, SINGLE, &[0, 1, 8]), Some(vec![8]));
    assert_eq!(feed_fragment(&mut bufs, 1, LAST, &[3]), Some(vec![1, 2, 3]));
}
