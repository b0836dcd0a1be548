use sha2::Digest;
use yog::fingerprint::{packet_fingerprints, FingerprintFold, PacketFingerprint, PacketRecord};

type Packet<'a> = (usize, &'a str, Option<&'a str>);

fn fold(packets: &[Packet], streams: &[usize]) -> Vec<(usize, PacketFingerprint)> {
    let mut fold = FingerprintFold::new(streams);
    for &(stream, hash, pts) in packets {
        fold.feed(stream, hash, pts, None);
    }
    fold.finish()
}

fn get(v: &[(usize, PacketFingerprint)], index: usize) -> &PacketFingerprint {
    &v.iter().find(|(i, _)| *i == index).unwrap().1
}

#[test]
fn packet_fingerprints_separate_stream_order_payload_and_presentation_time() {
    let original = fold(
        &[(4, "A", Some("0.000000")), (9, "C", None), (4, "B", Some("0.020000")), (20, "ignored", None)],
        &[4, 9],
    );
    let interleaved = fold(
        &[(9, "C", None), (4, "A", Some("0.000000")), (20, "different", None), (4, "B", Some("0.020000"))],
        &[4, 9],
    );
    assert_eq!(original, interleaved);
    assert_eq!(original.len(), 2);

    let payload = fold(&[(4, "B", Some("0.000000")), (9, "C", None), (4, "A", Some("0.020000"))], &[4, 9]);
    assert_eq!(get(&original, 4).packets, get(&payload, 4).packets);
    assert_ne!(get(&original, 4).sha256, get(&payload, 4).sha256);
    assert_eq!(get(&original, 4).timing_sha256, get(&payload, 4).timing_sha256);
    assert_eq!(get(&original, 9), get(&payload, 9));

    let timing = fold(&[(4, "A", Some("0.010000")), (9, "C", None), (4, "B", Some("0.030000"))], &[4, 9]);
    assert_eq!(get(&original, 4).sha256, get(&timing, 4).sha256);
    assert_ne!(get(&original, 4).timing_sha256, get(&timing, 4).timing_sha256);
}

#[test]
fn fingerprints_digest_hash_lines_and_time_lines() {
    let mut fold = FingerprintFold::new(&[3]);
    fold.feed(3, "ab", Some("1.5"), Some("0.04"));
    let result = fold.finish();
    assert_eq!(result.len(), 1);
    assert_eq!(result[0].0, 3);
    assert_eq!(result[0].1.packets, 1);
    let data: [u8; 32] = sha2::Sha256::digest(b"ab\n").into();
    let timing: [u8; 32] = sha2::Sha256::digest(b"1.5\n0.04\n").into();
    assert_eq!(result[0].1.sha256, data);
    assert_eq!(result[0].1.timing_sha256, timing);
}

#[test]
fn streams_come_out_once_each_in_index_order() {
    let result = fold(&[], &[9, 2, 9, 5]);
    let indices: Vec<usize> = result.iter().map(|(i, _)| *i).collect();
    assert_eq!(indices, [2, 5, 9]);
    let empty: [u8; 32] = sha2::Sha256::digest(b"").into();
    for (_, fp) in &result {
        assert_eq!(fp.packets, 0);
        assert_eq!(fp.sha256, empty);
        assert_eq!(fp.timing_sha256, empty);
    }
}

fn record(stream: usize, hash: Option<&str>, pts: &str) -> PacketRecord {
    PacketRecord {
        stream_index: stream,
        data_hash: hash.map(str::to_string),
        pts_time: Some(pts.to_string()),
        duration_time: Some("0.040000".to_string()),
    }
}

#[test]
fn packet_list_fingerprints_ignore_other_streams_and_refuse_a_missing_hash() {
    let alone = vec![record(0, Some("SHA256:aa"), "0.000000"), record(0, Some("SHA256:bb"), "0.040000")];
    let mixed = vec![
        record(1, Some("SHA256:cc"), "0.000000"),
        record(0, Some("SHA256:aa"), "0.000000"),
        record(2, Some("SHA256:dd"), "0.010000"),
        record(0, Some("SHA256:bb"), "0.040000"),
    ];
    let a = packet_fingerprints(&[0], &alone).unwrap();
    let b = packet_fingerprints(&[0], &mixed).unwrap();
    assert_eq!(a, b);
    assert_eq!(a[0].0, 0);
    assert_eq!(a[0].1.packets, 2);
    let both = packet_fingerprints(&[1, 0], &mixed).unwrap();
    assert_eq!(both.iter().map(|(i, _)| *i).collect::<Vec<_>>(), vec![0, 1]);
    assert_eq!(both[1].1.packets, 1);

    let missing = vec![record(0, Some("SHA256:aa"), "0.000000"), record(1, None, "0.000000")];
    assert_eq!(packet_fingerprints(&[0], &missing), Err(1));
}
