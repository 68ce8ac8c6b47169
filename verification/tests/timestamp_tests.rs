use rs_build::timestamp::Timestamp;

#[test]
fn timestamp_keeps_seconds() {
    assert_eq!(Timestamp::new(1500000000).timestamp(), 1500000000);
    assert_eq!(Timestamp::new(-3).timestamp, -3);
}

#[test]
fn encode_writes_zig_zag_groups() {
    assert_eq!(Timestamp::new(0).encode(), vec![0]);
    assert_eq!(Timestamp::new(-1).encode(), vec![1]);
    assert_eq!(Timestamp::new(1).encode(), vec![2]);
    assert_eq!(Timestamp::new(-2).encode(), vec![3]);
    assert_eq!(Timestamp::new(64).encode(), vec![0x80, 0x01]);
    assert_eq!(Timestamp::new(i64::MIN).encode().len(), 10);
}

#[test]
fn decode_reads_back_encode() {
    for t in [0i64, 1, -1, 63, 64, -65, 1500000000, i64::MIN, i64::MAX] {
        let mut bytes = Timestamp::new(t).encode();
        let n = bytes.len();
        bytes.push(0x7f);
        assert_eq!(Timestamp::decode(&bytes), Some((Timestamp::new(t), n)));
    }
}

#[test]
fn decode_refuses_short_or_long_input() {
    assert_eq!(Timestamp::decode(&[]), None);
    assert_eq!(Timestamp::decode(&[0x80]), None);
    let mut long = vec![0xff; 9];
    long.push(0x02);
    assert_eq!(Timestamp::decode(&long), None);
}

#[test]
fn now_is_after_the_original_release() {
    assert!(Timestamp::now().timestamp() > 1500000000);
}
