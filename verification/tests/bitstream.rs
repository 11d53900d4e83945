use noshare_cover::media::video::bitstream::{parse_avcc, parse_hvcc, to_annexb, NalConfig, Reader};

fn avcc(sps: &[u8], pps: &[u8], len_minus_one: u8) -> Vec<u8> {
    let mut v = vec![1, 0x64, 0, 0x1f, 0xfc | len_minus_one, 0xe1];
    v.extend((sps.len() as u16).to_be_bytes());
    v.extend(sps);
    v.push(1);
    v.extend((pps.len() as u16).to_be_bytes());
    v.extend(pps);
    v
}

#[test]
fn avcc_roundtrip_to_annexb() {
    let cfg = parse_avcc(&avcc(&[0x67, 1, 2], &[0x68, 3], 3)).unwrap();
    assert_eq!(cfg.length_size, 4);
    assert_eq!(cfg.parameter_sets, vec![vec![0x67, 1, 2], vec![0x68, 3]]);

    // two NALs in the sample
    let sample = [0, 0, 0, 2, 0x65, 9, 0, 0, 0, 1, 0x06];
    let key = to_annexb(&sample, &cfg, true).unwrap();
    assert_eq!(
        key,
        [
            0, 0, 0, 1, 0x67, 1, 2, 0, 0, 0, 1, 0x68, 3, 0, 0, 0, 1, 0x65, 9, 0, 0, 0, 1, 0x06
        ]
    );
    let delta = to_annexb(&sample, &cfg, false).unwrap();
    assert_eq!(delta, [0, 0, 0, 1, 0x65, 9, 0, 0, 0, 1, 0x06]);
}

#[test]
fn short_length_fields() {
    let cfg = parse_avcc(&avcc(&[0x67], &[0x68], 1)).unwrap();
    assert_eq!(cfg.length_size, 2);
    assert_eq!(
        to_annexb(&[0, 1, 0x41], &cfg, false).unwrap(),
        [0, 0, 0, 1, 0x41]
    );
}

#[test]
fn truncated_is_none_not_panic() {
    let cfg = NalConfig {
        length_size: 4,
        parameter_sets: vec![],
    };
    assert!(to_annexb(&[0, 0, 0, 9, 1, 2], &cfg, false).is_none());
    assert!(parse_avcc(&[1, 2]).is_none());
    assert!(
        parse_avcc(&[2, 0, 0, 0, 0xff, 0]).is_none(),
        "wrong version"
    );
    assert!(parse_hvcc(&[1; 10]).is_none());
}

#[test]
fn hvcc_arrays() {
    let mut v = vec![1u8];
    v.extend([0u8; 20]);
    v.push(0xf3); // lengths of four bytes
    v.push(2); // two arrays
    for (ty, nal) in [(32u8, vec![0x40, 1]), (33, vec![0x42, 2, 3])] {
        v.push(0x80 | ty);
        v.extend(1u16.to_be_bytes());
        v.extend((nal.len() as u16).to_be_bytes());
        v.extend(&nal);
    }
    let cfg = parse_hvcc(&v).unwrap();
    assert_eq!(cfg.length_size, 4);
    assert_eq!(cfg.parameter_sets, vec![vec![0x40, 1], vec![0x42, 2, 3]]);
}

#[test]
fn lengths_of_three_bytes_are_refused() {
    assert!(parse_avcc(&avcc(&[0x67], &[0x68], 2)).is_none());
    assert!(parse_avcc(&avcc(&[0x67], &[0x68], 0)).is_some());
}

#[test]
fn empty_nals_and_samples() {
    let cfg = NalConfig { length_size: 1, parameter_sets: vec![vec![7]] };
    assert_eq!(to_annexb(&[0, 1, 9, 0], &cfg, false).unwrap(), [0, 0, 0, 1, 9]);
    assert_eq!(to_annexb(&[], &cfg, true).unwrap(), [0, 0, 0, 1, 7]);
    assert_eq!(to_annexb(&[], &cfg, false).unwrap(), []);
}

#[test]
fn a_reader_stops_at_the_end() {
    let mut r = Reader::new(&[1, 2, 3, 4]);
    assert_eq!(r.u8(), Some(1));
    assert_eq!(r.u16(), Some(0x0203));
    assert_eq!(r.bytes(2), None);
    assert_eq!(r.skip(1), Some(()));
    assert_eq!(r.u8(), None);
    assert_eq!(r.bytes(0), Some(&[][..]));
}

#[test]
fn records_are_read_whatever_stands_behind_them() {
    let mut raw = avcc(&[0x67, 1, 2], &[0x68, 3], 3);
    let short = raw.len();
    for n in 0..short {
        assert!(parse_avcc(&raw[..n]).is_none(), "{n}");
    }
    raw.extend([0xfd, 0xf8, 0xf8, 0]);
    raw[4] = 0x03;
    raw[5] = 0x41;
    let cfg = parse_avcc(&raw).unwrap();
    assert_eq!(cfg.length_size, 4, "only the low bits count");
    assert_eq!(cfg.parameter_sets, vec![vec![0x67, 1, 2], vec![0x68, 3]]);

    let mut raw = vec![1u8];
    raw.extend([0u8; 20]);
    raw.extend([0x01, 1, 0xa0, 0, 1, 0, 2, 0x40, 7]);
    for n in 0..raw.len() {
        assert!(parse_hvcc(&raw[..n]).is_none(), "{n}");
    }
    raw.extend([9, 9, 9]);
    let cfg = parse_hvcc(&raw).unwrap();
    assert_eq!((cfg.length_size, cfg.parameter_sets), (2, vec![vec![0x40, 7]]));
}

#[test]
fn samples_in_a_row_convert_one_by_one() {
    let cfg = NalConfig { length_size: 2, parameter_sets: vec![vec![0x67]] };
    let (a, b) = ([0, 1, 0x41, 0, 0], [0, 2, 0x42, 7]);
    let both: Vec<u8> = a.iter().chain(&b).copied().collect();
    for key in [false, true] {
        let mut want = to_annexb(&a, &cfg, key).unwrap();
        want.extend(to_annexb(&b, &cfg, false).unwrap());
        assert_eq!(to_annexb(&both, &cfg, key).unwrap(), want);
    }
    let broken: Vec<u8> = a.iter().chain(&b[..3]).copied().collect();
    assert!(to_annexb(&broken, &cfg, false).is_none());
}
