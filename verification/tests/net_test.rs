use controller_rs::msg::adc_msg::{AdcMsg, ComplexI16, CtrlParam};
use controller_rs::net::{adc_msg_frames, raw_buffer_frames, udp_buffer_frame, UDP_HDR_LEN};

const DST: [u8; 6] = [0x11, 0x22, 0x33, 0x44, 0x55, 0x66];
const SRC: [u8; 6] = [0x66, 0x55, 0x44, 0x33, 0x22, 0x11];

fn ones_complement_sum(data: &[u8], mut sum: u32) -> u32 {
    for pair in data.chunks(2) {
        let hi = pair[0] as u32;
        let lo = if pair.len() > 1 { pair[1] as u32 } else { 0 };
        sum += (hi << 8) | lo;
    }
    while sum > 0xffff {
        sum = (sum & 0xffff) + (sum >> 16);
    }
    sum
}

#[test]
fn empty_buffer_gives_one_padding_frame() {
    let frames = raw_buffer_frames(0xf5, &[], DST, SRC, 1500);
    assert_eq!(frames.len(), 1);
    let f = &frames[0];
    assert_eq!(f.len(), 95);
    assert_eq!(&f[0..6], &DST);
    assert_eq!(&f[6..12], &SRC);
    assert_eq!(&f[12..15], &[0x00, 81, 0xf5]);
    assert!(f[15..].iter().all(|&b| b == 0));
}

#[test]
fn short_buffer_is_padded_to_min_payload() {
    let frames = raw_buffer_frames(0xf3, &[2], DST, SRC, 1500);
    assert_eq!(frames.len(), 1);
    let f = &frames[0];
    assert_eq!(f.len(), 95);
    assert_eq!(&f[12..16], &[0x00, 81, 0xf3, 2]);
    assert!(f[16..].iter().all(|&b| b == 0));
}

#[test]
fn long_buffer_is_split_by_mtu() {
    let buf: Vec<u8> = (0..3000u32).map(|i| (i % 251) as u8).collect();
    let frames = raw_buffer_frames(0xf9, &buf, DST, SRC, 1500);
    assert_eq!(frames.len(), 3);
    assert_eq!(frames[0].len(), 15 + 1499);
    assert_eq!(frames[1].len(), 15 + 1499);
    assert_eq!(frames[2].len(), 15 + 80);
    assert_eq!(&frames[0][12..15], &[0x05, 0xdc, 0xf9]);
    assert_eq!(&frames[2][12..15], &[0x00, 81, 0xf9]);
    let mut joined = Vec::new();
    joined.extend_from_slice(&frames[0][15..]);
    joined.extend_from_slice(&frames[1][15..]);
    joined.extend_from_slice(&frames[2][15..17]);
    assert_eq!(joined, buf);
    assert!(frames[2][17..].iter().all(|&b| b == 0));
}

#[test]
fn exact_multiple_of_piece_size() {
    let buf = vec![7u8; 200];
    let frames = raw_buffer_frames(1, &buf, DST, SRC, 101);
    assert_eq!(frames.len(), 2);
    for f in &frames {
        assert_eq!(f.len(), 115);
        assert_eq!(&f[12..15], &[0, 101, 1]);
        assert!(f[15..].iter().all(|&b| b == 7));
    }
}

#[test]
fn adc_message_frames() {
    let frames = adc_msg_frames(&AdcMsg::Ctrl(CtrlParam::PreRst), DST, SRC, 1500);
    assert_eq!(frames.len(), 1);
    assert_eq!(&frames[0][12..16], &[0, 81, 0xf3, 1]);

    let cfg = AdcMsg::FftParam { fft_shift: 1, truncation: 2 };
    let frames = adc_msg_frames(&cfg, DST, SRC, 1500);
    assert_eq!(frames.len(), 1);
    assert_eq!(frames[0].len(), 115);
    assert_eq!(&frames[0][12..15], &[0, 101, 0xf8]);
    assert_eq!(frames[0][15..].to_vec(), cfg.get_raw_data()[0]);

    let pf = AdcMsg::PhaseFactor { value: vec![vec![ComplexI16 { re: 1, im: 0 }; 2048]; 8] };
    let frames = adc_msg_frames(&pf, DST, SRC, 1500);
    let packets = pf.get_raw_data();
    assert_eq!(frames.len(), 64);
    for (f, p) in frames.iter().zip(packets.iter()) {
        assert_eq!(f.len(), 15 + 1027);
        assert_eq!(&f[12..15], &[0x04, 0x04, 0xf9]);
        assert_eq!(&f[15..], &p[..]);
    }

    let frames = adc_msg_frames(&AdcMsg::UploadFft, DST, SRC, 1500);
    assert_eq!(frames.len(), 1);
    assert_eq!(&frames[0][12..15], &[0, 81, 0xf6]);
    assert_eq!(adc_msg_frames(&AdcMsg::QueryState, DST, SRC, 0).len(), 1);
}

#[test]
fn udp_frame_layout_and_checksums() {
    let payload = [0xfbu8, 0, 1, 0, 0, 0];
    let dst_ip = [192, 168, 2, 100];
    let src_ip = [192, 168, 2, 1];
    let f = udp_buffer_frame(&payload, DST, SRC, dst_ip, src_ip, 10000, 20000);
    assert_eq!(f.len(), UDP_HDR_LEN + payload.len());
    assert_eq!(&f[0..6], &DST);
    assert_eq!(&f[6..12], &SRC);
    assert_eq!(&f[12..16], &[0x08, 0x00, 0x45, 0x00]);
    assert_eq!(&f[16..18], &[0, 34]);
    assert_eq!(&f[18..24], &[0, 0, 0x40, 0, 0xff, 17]);
    assert_eq!(&f[26..30], &src_ip);
    assert_eq!(&f[30..34], &dst_ip);
    assert_eq!(&f[34..36], &20000u16.to_be_bytes());
    assert_eq!(&f[36..38], &10000u16.to_be_bytes());
    assert_eq!(&f[38..40], &[0, 14]);
    assert_eq!(&f[42..], &payload);
    // IPv4 header checksum: the header sums to 0xffff.
    assert_eq!(ones_complement_sum(&f[14..34], 0), 0xffff);
    // UDP checksum over the pseudo header, the UDP header and the payload.
    let mut pseudo = Vec::new();
    pseudo.extend_from_slice(&src_ip);
    pseudo.extend_from_slice(&dst_ip);
    pseudo.extend_from_slice(&[0, 17, 0, 14]);
    let s = ones_complement_sum(&pseudo, 0);
    assert_eq!(ones_complement_sum(&f[34..], s), 0xffff);
}
