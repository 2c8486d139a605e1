use controller_rs::fft::{
    assemble_fft_data, classify_fft_packet, ComplexI32, FftCollector, FftPacket, FFT_PACKET_LEN,
};

const BOARD: [u8; 6] = [0x11, 0x22, 0x33, 0x44, 0x55, 0x66];

fn value_for(seq: u8, k: usize) -> ComplexI32 {
    ComplexI32 { re: (seq as i32) * 1000 + k as i32, im: -((seq as i32) * 1000 + k as i32) }
}

fn fft_frame(seq: u8, mac: [u8; 6]) -> Vec<u8> {
    let mut f = vec![0u8; FFT_PACKET_LEN];
    f[6..12].copy_from_slice(&mac);
    f[12] = 0xaa;
    f[18] = seq;
    for k in 0..128 {
        let v = value_for(seq, k);
        f[19 + 8 * k..23 + 8 * k].copy_from_slice(&v.re.to_le_bytes());
        f[23 + 8 * k..27 + 8 * k].copy_from_slice(&v.im.to_le_bytes());
    }
    f
}

#[test]
fn classify_frames() {
    assert_eq!(classify_fft_packet(&[0u8; 100], BOARD), FftPacket::WrongLength);
    assert_eq!(classify_fft_packet(&fft_frame(1, [9; 6]), BOARD), FftPacket::OtherSource);
    assert_eq!(classify_fft_packet(&fft_frame(0, BOARD), BOARD), FftPacket::OutOfRange);
    assert_eq!(classify_fft_packet(&fft_frame(129, BOARD), BOARD), FftPacket::OutOfRange);
    assert_eq!(
        classify_fft_packet(&fft_frame(1, BOARD), BOARD),
        FftPacket::Chunk { chip: 0, chunk: 0 }
    );
    assert_eq!(
        classify_fft_packet(&fft_frame(17, BOARD), BOARD),
        FftPacket::Chunk { chip: 1, chunk: 0 }
    );
    assert_eq!(
        classify_fft_packet(&fft_frame(128, BOARD), BOARD),
        FftPacket::Chunk { chip: 7, chunk: 15 }
    );
}

#[test]
fn complete_upload_is_reassembled() {
    let mut c = FftCollector::new();
    for seq in (1..=128u8).rev() {
        c.accept(&fft_frame(seq, BOARD), BOARD);
        c.accept(&fft_frame(seq, [1; 6]), BOARD);
        c.accept(&[0u8; 60], BOARD);
    }
    assert_eq!(c.count(), 128);
    let rows = c.finish().expect("complete upload");
    assert_eq!(rows.len(), 8);
    for chip in 0..8 {
        assert_eq!(rows[chip].len(), 2048);
        for ch in 0..2048 {
            let seq = (chip * 16 + ch / 128 + 1) as u8;
            assert_eq!(rows[chip][ch], value_for(seq, ch % 128));
        }
    }
}

#[test]
fn incomplete_upload_gives_nothing() {
    let mut c = FftCollector::new();
    for seq in 1..=127u8 {
        c.accept(&fft_frame(seq, BOARD), BOARD);
    }
    assert_eq!(c.count(), 127);
    assert!(c.finish().is_none());
}

#[test]
fn duplicate_frames_are_counted() {
    let mut c = FftCollector::new();
    for _ in 0..128 {
        assert_eq!(c.accept(&fft_frame(3, BOARD), BOARD), FftPacket::Chunk { chip: 0, chunk: 2 });
    }
    let rows = c.finish().expect("128 frames");
    assert_eq!(rows[0][0], ComplexI32 { re: 1, im: 1 });
    assert_eq!(rows[0][256], value_for(3, 0));
    assert_eq!(rows[0][383], value_for(3, 127));
    assert_eq!(rows[0][384], ComplexI32 { re: 1, im: 1 });
}

#[test]
fn other_frames_change_nothing() {
    let mut c = FftCollector::new();
    assert_eq!(c.accept(&fft_frame(0, BOARD), BOARD), FftPacket::OutOfRange);
    assert_eq!(c.accept(&fft_frame(5, [0; 6]), BOARD), FftPacket::OtherSource);
    assert_eq!(c.accept(&[1, 2, 3], BOARD), FftPacket::WrongLength);
    assert_eq!(c.count(), 0);
}

#[test]
fn assemble_rows_of_all_boards() {
    let row = |v: i32| vec![ComplexI32 { re: v, im: v }; 4];
    let mut boards = Vec::new();
    for b in 0..16 {
        if b == 3 {
            boards.push(None);
        } else {
            boards.push(Some((0..8).map(|k| row(b * 10 + k)).collect::<Vec<_>>()));
        }
    }
    let all = assemble_fft_data(boards);
    assert_eq!(all.len(), 128);
    assert_eq!(all[0], row(0));
    assert_eq!(all[2 * 8 + 5], row(25));
    assert!(all[3 * 8..4 * 8].iter().all(|r| r.is_empty()));
    assert_eq!(all[15 * 8 + 7], row(157));
}

#[test]
fn assemble_with_short_board_data() {
    let boards = vec![Some(vec![vec![ComplexI32 { re: 9, im: 9 }]]), None];
    let all = assemble_fft_data(boards);
    assert_eq!(all.len(), 128);
    assert_eq!(all[0], vec![ComplexI32 { re: 9, im: 9 }]);
    assert!(all[1..].iter().all(|r| r.is_empty()));
}
