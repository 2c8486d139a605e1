use controller_rs::board_cfg::{
    check_channel_range, BoardCfg, BoardCfgFields, PortParamFields, XGbeIdFields, BOARD_NUM,
};
use controller_rs::msg::adc_msg::{AdcMsg, ComplexI16, CtrlParam, XGbeIdParam};
use controller_rs::msg::snap2_msg::{Snap2Msg, XGbePortOp};

fn xgbeid_entry(i: u64) -> XGbeIdFields {
    XGbeIdFields {
        mac1: vec![i, 1, 2, 3, 4, 5],
        mac2: vec![i, 6, 7, 8, 9, 10],
        mac3: Some(vec![i, 11, 12, 13, 14, 15]),
        mac4: Some(vec![i, 16, 17, 18, 19, 20]),
        ip1: Some(vec![192, 168, 1, i]),
        ip2: Some(vec![192, 168, 2, i]),
        port1: Some(4000 + i),
        port2: Some(5000 + i),
    }
}

fn port_entry(i: u64) -> PortParamFields {
    PortParamFields {
        src_mac: vec![2, 2, 2, 2, 2, i],
        src_ip: vec![10, 0, 0, i],
        src_port: 60000 + i,
        dst_mac: vec![3, 3, 3, 3, 3, i],
        dst_ip: vec![10, 0, 1, i],
        dst_port: 70000 + i,
    }
}

fn sample_fields() -> BoardCfgFields {
    BoardCfgFields {
        ch_beg: 100,
        ch_end: 2000,
        packet_gap: 2000,
        counter_wait: 639,
        counter_sync: 10,
        trig_out_delay: 5,
        optical_delay: 15,
        fft_shift: 0x7ff,
        truncation: 0x1_0000_0003,
        master_board_id: 3,
        mac: (0..16u64).map(|i| vec![0x11, 0x22, 0x33, 0x44, 0x55, i]).collect(),
        xgbeid: (0..16u64).map(xgbeid_entry).collect(),
        io_delay: (0..16u64).map(|i| vec![i, i + 1, i + 2, i + 3]).collect(),
        snap_mac: vec![0xa, 0xb, 0xc, 0xd, 0xe, 0xf],
        snap_ip: vec![192, 168, 10, 2],
        ctrl_src_port: 1234,
        ctrl_dst_port: 5678,
        xgbeparam: (0..9u64).map(port_entry).collect(),
        mode_sel: 2,
        test_mode_streams: vec![1, 2, 3, 4, 5, 6, 7, 8],
        num_of_streams_sel: 3,
        src_mac: vec![0x66, 0x55, 0x44, 0x33, 0x22, 0x11],
        src_ip: vec![192, 168, 10, 1],
    }
}

fn sample_cfg() -> BoardCfg {
    let f = sample_fields();
    assert!(f.check_acceptable());
    BoardCfg::from_fields(&f)
}

#[test]
fn channel_range_rule() {
    assert!(check_channel_range(0, 2048));
    assert!(check_channel_range(100, 2000));
    assert!(!check_channel_range(1, 2000));
    assert!(!check_channel_range(100, 1999));
    assert!(!check_channel_range(100, 100));
    assert!(!check_channel_range(100, 2050));
}

#[test]
fn acceptance_of_documents() {
    assert!(sample_fields().check_acceptable());
    let mut f = sample_fields();
    f.ch_end = 2049;
    assert!(!f.check_acceptable());
    let mut f = sample_fields();
    f.mac.push(vec![]);
    assert!(!f.check_acceptable());
    let mut f = sample_fields();
    f.mac[2].push(1);
    assert!(!f.check_acceptable());
    let mut f = sample_fields();
    f.xgbeid[3].ip1 = None;
    assert!(!f.check_acceptable());
    let mut f = sample_fields();
    f.xgbeid[2].ip1 = None;
    f.xgbeid[2].port2 = None;
    assert!(f.check_acceptable());
    let mut f = sample_fields();
    f.xgbeparam.push(port_entry(9));
    assert!(!f.check_acceptable());
    let mut f = sample_fields();
    f.test_mode_streams.push(9);
    assert!(!f.check_acceptable());
    let mut f = sample_fields();
    f.io_delay[0].push(9);
    assert!(!f.check_acceptable());
}

#[test]
fn from_fields_values() {
    let cfg = sample_cfg();
    assert_eq!(cfg.packet_gap, 2000);
    assert_eq!(cfg.counter_wait, 639);
    assert_eq!(cfg.counter_sync, 10);
    assert_eq!(cfg.fft_shift, 0x7ff);
    assert_eq!(cfg.truncation, 3);
    assert_eq!(cfg.master_board_id, 3);
    assert_eq!(cfg.mac[7], [0x11, 0x22, 0x33, 0x44, 0x55, 7]);
    assert_eq!(cfg.io_delay[5], [5, 6, 7, 8]);
    assert_eq!(cfg.snap_mac, [0xa, 0xb, 0xc, 0xd, 0xe, 0xf]);
    assert_eq!(cfg.src_ip, [192, 168, 10, 1]);
    assert_eq!(cfg.ch_beg, 100);
    assert_eq!(cfg.ch_end, 2000);
    assert_eq!(cfg.xgbeid.len(), 16);
    assert_eq!(
        cfg.xgbeid[0],
        XGbeIdParam::Upper { mac1: [0, 1, 2, 3, 4, 5], mac2: [0, 6, 7, 8, 9, 10] }
    );
    assert_eq!(
        cfg.xgbeid[1],
        XGbeIdParam::Lower {
            mac1: [1, 1, 2, 3, 4, 5],
            mac2: [1, 6, 7, 8, 9, 10],
            mac3: [1, 11, 12, 13, 14, 15],
            mac4: [1, 16, 17, 18, 19, 20],
            ip1: [192, 168, 1, 1],
            ip2: [192, 168, 2, 1],
            port1: 4001,
            port2: 5001,
        }
    );
    let p0 = cfg.snap_xgbe_params[0];
    assert_eq!(p0.pkt_len, (2000 - 100) * 4 + 8);
    assert_eq!(p0.src_port, 60000);
    assert_eq!(p0.dst_port, (70000u64 as u16));
    assert_eq!(p0.dst_ip, [10, 0, 1, 0]);
    for i in 1..9 {
        assert_eq!(cfg.snap_xgbe_params[i].pkt_len, 8200);
        assert_eq!(cfg.snap_xgbe_params[i].src_mac, [2, 2, 2, 2, 2, i as u8]);
    }
    let app = cfg.snap_app_param;
    assert_eq!(app.mode_sel, 2);
    assert_eq!(app.test_mode_streams, [1, 2, 3, 4, 5, 6, 7, 8]);
    assert_eq!(app.num_of_streams_sel, 3);
    assert_eq!(app.first_ch, 100);
    assert_eq!(app.last_ch, 1999);
    assert_eq!(p0.pkt_len, (app.last_ch - app.first_ch + 1) * 4 + 8);
}

#[test]
fn from_fields_short_lists_are_zero_filled() {
    let mut f = sample_fields();
    f.mac.truncate(2);
    f.mac[1] = vec![9, 9];
    f.io_delay = vec![];
    f.snap_ip = vec![1];
    f.xgbeparam.truncate(1);
    f.test_mode_streams = vec![5];
    f.xgbeid.truncate(3);
    let cfg = BoardCfg::from_fields(&f);
    assert_eq!(cfg.mac[1], [9, 9, 0, 0, 0, 0]);
    assert_eq!(cfg.mac[2], [0; 6]);
    assert_eq!(cfg.io_delay[15], [0; 4]);
    assert_eq!(cfg.snap_ip, [1, 0, 0, 0]);
    assert_eq!(cfg.snap_xgbe_params[1].get_raw_data(), vec![0u8; 28]);
    assert_eq!(cfg.snap_app_param.test_mode_streams, [5, 0, 0, 0, 0, 0, 0, 0]);
    assert_eq!(cfg.xgbeid.len(), 3);
}

fn assert_each(cmds: &[controller_rs::board_cfg::AdcCommand], cfg: &BoardCfg, msg: &AdcMsg) {
    assert_eq!(cmds.len(), BOARD_NUM);
    for (b, c) in cmds.iter().enumerate() {
        assert_eq!(c.board, b);
        assert_eq!(c.dst_mac, cfg.mac[b]);
        assert_eq!(&c.msg, msg);
    }
}

#[test]
fn reset_sync_and_trigger_sequences() {
    let cfg = sample_cfg();
    let r = cfg.reset_all_commands();
    assert_each(&r[..16], &cfg, &AdcMsg::Ctrl(CtrlParam::PreRst));
    assert_eq!(r[16].board, 3);
    assert_eq!(r[16].dst_mac, cfg.mac[3]);
    assert_eq!(r[16].msg, AdcMsg::MasterRst);

    let s = cfg.sync_adc_commands();
    assert_eq!(s.len(), 34);
    assert_each(&s[..16], &cfg, &AdcMsg::Ctrl(CtrlParam::IddrRst));
    assert_eq!((s[16].board, &s[16].msg), (3, &AdcMsg::MasterTrig));
    assert_each(&s[17..33], &cfg, &AdcMsg::Ctrl(CtrlParam::Synchronize));
    assert_eq!((s[33].board, &s[33].msg), (3, &AdcMsg::MasterSync));

    assert_each(&cfg.wait_for_trig_commands(), &cfg, &AdcMsg::Ctrl(CtrlParam::StartFft));
    let t = cfg.internal_trig_command();
    assert_eq!((t.board, t.dst_mac, t.msg), (3, cfg.mac[3], AdcMsg::MasterTrig));

    let d = cfg.store_data_commands();
    assert_each(&d[..16], &cfg, &AdcMsg::Ctrl(CtrlParam::StoreData));
    assert_eq!((d[16].board, &d[16].msg), (3, &AdcMsg::MasterTrig));
}

#[test]
fn parameter_sequences() {
    let cfg = sample_cfg();
    let x = cfg.xgbeid_commands();
    assert_eq!(x.len(), 16);
    for (b, c) in x.iter().enumerate() {
        assert_eq!(c.board, b);
        assert_eq!(c.msg, AdcMsg::XGbeId(cfg.xgbeid[b]));
    }
    assert_each(
        &cfg.fft_param_commands(),
        &cfg,
        &AdcMsg::FftParam { fft_shift: 0x7ff, truncation: 3 },
    );
    let a = cfg.adc_param_commands();
    assert_eq!(a.len(), 16);
    for (b, c) in a.iter().enumerate() {
        assert_eq!(c.dst_mac, cfg.mac[b]);
        assert_eq!(
            c.msg,
            AdcMsg::Cfg {
                io_delay: cfg.io_delay[b],
                packet_gap: 2000,
                counter_sync: 10,
                counter_wait: 639,
                trig_out_delay: 5,
                optical_delay: 15,
            }
        );
    }
    let u = cfg.upload_fft_command(9);
    assert_eq!((u.board, u.dst_mac, u.msg), (9, cfg.mac[9], AdcMsg::UploadFft));
}

#[test]
fn phase_factor_update_sequence() {
    let cfg = sample_cfg();
    let value: Vec<Vec<Vec<ComplexI16>>> = (0..16)
        .map(|b| vec![vec![ComplexI16 { re: b as i16, im: 0 }; 2048]; 8])
        .collect();
    let cmds = cfg.update_phase_factor_commands(value.clone());
    assert_eq!(cmds.len(), 33);
    for b in 0..16 {
        assert_eq!(cmds[b].board, b);
        assert_eq!(cmds[b].msg, AdcMsg::PhaseFactor { value: value[b].clone() });
    }
    assert_each(&cmds[16..32], &cfg, &AdcMsg::Ctrl(CtrlParam::SwitchPhaseFactor));
    assert_eq!((cmds[32].board, &cmds[32].msg), (3, &AdcMsg::MasterTrig));

    let one = cfg.phase_factor_command(5, value[5].clone());
    assert_eq!((one.board, one.dst_mac), (5, cfg.mac[5]));
    assert_eq!(one.msg, AdcMsg::PhaseFactor { value: value[5].clone() });
}

#[test]
fn snap_message_frame() {
    let cfg = sample_cfg();
    let msg = Snap2Msg::XGbePortOp(XGbePortOp::TurnOn);
    let f = cfg.snap_msg_frame(&msg);
    assert_eq!(f.len(), 42 + 6);
    assert_eq!(&f[0..6], &cfg.snap_mac);
    assert_eq!(&f[6..12], &cfg.src_mac);
    assert_eq!(&f[26..30], &cfg.src_ip);
    assert_eq!(&f[30..34], &cfg.snap_ip);
    assert_eq!(&f[34..36], &1234u16.to_be_bytes());
    assert_eq!(&f[36..38], &5678u16.to_be_bytes());
    assert_eq!(&f[42..], &[0xfb, 0, 1, 0, 0, 0]);
    let params = cfg.snap_msg_frame(&Snap2Msg::XGbePortParams(cfg.snap_xgbe_params));
    assert_eq!(params.len(), 42 + 254);
    let app = cfg.snap_msg_frame(&Snap2Msg::AppParam(cfg.snap_app_param));
    assert_eq!(app.len(), 42 + 82);
}
