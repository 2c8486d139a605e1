use controller_rs::msg::adc_msg::{AdcMsg, AdcMsgFields, ComplexI16, CtrlParam, XGbeIdParam};
use controller_rs::msg::swap_phase_factor;

fn all_ctrl() -> Vec<CtrlParam> {
    vec![
        CtrlParam::Synchronize,
        CtrlParam::PreRst,
        CtrlParam::StartFft,
        CtrlParam::SwitchPhaseFactor,
        CtrlParam::StoreData,
        CtrlParam::IddrRst,
    ]
}

fn phase_value(ports: usize, channels: usize) -> Vec<Vec<ComplexI16>> {
    (0..ports)
        .map(|p| {
            (0..channels)
                .map(|c| ComplexI16 { re: (p * 10000 + c) as i16, im: -((c as i16) + 1) })
                .collect()
        })
        .collect()
}

#[test]
fn ctrl_param_codes() {
    let codes: Vec<u8> = all_ctrl().into_iter().map(|p| p.param_code()).collect();
    assert_eq!(codes, vec![0, 1, 2, 3, 4, 5]);
}

#[test]
fn ctrl_param_names() {
    assert_eq!(CtrlParam::from_name("Synchronize"), Some(CtrlParam::Synchronize));
    assert_eq!(CtrlParam::from_name("PreRst"), Some(CtrlParam::PreRst));
    assert_eq!(CtrlParam::from_name("StartFft"), Some(CtrlParam::StartFft));
    assert_eq!(CtrlParam::from_name("SwitchPhaseFactor"), Some(CtrlParam::SwitchPhaseFactor));
    assert_eq!(CtrlParam::from_name("StoreData"), Some(CtrlParam::StoreData));
    assert_eq!(CtrlParam::from_name("IddrRst"), None);
    assert_eq!(CtrlParam::from_name("prerst"), None);
    assert_eq!(CtrlParam::from_name(""), None);
}

#[test]
fn adc_type_codes() {
    let msgs = vec![
        (AdcMsg::MasterSync, 0xf0),
        (AdcMsg::MasterRst, 0xf1),
        (AdcMsg::MasterTrig, 0xf2),
        (AdcMsg::Ctrl(CtrlParam::PreRst), 0xf3),
        (
            AdcMsg::Cfg {
                io_delay: [0; 4],
                packet_gap: 0,
                counter_sync: 0,
                counter_wait: 0,
                trig_out_delay: 0,
                optical_delay: 0,
            },
            0xf4,
        ),
        (AdcMsg::UploadData, 0xf5),
        (AdcMsg::UploadFft, 0xf6),
        (AdcMsg::FftParam { fft_shift: 0, truncation: 0 }, 0xf8),
        (AdcMsg::PhaseFactor { value: vec![] }, 0xf9),
        (AdcMsg::QueryState, 0xfa),
        (AdcMsg::XGbeId(XGbeIdParam::Upper { mac1: [0; 6], mac2: [0; 6] }), 0xfb),
    ];
    for (m, code) in msgs {
        assert_eq!(m.msg_type_code(), code);
    }
}

#[test]
fn ctrl_raw_data() {
    for p in all_ctrl() {
        assert_eq!(AdcMsg::Ctrl(p).get_raw_data(), vec![vec![p.param_code()]]);
    }
}

#[test]
fn master_and_empty_raw_data() {
    for m in [AdcMsg::MasterRst, AdcMsg::MasterTrig, AdcMsg::MasterSync] {
        assert_eq!(m.get_raw_data(), vec![vec![0x01u8; 10]]);
    }
    for m in [AdcMsg::UploadData, AdcMsg::UploadFft, AdcMsg::QueryState] {
        assert_eq!(m.get_raw_data(), vec![Vec::<u8>::new()]);
    }
}

#[test]
fn cfg_raw_data() {
    let m = AdcMsg::Cfg {
        io_delay: [6, 7, 8, 9],
        packet_gap: 2000,
        counter_sync: 10,
        counter_wait: 639,
        trig_out_delay: 5,
        optical_delay: 15,
    };
    let raw = m.get_raw_data();
    assert_eq!(raw.len(), 1);
    let mut expected = vec![6, 7, 8, 9, 0xd0, 0x07, 10, 0x7f, 0x02, 5, 15];
    expected.extend(vec![0u8; 89]);
    assert_eq!(raw[0], expected);
    assert_eq!(raw[0].len(), 100);
}

#[test]
fn fft_param_raw_data() {
    let raw = AdcMsg::FftParam { fft_shift: 0xabcd, truncation: 0x12345678 }.get_raw_data();
    let mut expected = vec![0xcd, 0xab, 0x78, 0x56, 0x34, 0x12];
    expected.extend(vec![0u8; 94]);
    assert_eq!(raw, vec![expected]);
}

#[test]
fn xgbeid_upper_raw_data() {
    let raw = AdcMsg::XGbeId(XGbeIdParam::Upper {
        mac1: [1, 2, 3, 4, 5, 6],
        mac2: [7, 8, 9, 10, 11, 12],
    })
    .get_raw_data();
    let mut expected = vec![6, 5, 4, 3, 2, 1, 12, 11, 10, 9, 8, 7];
    expected.extend(vec![0u8; 88]);
    assert_eq!(raw, vec![expected]);
}

#[test]
fn xgbeid_lower_raw_data() {
    let raw = AdcMsg::XGbeId(XGbeIdParam::Lower {
        mac1: [1, 2, 3, 4, 5, 6],
        mac2: [7, 8, 9, 10, 11, 12],
        mac3: [13, 14, 15, 16, 17, 18],
        mac4: [19, 20, 21, 22, 23, 24],
        ip1: [192, 168, 0, 1],
        ip2: [10, 1, 2, 3],
        port1: 0x0102,
        port2: 60000,
    })
    .get_raw_data();
    let mut expected = vec![
        6, 5, 4, 3, 2, 1, 12, 11, 10, 9, 8, 7, 18, 17, 16, 15, 14, 13, 24, 23, 22, 21, 20, 19, 1,
        0, 168, 192, 3, 2, 1, 10, 0x02, 0x01, 0x60, 0xea,
    ];
    expected.extend(vec![0u8; 64]);
    assert_eq!(raw, vec![expected]);
    assert_eq!(raw[0].len(), 100);
}

#[test]
fn phase_factor_raw_data() {
    let value = phase_value(8, 2048);
    let raw = AdcMsg::PhaseFactor { value: value.clone() }.get_raw_data();
    assert_eq!(raw.len(), 64);
    for i in 0..8 {
        for n in 0..8 {
            let packet = &raw[i * 8 + n];
            assert_eq!(packet.len(), 1027);
            let addr = (n * 1024) as u16;
            assert_eq!(&packet[0..3], &[i as u8, (addr & 0xff) as u8, (addr >> 8) as u8]);
            for j in 0..256 {
                let c = value[i][n * 256 + j];
                let re = c.re.to_le_bytes();
                let im = c.im.to_le_bytes();
                assert_eq!(&packet[3 + 4 * j..7 + 4 * j], &[re[0], re[1], im[0], im[1]]);
            }
        }
    }
}

#[test]
fn phase_factor_packet_header_example() {
    let mut value = vec![vec![ComplexI16 { re: 0, im: 0 }; 2048]; 8];
    value[1][256] = ComplexI16 { re: 1, im: -1 };
    let raw = AdcMsg::PhaseFactor { value }.get_raw_data();
    assert_eq!(&raw[9][0..7], &[1, 0x00, 0x04, 1, 0, 0xff, 0xff]);
    assert_eq!(&raw[63][0..3], &[7, 0x00, 0x1c]);
}

#[test]
fn phase_factor_ignores_extra_ports_and_channels() {
    let value = phase_value(9, 2100);
    let raw = AdcMsg::PhaseFactor { value: value.clone() }.get_raw_data();
    let trimmed: Vec<Vec<ComplexI16>> = value[..8].iter().map(|v| v[..2048].to_vec()).collect();
    assert_eq!(raw, AdcMsg::PhaseFactor { value: trimmed }.get_raw_data());
}

#[test]
fn phase_factor_shape_check() {
    assert!(AdcMsg::PhaseFactor { value: phase_value(8, 2048) }.check_well_formed());
    assert!(!AdcMsg::PhaseFactor { value: phase_value(7, 2048) }.check_well_formed());
    assert!(!AdcMsg::PhaseFactor { value: phase_value(8, 2047) }.check_well_formed());
    assert!(AdcMsg::MasterSync.check_well_formed());
}

#[test]
fn swap_phase_factor_of_empty_input() {
    assert_eq!(swap_phase_factor(&[]), Vec::<i16>::new());
}

fn doc(msg_type: Option<&str>) -> AdcMsgFields {
    AdcMsgFields {
        msg_type: msg_type.map(String::from),
        param: None,
        fft_shift: None,
        truncation: None,
        value: None,
    }
}

#[test]
fn message_documents() {
    assert_eq!(AdcMsg::from_fields(&doc(Some("MasterSync"))), Some(AdcMsg::MasterSync));
    assert_eq!(AdcMsg::from_fields(&doc(Some("MasterRst"))), Some(AdcMsg::MasterRst));
    assert_eq!(AdcMsg::from_fields(&doc(Some("MasterTrig"))), Some(AdcMsg::MasterTrig));
    assert_eq!(AdcMsg::from_fields(&doc(Some("UploadData"))), Some(AdcMsg::UploadData));
    assert_eq!(AdcMsg::from_fields(&doc(Some("QueryState"))), Some(AdcMsg::QueryState));
    assert_eq!(AdcMsg::from_fields(&doc(Some("UploadFft"))), None);
    assert_eq!(AdcMsg::from_fields(&doc(Some("XGbeId"))), None);
    assert_eq!(AdcMsg::from_fields(&doc(None)), None);

    let mut ctrl = doc(Some("Ctrl"));
    assert_eq!(AdcMsg::from_fields(&ctrl), None);
    ctrl.param = Some("StoreData".to_string());
    assert_eq!(AdcMsg::from_fields(&ctrl), Some(AdcMsg::Ctrl(CtrlParam::StoreData)));
    ctrl.param = Some("IddrRst".to_string());
    assert_eq!(AdcMsg::from_fields(&ctrl), None);

    let mut fft = doc(Some("FftParam"));
    assert!(!fft.check_readable());
    fft.fft_shift = Some(0x1_0005);
    fft.truncation = Some(0x2_0000_0007);
    assert!(fft.check_readable());
    assert_eq!(
        AdcMsg::from_fields(&fft),
        Some(AdcMsg::FftParam { fft_shift: 5, truncation: 7 })
    );

    let mut pf = doc(Some("PhaseFactor"));
    assert_eq!(AdcMsg::from_fields(&pf), None);
    pf.value = Some(vec![vec![1, 2, 3, -4], vec![], vec![70000, -1]]);
    assert!(pf.check_readable());
    assert_eq!(
        AdcMsg::from_fields(&pf),
        Some(AdcMsg::PhaseFactor {
            value: vec![
                vec![ComplexI16 { re: 1, im: 2 }, ComplexI16 { re: 3, im: -4 }],
                vec![],
                vec![ComplexI16 { re: 70000i64 as i16, im: -1 }],
            ]
        })
    );
    pf.value = Some(vec![vec![1, 2, 3]]);
    assert!(!pf.check_readable());
}
