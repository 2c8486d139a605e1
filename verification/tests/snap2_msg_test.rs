use controller_rs::msg::snap2_msg::{AppParam, Snap2Msg, XGbePortOp, XGbePortParam};

fn sample_port() -> XGbePortParam {
    XGbePortParam {
        src_mac: [1, 2, 3, 4, 5, 6],
        src_ip: [192, 168, 1, 10],
        src_port: 0x1234,
        dst_mac: [0xa, 0xb, 0xc, 0xd, 0xe, 0xf],
        dst_ip: [10, 0, 0, 1],
        dst_port: 4000,
        pkt_len: 8200,
    }
}

#[test]
fn port_op_raw_data() {
    assert_eq!(XGbePortOp::TurnOn.get_raw_data(), vec![1, 0, 0, 0]);
    assert_eq!(XGbePortOp::TurnOff.get_raw_data(), vec![0, 0, 0, 0]);
}

#[test]
fn port_param_raw_data() {
    let raw = sample_port().get_raw_data();
    assert_eq!(
        raw,
        vec![
            6, 5, 4, 3, 2, 1, // src mac reversed
            10, 1, 168, 192, // src ip reversed
            0x34, 0x12, // src port
            0xf, 0xe, 0xd, 0xc, 0xb, 0xa, // dst mac reversed
            1, 0, 0, 10, // dst ip reversed
            0xa0, 0x0f, // 4000
            0x08, 0x20, 0, 0, // 8200
        ]
    );
}

#[test]
fn default_port_param_is_zero() {
    let p = XGbePortParam::default();
    assert_eq!(p.get_raw_data(), vec![0u8; 28]);
}

#[test]
fn snap2_type_codes() {
    assert_eq!(Snap2Msg::XGbePortParams([sample_port(); 9]).msg_type_code(), 0xf1);
    let app = AppParam {
        mode_sel: 0,
        test_mode_streams: [0; 8],
        num_of_streams_sel: 0,
        first_ch: 0,
        last_ch: 0,
    };
    assert_eq!(Snap2Msg::AppParam(app).msg_type_code(), 0xf2);
    assert_eq!(Snap2Msg::XGbePortOp(XGbePortOp::TurnOn).msg_type_code(), 0xfb);
}

#[test]
fn snap2_port_params_message() {
    let raw = Snap2Msg::XGbePortParams([sample_port(); 9]).get_raw_data();
    assert_eq!(raw.len(), 254);
    assert_eq!(&raw[0..2], &[0xf1, 0]);
    let one = sample_port().get_raw_data();
    for i in 0..9 {
        assert_eq!(&raw[2 + 28 * i..2 + 28 * (i + 1)], &one[..]);
    }
}

#[test]
fn snap2_app_param_message() {
    let app = AppParam {
        mode_sel: 0x01020304,
        test_mode_streams: [1, 2, 3, 4, 5, 6, 7, 0x1122334455667788],
        num_of_streams_sel: 5,
        first_ch: 100,
        last_ch: 1999,
    };
    let raw = Snap2Msg::AppParam(app).get_raw_data();
    assert_eq!(raw.len(), 82);
    assert_eq!(&raw[0..6], &[0xf2, 0, 4, 3, 2, 1]);
    assert_eq!(&raw[6..14], &[1, 0, 0, 0, 0, 0, 0, 0]);
    assert_eq!(&raw[62..70], &[0x88, 0x77, 0x66, 0x55, 0x44, 0x33, 0x22, 0x11]);
    assert_eq!(&raw[70..74], &[5, 0, 0, 0]);
    assert_eq!(&raw[74..78], &[100, 0, 0, 0]);
    assert_eq!(&raw[78..82], &[0xcf, 0x07, 0, 0]);
}

#[test]
fn snap2_port_op_message() {
    assert_eq!(
        Snap2Msg::XGbePortOp(XGbePortOp::TurnOn).get_raw_data(),
        vec![0xfb, 0, 1, 0, 0, 0]
    );
    assert_eq!(
        Snap2Msg::XGbePortOp(XGbePortOp::TurnOff).get_raw_data(),
        vec![0xfb, 0, 0, 0, 0, 0]
    );
}
