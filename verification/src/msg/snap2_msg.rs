use vstd::prelude::*;

use crate::utils::{
    le16, le32, le64, lemma_flatten_uniform_row, push_le16, push_le32, push_reversed, to_u8_slice,
};

verus! {

broadcast use vstd::seq_lib::group_seq_properties;

/// Switches the SNAP2 10 GbE ports on or off.
#[derive(Copy, Clone, Debug)]
pub enum XGbePortOp {
    TurnOn,
    TurnOff,
}

impl XGbePortOp {
    /// Payload of the port on/off command: a little-endian 32-bit flag.
    pub open spec fn spec_raw_data(self) -> Seq<u8> {
        match self {
            XGbePortOp::TurnOn => seq![1u8, 0u8, 0u8, 0u8],
            XGbePortOp::TurnOff => seq![0u8, 0u8, 0u8, 0u8],
        }
    }

    pub fn get_raw_data(&self) -> (r: Vec<u8>)
        ensures
            r@ == self.spec_raw_data(),
    {
        let r = match self {
            XGbePortOp::TurnOn => vec![0x01u8, 0u8, 0u8, 0u8],
            XGbePortOp::TurnOff => vec![0u8, 0u8, 0u8, 0u8],
        };
        assert(r@ =~= self.spec_raw_data());
        r
    }
}

/// Addressing of one SNAP2 10 GbE output port.
#[derive(Copy, Clone, Debug)]
pub struct XGbePortParam {
    pub src_mac: [u8; 6],
    pub src_ip: [u8; 4],
    pub src_port: u16,
    pub dst_mac: [u8; 6],
    pub dst_ip: [u8; 4],
    pub dst_port: u16,
    pub pkt_len: u32,
}

impl Default for XGbePortParam {
    fn default() -> (r: Self)
        ensures
            r.src_mac@ == seq![0u8; 6],
            r.src_ip@ == seq![0u8; 4],
            r.src_port == 0,
            r.dst_mac@ == seq![0u8; 6],
            r.dst_ip@ == seq![0u8; 4],
            r.dst_port == 0,
            r.pkt_len == 0,
    {
        let r = XGbePortParam {
            src_mac: [0u8; 6],
            src_ip: [0u8; 4],
            src_port: 0,
            dst_mac: [0u8; 6],
            dst_ip: [0u8; 4],
            dst_port: 0,
            pkt_len: 0,
        };
        assert(r.src_mac@ =~= seq![0u8; 6]);
        assert(r.src_ip@ =~= seq![0u8; 4]);
        assert(r.dst_mac@ =~= seq![0u8; 6]);
        assert(r.dst_ip@ =~= seq![0u8; 4]);
        r
    }
}

impl XGbePortParam {
    /// Wire layout of one port record: addresses byte-reversed, ports and
    /// packet length little-endian.
    pub open spec fn spec_raw_data(self) -> Seq<u8> {
        self.src_mac@.reverse() + self.src_ip@.reverse() + le16(self.src_port)
            + self.dst_mac@.reverse() + self.dst_ip@.reverse() + le16(self.dst_port) + le32(
            self.pkt_len,
        )
    }

    pub fn get_raw_data(&self) -> (r: Vec<u8>)
        ensures
            r@ == self.spec_raw_data(),
            r@.len() == 28,
    {
        let mut result = Vec::new();
        push_reversed(&mut result, self.src_mac.as_slice());
        push_reversed(&mut result, self.src_ip.as_slice());
        push_le16(&mut result, self.src_port);
        push_reversed(&mut result, self.dst_mac.as_slice());
        push_reversed(&mut result, self.dst_ip.as_slice());
        push_le16(&mut result, self.dst_port);
        push_le32(&mut result, self.pkt_len);
        result
    }
}

/// Operating parameters of the SNAP2 application.
#[derive(Copy, Clone, Debug)]
pub struct AppParam {
    pub mode_sel: u32,
    pub test_mode_streams: [u64; 8],
    pub num_of_streams_sel: u32,
    pub first_ch: u32,
    pub last_ch: u32,
}

impl AppParam {
    /// Wire layout: every field little-endian, in declaration order.
    pub open spec fn spec_raw_data(self) -> Seq<u8> {
        le32(self.mode_sel) + self.test_mode_streams@.map_values(|s: u64| le64(s)).flatten()
            + le32(self.num_of_streams_sel) + le32(self.first_ch) + le32(self.last_ch)
    }
}

/// A command for the SNAP2 board, sent as a UDP datagram.
#[derive(Copy, Clone, Debug)]
pub enum Snap2Msg {
    XGbePortParams([XGbePortParam; 9]),
    AppParam(AppParam),
    XGbePortOp(XGbePortOp),
}

/// Concatenation of the port records in order.
pub open spec fn ports_raw_data(ports: Seq<XGbePortParam>) -> Seq<u8> {
    ports.map_values(|p: XGbePortParam| p.spec_raw_data()).flatten()
}

impl Snap2Msg {
    pub open spec fn spec_msg_type_code(self) -> u8 {
        match self {
            Snap2Msg::XGbePortParams(..) => 0xf1,
            Snap2Msg::AppParam(..) => 0xf2,
            Snap2Msg::XGbePortOp(..) => 0xfb,
        }
    }

    pub fn msg_type_code(&self) -> (r: u8)
        ensures
            r == self.spec_msg_type_code(),
    {
        match self {
            Snap2Msg::XGbePortParams(..) => 0xf1,
            Snap2Msg::AppParam(..) => 0xf2,
            Snap2Msg::XGbePortOp(..) => 0xfb,
        }
    }

    /// The datagram payload: type code, a zero byte, then the body.
    pub open spec fn spec_raw_data(self) -> Seq<u8> {
        seq![self.spec_msg_type_code(), 0u8] + match self {
            Snap2Msg::XGbePortParams(x) => ports_raw_data(x@),
            Snap2Msg::AppParam(p) => p.spec_raw_data(),
            Snap2Msg::XGbePortOp(op) => op.spec_raw_data(),
        }
    }

    pub fn get_raw_data(&self) -> (r: Vec<u8>)
        ensures
            r@ == self.spec_raw_data(),
    {
        let mut result = Vec::new();
        result.push(self.msg_type_code());
        result.push(0);
        assert(result@ =~= seq![self.spec_msg_type_code(), 0u8]);
        match self {
            Snap2Msg::XGbePortParams(x) => {
                let ghost head = result@;
                let mut i: usize = 0;
                while i < 9
                    invariant
                        i <= 9,
                        x@.len() == 9,
                        result@ == head + ports_raw_data(x@.subrange(0, i as int)),
                    decreases 9 - i,
                {
                    let p = x[i];
                    let mut bytes = p.get_raw_data();
                    result.append(&mut bytes);
                    proof {
                        let f = |q: XGbePortParam| q.spec_raw_data();
                        assert(x@.subrange(0, i + 1).map_values(f) =~= x@.subrange(
                            0,
                            i as int,
                        ).map_values(f).push(f(x@[i as int])));
                        x@.subrange(0, i as int).map_values(f).lemma_flatten_push(
                            f(x@[i as int]),
                        );
                    }
                    i = i + 1;
                }
                assert(x@.subrange(0, 9) =~= x@);
            },
            Snap2Msg::AppParam(p) => {
                let ghost head = result@;
                let mut b = to_u8_slice(&p.mode_sel);
                result.append(&mut b);
                let ghost mid = result@;
                let mut k: usize = 0;
                while k < 8
                    invariant
                        k <= 8,
                        p.test_mode_streams@.len() == 8,
                        result@ == mid + p.test_mode_streams@.subrange(0, k as int).map_values(
                            |s: u64| le64(s),
                        ).flatten(),
                    decreases 8 - k,
                {
                    let s = p.test_mode_streams[k];
                    let mut b = to_u8_slice(&s);
                    result.append(&mut b);
                    proof {
                        let f = |s: u64| le64(s);
                        let t = p.test_mode_streams@;
                        assert(t.subrange(0, k + 1).map_values(f) =~= t.subrange(
                            0,
                            k as int,
                        ).map_values(f).push(f(t[k as int])));
                        t.subrange(0, k as int).map_values(f).lemma_flatten_push(f(t[k as int]));
                    }
                    k = k + 1;
                }
                assert(p.test_mode_streams@.subrange(0, 8) =~= p.test_mode_streams@);
                let mut b = to_u8_slice(&p.num_of_streams_sel);
                result.append(&mut b);
                let mut b = to_u8_slice(&p.first_ch);
                result.append(&mut b);
                let mut b = to_u8_slice(&p.last_ch);
                result.append(&mut b);
                assert(result@ =~= head + p.spec_raw_data());
            },
            Snap2Msg::XGbePortOp(op) => {
                let mut b = op.get_raw_data();
                result.append(&mut b);
            },
        }
        result
    }
}

/// Every port record is 28 bytes.
proof fn lemma_ports_raw_data_len(ports: Seq<XGbePortParam>)
    ensures
        ports_raw_data(ports).len() == 28 * ports.len(),
    decreases ports.len(),
{
    let f = |p: XGbePortParam| p.spec_raw_data();
    if ports.len() > 0 {
        lemma_ports_raw_data_len(ports.drop_last());
        assert(ports.map_values(f) =~= ports.drop_last().map_values(f).push(f(ports.last())));
        ports.drop_last().map_values(f).lemma_flatten_push(f(ports.last()));
    } else {
        assert(ports.map_values(f) =~= Seq::<Seq<u8>>::empty());
    }
}

/// Every test stream word is 8 bytes.
proof fn lemma_streams_raw_data_len(streams: Seq<u64>)
    ensures
        streams.map_values(|s: u64| le64(s)).flatten().len() == 8 * streams.len(),
    decreases streams.len(),
{
    let f = |s: u64| le64(s);
    if streams.len() > 0 {
        lemma_streams_raw_data_len(streams.drop_last());
        assert(streams.map_values(f) =~= streams.drop_last().map_values(f).push(
            f(streams.last()),
        ));
        streams.drop_last().map_values(f).lemma_flatten_push(f(streams.last()));
    } else {
        assert(streams.map_values(f) =~= Seq::<Seq<u8>>::empty());
    }
}

/// SNAP2 messages have fixed lengths: 254 bytes for the port parameters,
/// 82 for the application parameters, 6 for a port on/off command.
pub proof fn lemma_snap2_raw_data_len(msg: Snap2Msg)
    ensures
        msg.spec_raw_data().len() == match msg {
            Snap2Msg::XGbePortParams(..) => 254nat,
            Snap2Msg::AppParam(..) => 82nat,
            Snap2Msg::XGbePortOp(..) => 6nat,
        },
{
    match msg {
        Snap2Msg::XGbePortParams(x) => lemma_ports_raw_data_len(x@),
        Snap2Msg::AppParam(p) => lemma_streams_raw_data_len(p.test_mode_streams@),
        Snap2Msg::XGbePortOp(..) => {},
    }
}

/// A port record lays out, in this order: the source MAC and IP with their
/// bytes reversed, the source port least significant byte first, the
/// destination MAC and IP reversed, the destination port, and the packet
/// length least significant byte first.
pub proof fn lemma_port_record_layout(p: XGbePortParam)
    ensures
        ({
            let r = p.spec_raw_data();
            &&& r.len() == 28
            &&& forall|t: int| 0 <= t < 6 ==> #[trigger] r[t] == p.src_mac@[5 - t]
            &&& forall|t: int| 0 <= t < 4 ==> #[trigger] r[6 + t] == p.src_ip@[3 - t]
            &&& r[10] == p.src_port % 256 && r[11] == p.src_port / 256
            &&& forall|t: int| 0 <= t < 6 ==> #[trigger] r[12 + t] == p.dst_mac@[5 - t]
            &&& forall|t: int| 0 <= t < 4 ==> #[trigger] r[18 + t] == p.dst_ip@[3 - t]
            &&& r[22] == p.dst_port % 256 && r[23] == p.dst_port / 256
            &&& r[24] == p.pkt_len % 256 && r[25] == (p.pkt_len / 256) % 256
            &&& r[26] == (p.pkt_len / 65536) % 256 && r[27] == p.pkt_len / 16777216
        }),
{
}

/// The port parameter message is the type code 0xf1, a zero byte, then the
/// 28-byte records of the nine ports in port order: bytes
/// `2 + 28 k .. 30 + 28 k` are the record of port `k`.
pub proof fn lemma_port_params_in_order(x: [XGbePortParam; 9], k: int)
    requires
        0 <= k < 9,
    ensures
        Snap2Msg::XGbePortParams(x).spec_raw_data().len() == 254,
        Snap2Msg::XGbePortParams(x).spec_raw_data()[0] == 0xf1,
        Snap2Msg::XGbePortParams(x).spec_raw_data()[1] == 0,
        Snap2Msg::XGbePortParams(x).spec_raw_data().subrange(2 + 28 * k, 30 + 28 * k)
            == x@[k].spec_raw_data(),
{
    let f = |q: XGbePortParam| q.spec_raw_data();
    let rows = x@.map_values(f);
    assert forall|r: int| 0 <= r < rows.len() implies #[trigger] rows[r].len() == 28 by {
        lemma_port_record_layout(x@[r]);
    }
    lemma_flatten_uniform_row(rows, 28, k);
    let m = Snap2Msg::XGbePortParams(x).spec_raw_data();
    let body = ports_raw_data(x@);
    assert(m == seq![0xf1u8, 0u8] + body);
    assert(m.subrange(2 + 28 * k, 30 + 28 * k) =~= body.subrange(28 * k, 28 * k + 28));
}

/// The application parameter message is the type code 0xf2, a zero byte,
/// then the mode, the eight test streams in order, the number of streams and
/// the first and last channel, each least significant byte first.
pub proof fn lemma_app_param_layout(p: AppParam, k: int)
    requires
        0 <= k < 8,
    ensures
        ({
            let m = Snap2Msg::AppParam(p).spec_raw_data();
            &&& m.len() == 82
            &&& m[0] == 0xf2 && m[1] == 0
            &&& m.subrange(2, 6) == le32(p.mode_sel)
            &&& m.subrange(6 + 8 * k, 14 + 8 * k) == le64(p.test_mode_streams@[k])
            &&& m.subrange(70, 74) == le32(p.num_of_streams_sel)
            &&& m.subrange(74, 78) == le32(p.first_ch)
            &&& m.subrange(78, 82) == le32(p.last_ch)
        }),
{
    let f = |s: u64| le64(s);
    let rows = p.test_mode_streams@.map_values(f);
    lemma_flatten_uniform_row(rows, 8, k);
    let streams = rows.flatten();
    let m = Snap2Msg::AppParam(p).spec_raw_data();
    assert(m =~= seq![0xf2u8, 0u8] + le32(p.mode_sel) + streams + le32(p.num_of_streams_sel)
        + le32(p.first_ch) + le32(p.last_ch));
    assert(m.subrange(2, 6) =~= le32(p.mode_sel));
    assert(m.subrange(6 + 8 * k, 14 + 8 * k) =~= streams.subrange(8 * k, 8 * k + 8));
    assert(m.subrange(70, 74) =~= le32(p.num_of_streams_sel));
    assert(m.subrange(74, 78) =~= le32(p.first_ch));
    assert(m.subrange(78, 82) =~= le32(p.last_ch));
}

/// The port on/off command is the type code 0xfb, a zero byte, then a
/// little-endian 32-bit flag: 1 to turn the ports on, 0 to turn them off.
pub proof fn lemma_port_op_layout(op: XGbePortOp)
    ensures
        Snap2Msg::XGbePortOp(op).spec_raw_data() == seq![
            0xfbu8,
            0u8,
            if op is TurnOn {
                1u8
            } else {
                0u8
            },
            0u8,
            0u8,
            0u8,
        ],
{
    assert(Snap2Msg::XGbePortOp(op).spec_raw_data() =~= seq![
        0xfbu8,
        0u8,
        if op is TurnOn {
            1u8
        } else {
            0u8
        },
        0u8,
        0u8,
        0u8,
    ]);
}

} // verus!
