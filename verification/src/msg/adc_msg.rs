use vstd::prelude::*;

use crate::utils::{
    le16, le32, lemma_flatten_uniform, push_le16, push_le32, push_reversed, push_zeros, str_eq,
    zeros,
};

verus! {

broadcast use vstd::seq_lib::group_seq_properties;

/// Number of ADC ports (antenna inputs) on one board.
pub const PORT_PER_BOARD: usize = 8;

/// Control actions of an ADC board.
#[derive(Debug, Copy, Clone, Eq, PartialEq)]
pub enum CtrlParam {
    Synchronize,
    PreRst,
    StartFft,
    SwitchPhaseFactor,
    StoreData,
    IddrRst,
}

impl CtrlParam {
    pub open spec fn spec_param_code(self) -> u8 {
        match self {
            CtrlParam::Synchronize => 0,
            CtrlParam::PreRst => 1,
            CtrlParam::StartFft => 2,
            CtrlParam::SwitchPhaseFactor => 3,
            CtrlParam::StoreData => 4,
            CtrlParam::IddrRst => 5,
        }
    }

    /// The control action a configuration document names; `IddrRst` has
    /// no name there.
    pub open spec fn spec_from_name(name: Seq<char>) -> Option<CtrlParam> {
        if name == "Synchronize"@ {
            Some(CtrlParam::Synchronize)
        } else if name == "PreRst"@ {
            Some(CtrlParam::PreRst)
        } else if name == "StartFft"@ {
            Some(CtrlParam::StartFft)
        } else if name == "SwitchPhaseFactor"@ {
            Some(CtrlParam::SwitchPhaseFactor)
        } else if name == "StoreData"@ {
            Some(CtrlParam::StoreData)
        } else {
            None
        }
    }

    pub fn from_name(name: &str) -> (r: Option<CtrlParam>)
        ensures
            r == Self::spec_from_name(name@),
    {
        if str_eq(name, "Synchronize") {
            Some(CtrlParam::Synchronize)
        } else if str_eq(name, "PreRst") {
            Some(CtrlParam::PreRst)
        } else if str_eq(name, "StartFft") {
            Some(CtrlParam::StartFft)
        } else if str_eq(name, "SwitchPhaseFactor") {
            Some(CtrlParam::SwitchPhaseFactor)
        } else if str_eq(name, "StoreData") {
            Some(CtrlParam::StoreData)
        } else {
            None
        }
    }

    pub fn param_code(self) -> (r: u8)
        ensures
            r == self.spec_param_code(),
    {
        match self {
            CtrlParam::Synchronize => 0,
            CtrlParam::PreRst => 1,
            CtrlParam::StartFft => 2,
            CtrlParam::SwitchPhaseFactor => 3,
            CtrlParam::StoreData => 4,
            CtrlParam::IddrRst => 5,
        }
    }
}

/// Identity of the 10 GbE links of a board. Boards come in pairs: the upper
/// board of a pair only knows two MAC addresses, the lower one the full
/// addressing of both links.
#[derive(Debug, Copy, Clone, Eq, PartialEq)]
pub enum XGbeIdParam {
    Upper { mac1: [u8; 6], mac2: [u8; 6] },
    Lower {
        mac1: [u8; 6],
        mac2: [u8; 6],
        mac3: [u8; 6],
        mac4: [u8; 6],
        ip1: [u8; 4],
        ip2: [u8; 4],
        port1: u16,
        port2: u16,
    },
}

/// A complex phase factor with 16-bit integer parts.
#[derive(Debug, Copy, Clone, Eq, PartialEq)]
pub struct ComplexI16 {
    pub re: i16,
    pub im: i16,
}

/// A command for an ADC board, sent as raw Ethernet frames.
#[derive(Debug, Clone, Eq, PartialEq)]
pub enum AdcMsg {
    MasterSync,
    MasterRst,
    MasterTrig,
    Ctrl(CtrlParam),
    Cfg {
        io_delay: [u8; 4],
        packet_gap: u16,
        counter_sync: u8,
        counter_wait: u16,
        trig_out_delay: u8,
        optical_delay: u8,
    },
    UploadData,
    UploadFft,
    FftParam { fft_shift: u16, truncation: u32 },
    PhaseFactor { value: Vec<Vec<ComplexI16>> },
    XGbeId(XGbeIdParam),
    QueryState,
}

/// Bytes of one phase factor: real part, then imaginary part, each as a
/// little-endian two's complement 16-bit integer.
pub open spec fn complex_bytes(c: ComplexI16) -> Seq<u8> {
    le16(c.re as u16) + le16(c.im as u16)
}

/// Bytes of a run of phase factors, in order.
pub open spec fn phase_bytes(s: Seq<ComplexI16>) -> Seq<u8> {
    s.map_values(|c: ComplexI16| complex_bytes(c)).flatten()
}

/// Packet `n` of port `i`: the port number, the little-endian start
/// address `n * 1024`, then the 256 phase factors of channels
/// `n * 256 .. (n + 1) * 256`.
pub open spec fn phase_packet(value: Seq<Seq<ComplexI16>>, i: int, n: int) -> Seq<u8> {
    seq![i as u8] + le16((n * 1024) as u16) + phase_bytes(
        value[i].subrange(n * 256, n * 256 + 256),
    )
}

/// All phase factor packets: for each of the 8 ports, its 8 packets.
pub open spec fn phase_packets(value: Seq<Seq<ComplexI16>>) -> Seq<Seq<u8>> {
    Seq::new(8, |i: int| Seq::new(8, |n: int| phase_packet(value, i, n))).flatten()
}

/// Phase factors of a board: at least 8 ports of at least 2048 channels.
pub open spec fn phase_factor_shape_ok(value: Seq<Seq<ComplexI16>>) -> bool {
    &&& value.len() >= 8
    &&& forall|i: int| 0 <= i < 8 ==> #[trigger] value[i].len() >= 2048
}

/// The phase factors of a message as plain sequences.
pub open spec fn phase_view(value: Seq<Vec<ComplexI16>>) -> Seq<Seq<ComplexI16>> {
    value.map_values(|v: Vec<ComplexI16>| v@)
}

/// Builds packet `n` of port `i` of a phase factor upload.
fn phase_packet_bytes(value: &Vec<Vec<ComplexI16>>, i: usize, n: usize) -> (r: Vec<u8>)
    requires
        i < 8,
        n < 8,
        phase_factor_shape_ok(phase_view(value@)),
    ensures
        r@ == phase_packet(phase_view(value@), i as int, n as int),
{
    let ghost pv = phase_view(value@);
    assert(pv[i as int] == value@[i as int]@);
    assert(pv[i as int].len() >= 2048);
    let mut data: Vec<u8> = Vec::new();
    data.push(i as u8);
    push_le16(&mut data, (n * 1024) as u16);
    let ghost head = data@;
    assert(head =~= seq![i as u8] + le16((n * 1024) as u16));
    let start = n * 256;
    let end = start + 256;
    let mut j = start;
    while j < end
        invariant
            i < 8,
            value@.len() >= 8,
            start <= j <= end,
            end == start + 256,
            end <= 2048,
            value@[i as int]@.len() >= 2048,
            pv[i as int] == value@[i as int]@,
            data@ == head + phase_bytes(pv[i as int].subrange(start as int, j as int)),
        decreases end - j,
    {
        let c = value[i][j];
        push_le16(&mut data, c.re as u16);
        push_le16(&mut data, c.im as u16);
        proof {
            let f = |c: ComplexI16| complex_bytes(c);
            let s = pv[i as int];
            assert(s.subrange(start as int, j + 1).map_values(f) =~= s.subrange(
                start as int,
                j as int,
            ).map_values(f).push(f(s[j as int])));
            s.subrange(start as int, j as int).map_values(f).lemma_flatten_push(f(s[j as int]));
        }
        j = j + 1;
    }
    data
}

impl XGbeIdParam {
    pub fn get_raw_data(&self) -> (r: Vec<u8>)
        ensures
            r@ == self.spec_raw_data(),
            r@.len() == 100,
    {
        let mut result = Vec::new();
        match self {
            XGbeIdParam::Upper { mac1, mac2 } => {
                push_reversed(&mut result, mac1.as_slice());
                push_reversed(&mut result, mac2.as_slice());
                push_zeros(&mut result, 88);
            },
            XGbeIdParam::Lower { mac1, mac2, mac3, mac4, ip1, ip2, port1, port2 } => {
                push_reversed(&mut result, mac1.as_slice());
                push_reversed(&mut result, mac2.as_slice());
                push_reversed(&mut result, mac3.as_slice());
                push_reversed(&mut result, mac4.as_slice());
                push_reversed(&mut result, ip1.as_slice());
                push_reversed(&mut result, ip2.as_slice());
                push_le16(&mut result, *port1);
                push_le16(&mut result, *port2);
                push_zeros(&mut result, 64);
            },
        }
        result
    }

    /// Wire layout: addresses byte-reversed, ports little-endian, padded
    /// with zeros to 100 bytes.
    pub open spec fn spec_raw_data(self) -> Seq<u8> {
        match self {
            XGbeIdParam::Upper { mac1, mac2 } => mac1@.reverse() + mac2@.reverse() + zeros(88),
            XGbeIdParam::Lower { mac1, mac2, mac3, mac4, ip1, ip2, port1, port2 } => mac1@.reverse()
                + mac2@.reverse() + mac3@.reverse() + mac4@.reverse() + ip1@.reverse()
                + ip2@.reverse() + le16(port1) + le16(port2) + zeros(64),
        }
    }
}

impl AdcMsg {
    pub open spec fn spec_msg_type_code(&self) -> u8 {
        match *self {
            AdcMsg::MasterSync => 0xf0,
            AdcMsg::MasterRst => 0xf1,
            AdcMsg::MasterTrig => 0xf2,
            AdcMsg::Ctrl(..) => 0xf3,
            AdcMsg::Cfg { .. } => 0xf4,
            AdcMsg::UploadData => 0xf5,
            AdcMsg::UploadFft => 0xf6,
            AdcMsg::FftParam { .. } => 0xf8,
            AdcMsg::PhaseFactor { .. } => 0xf9,
            AdcMsg::QueryState => 0xfa,
            AdcMsg::XGbeId(..) => 0xfb,
        }
    }

    pub fn msg_type_code(&self) -> (r: u8)
        ensures
            r == self.spec_msg_type_code(),
    {
        match *self {
            AdcMsg::MasterSync => 0xf0,
            AdcMsg::MasterRst => 0xf1,
            AdcMsg::MasterTrig => 0xf2,
            AdcMsg::Ctrl(..) => 0xf3,
            AdcMsg::Cfg { .. } => 0xf4,
            AdcMsg::UploadData => 0xf5,
            AdcMsg::UploadFft => 0xf6,
            AdcMsg::FftParam { .. } => 0xf8,
            AdcMsg::PhaseFactor { .. } => 0xf9,
            AdcMsg::QueryState => 0xfa,
            AdcMsg::XGbeId(..) => 0xfb,
        }
    }

    /// What `get_raw_data` needs: a phase factor message carries 8 ports of
    /// at least 2048 channels each.
    pub open spec fn spec_well_formed(&self) -> bool {
        match *self {
            AdcMsg::PhaseFactor { ref value } => phase_factor_shape_ok(phase_view(value@)),
            _ => true,
        }
    }

    /// The payloads of the message, one per packet to send.
    pub open spec fn spec_raw_data(&self) -> Seq<Seq<u8>> {
        match *self {
            AdcMsg::Ctrl(p) => seq![seq![p.spec_param_code()]],
            AdcMsg::Cfg {
                io_delay,
                packet_gap,
                counter_sync,
                counter_wait,
                trig_out_delay,
                optical_delay,
            } => seq![
                io_delay@ + le16(packet_gap) + seq![counter_sync] + le16(counter_wait) + seq![
                    trig_out_delay,
                    optical_delay,
                ] + zeros(89),
            ],
            AdcMsg::FftParam { fft_shift, truncation } => seq![
                le16(fft_shift) + le32(truncation) + zeros(94),
            ],
            AdcMsg::PhaseFactor { ref value } => phase_packets(phase_view(value@)),
            AdcMsg::XGbeId(p) => seq![p.spec_raw_data()],
            AdcMsg::MasterRst => seq![Seq::new(10, |i: int| 1u8)],
            AdcMsg::MasterTrig => seq![Seq::new(10, |i: int| 1u8)],
            AdcMsg::MasterSync => seq![Seq::new(10, |i: int| 1u8)],
            _ => seq![Seq::<u8>::empty()],
        }
    }

    pub fn get_raw_data(&self) -> (r: Vec<Vec<u8>>)
        requires
            self.spec_well_formed(),
        ensures
            r@.map_values(|p: Vec<u8>| p@) == self.spec_raw_data(),
    {
        let r = match self {
            AdcMsg::Ctrl(p) => {
                let mut packet = Vec::new();
                packet.push(p.param_code());
                vec![packet]
            },
            AdcMsg::Cfg {
                io_delay,
                packet_gap,
                counter_sync,
                counter_wait,
                trig_out_delay,
                optical_delay,
            } => {
                let mut result = Vec::new();
                result.extend_from_slice(io_delay.as_slice());
                assert(result@ =~= io_delay@);
                push_le16(&mut result, *packet_gap);
                result.push(*counter_sync);
                push_le16(&mut result, *counter_wait);
                result.push(*trig_out_delay);
                result.push(*optical_delay);
                push_zeros(&mut result, 89);
                vec![result]
            },
            AdcMsg::FftParam { fft_shift, truncation } => {
                let mut result = Vec::new();
                push_le16(&mut result, *fft_shift);
                push_le32(&mut result, *truncation);
                push_zeros(&mut result, 94);
                vec![result]
            },
            AdcMsg::PhaseFactor { value } => {
                let ghost pv = phase_view(value@);
                let ghost rows = Seq::new(
                    8,
                    |i: int| Seq::new(8, |n: int| phase_packet(pv, i, n)),
                );
                let mut result: Vec<Vec<u8>> = Vec::new();
                let mut i: usize = 0;
                while i < PORT_PER_BOARD
                    invariant
                        i <= 8,
                        phase_factor_shape_ok(pv),
                        pv == phase_view(value@),
                        rows == Seq::new(8, |i: int| Seq::new(8, |n: int| phase_packet(pv, i, n))),
                        result@.map_values(|p: Vec<u8>| p@) == rows.subrange(0, i as int).flatten(),
                    decreases 8 - i,
                {
                    let ghost before = result@.map_values(|p: Vec<u8>| p@);
                    let mut n: usize = 0;
                    while n < 8
                        invariant
                            i < 8,
                            n <= 8,
                            phase_factor_shape_ok(pv),
                            pv == phase_view(value@),
                            result@.map_values(|p: Vec<u8>| p@) == before + Seq::new(
                                n as nat,
                                |m: int| phase_packet(pv, i as int, m),
                            ),
                        decreases 8 - n,
                    {
                        let data = phase_packet_bytes(value, i, n);
                        let ghost old_result = result@;
                        result.push(data);
                        assert(result@.map_values(|p: Vec<u8>| p@) =~= old_result.map_values(
                            |p: Vec<u8>| p@,
                        ).push(data@));
                        assert(result@.map_values(|p: Vec<u8>| p@) =~= before + Seq::new(
                            (n + 1) as nat,
                            |m: int| phase_packet(pv, i as int, m),
                        ));
                        n = n + 1;
                    }
                    proof {
                        assert(rows.subrange(0, i + 1) =~= rows.subrange(0, i as int).push(
                            rows[i as int],
                        ));
                        rows.subrange(0, i as int).lemma_flatten_push(rows[i as int]);
                        assert(rows[i as int] =~= Seq::new(
                            8,
                            |m: int| phase_packet(pv, i as int, m),
                        ));
                    }
                    i = i + 1;
                }
                assert(rows.subrange(0, 8) =~= rows);
                result
            },
            AdcMsg::XGbeId(p) => {
                let packet = p.get_raw_data();
                vec![packet]
            },
            AdcMsg::MasterRst => vec![vec![0x01u8; 10]],
            AdcMsg::MasterTrig => vec![vec![0x01u8; 10]],
            AdcMsg::MasterSync => vec![vec![0x01u8; 10]],
            _ => vec![Vec::new()],
        };
        proof {
            let f = |p: Vec<u8>| p@;
            match *self {
                AdcMsg::PhaseFactor { .. } => {},
                _ => {
                    assert(r@.len() == 1);
                    assert(r@.map_values(f) =~= seq![f(r@[0])]);
                },
            }
            match *self {
                AdcMsg::MasterRst | AdcMsg::MasterTrig | AdcMsg::MasterSync => {
                    assert(r@[0]@ =~= Seq::new(10, |i: int| 1u8));
                },
                AdcMsg::Ctrl(p) => {
                    assert(r@[0]@ =~= seq![p.spec_param_code()]);
                },
                AdcMsg::Cfg { .. } | AdcMsg::FftParam { .. } => {
                    assert(r@[0]@ =~= self.spec_raw_data()[0]);
                },
                _ => {},
            }
        }
        r
    }
}

impl AdcMsg {
    /// Checks what `get_raw_data` needs of a phase factor message.
    pub fn check_well_formed(&self) -> (r: bool)
        ensures
            r == self.spec_well_formed(),
    {
        match self {
            AdcMsg::PhaseFactor { value } => {
                let ghost pv = phase_view(value@);
                if value.len() < PORT_PER_BOARD {
                    return false;
                }
                let mut i: usize = 0;
                while i < PORT_PER_BOARD
                    invariant
                        i <= 8,
                        value@.len() >= 8,
                        pv == phase_view(value@),
                        self.spec_well_formed() == phase_factor_shape_ok(pv),
                        forall|j: int| 0 <= j < i ==> #[trigger] pv[j].len() >= 2048,
                    decreases 8 - i,
                {
                    if value[i].len() < 2048 {
                        assert(pv[i as int].len() < 2048);
                        return false;
                    }
                    i = i + 1;
                }
                true
            },
            _ => true,
        }
    }
}

/// The eight phase factor bytes of a run are four per value.
proof fn lemma_phase_bytes_len(s: Seq<ComplexI16>)
    ensures
        phase_bytes(s).len() == 4 * s.len(),
    decreases s.len(),
{
    let f = |c: ComplexI16| complex_bytes(c);
    if s.len() > 0 {
        lemma_phase_bytes_len(s.drop_last());
        assert(s.map_values(f) =~= s.drop_last().map_values(f).push(f(s.last())));
        s.drop_last().map_values(f).lemma_flatten_push(f(s.last()));
    } else {
        assert(s.map_values(f) =~= Seq::<Seq<u8>>::empty());
    }
}

/// Every configuration message (`Cfg`, `FftParam`, `XGbeId`) is a single
/// packet of exactly 100 bytes, and a phase factor upload is 64 packets of
/// 1027 bytes, packet `8 * i + n` being packet `n` of port `i`.
pub proof fn lemma_adc_raw_data_len(msg: AdcMsg)
    requires
        msg.spec_well_formed(),
    ensures
        (msg is Cfg || msg is FftParam || msg is XGbeId) ==> msg.spec_raw_data().len() == 1
            && msg.spec_raw_data()[0].len() == 100,
        msg matches AdcMsg::PhaseFactor { value } ==> {
            &&& msg.spec_raw_data().len() == 64
            &&& forall|i: int, n: int|
                0 <= i < 8 && 0 <= n < 8 ==> {
                    &&& #[trigger] msg.spec_raw_data()[8 * i + n] == phase_packet(
                        phase_view(value@),
                        i,
                        n,
                    )
                    &&& msg.spec_raw_data()[8 * i + n].len() == 1027
                }
        },
{
    match msg {
        AdcMsg::PhaseFactor { value } => {
            let pv = phase_view(value@);
            let rows = Seq::new(8, |i: int| Seq::new(8, |n: int| phase_packet(pv, i, n)));
            assert forall|i: int, n: int| 0 <= i < 8 && 0 <= n < 8 implies {
                &&& #[trigger] msg.spec_raw_data()[8 * i + n] == phase_packet(pv, i, n)
                &&& msg.spec_raw_data()[8 * i + n].len() == 1027
            } by {
                lemma_flatten_uniform(rows, 8, i, n);
                assert(pv[i].len() >= 2048);
                lemma_phase_bytes_len(pv[i].subrange(n * 256, n * 256 + 256));
            }
            lemma_flatten_uniform(rows, 8, 0, 0);
        },
        _ => {},
    }
}

/// The bytes of two runs one after the other are the bytes of each run.
proof fn lemma_phase_bytes_concat(a: Seq<ComplexI16>, b: Seq<ComplexI16>)
    ensures
        phase_bytes(a + b) == phase_bytes(a) + phase_bytes(b),
{
    let f = |c: ComplexI16| complex_bytes(c);
    assert((a + b).map_values(f) =~= a.map_values(f) + b.map_values(f));
    vstd::seq_lib::lemma_flatten_concat(a.map_values(f), b.map_values(f));
}

/// The first `m` packets of port `i` carry its first `256 * m` phase
/// factors, in order.
proof fn lemma_phase_packets_prefix(value: Seq<Seq<ComplexI16>>, i: int, m: int)
    requires
        phase_factor_shape_ok(value),
        0 <= i < 8,
        0 <= m <= 8,
    ensures
        Seq::new(m as nat, |n: int| phase_packet(value, i, n).skip(3)).flatten() == phase_bytes(
            value[i].take(256 * m),
        ),
    decreases m,
{
    let s = Seq::new(m as nat, |n: int| phase_packet(value, i, n).skip(3));
    if m == 0 {
        assert(s =~= Seq::<Seq<u8>>::empty());
        assert(value[i].take(0) =~= Seq::<ComplexI16>::empty());
        assert(phase_bytes(value[i].take(0)) =~= Seq::<u8>::empty());
    } else {
        lemma_phase_packets_prefix(value, i, m - 1);
        let prev = Seq::new((m - 1) as nat, |n: int| phase_packet(value, i, n).skip(3));
        assert(s =~= prev.push(phase_packet(value, i, m - 1).skip(3)));
        prev.lemma_flatten_push(phase_packet(value, i, m - 1).skip(3));
        let run = value[i].subrange(256 * (m - 1), 256 * (m - 1) + 256);
        assert(phase_packet(value, i, m - 1).skip(3) =~= phase_bytes(run));
        assert(value[i].take(256 * m) =~= value[i].take(256 * (m - 1)) + run);
        lemma_phase_bytes_concat(value[i].take(256 * (m - 1)), run);
    }
}

/// A phase factor upload carries every port completely and in order: the
/// eight packets of port `i` start with the port number and the
/// little-endian byte addresses `0, 1024, .., 7168`, and their data,
/// concatenated, are the port's 2048 phase factors.
pub proof fn lemma_phase_packets_cover_port(value: Seq<Seq<ComplexI16>>, i: int)
    requires
        phase_factor_shape_ok(value),
        0 <= i < 8,
    ensures
        forall|n: int|
            0 <= n < 8 ==> (#[trigger] phase_packet(value, i, n)).take(3) == seq![i as u8] + le16(
                (n * 1024) as u16,
            ),
        Seq::new(8, |n: int| phase_packet(value, i, n).skip(3)).flatten() == phase_bytes(
            value[i].take(2048),
        ),
{
    lemma_phase_packets_prefix(value, i, 8);
    assert forall|n: int| 0 <= n < 8 implies (#[trigger] phase_packet(value, i, n)).take(3)
        == seq![i as u8] + le16((n * 1024) as u16) by {
        assert(phase_packet(value, i, n).take(3) =~= seq![i as u8] + le16((n * 1024) as u16));
    }
}

/// The fields of a message document, as read from it.
#[derive(Debug, Clone)]
pub struct AdcMsgFields {
    pub msg_type: Option<String>,
    pub param: Option<String>,
    pub fft_shift: Option<u64>,
    pub truncation: Option<u64>,
    pub value: Option<Vec<Vec<i64>>>,
}

/// A row of interleaved real and imaginary parts, read as phase factors.
pub open spec fn pairs(row: Seq<i64>) -> Seq<ComplexI16> {
    Seq::new(
        row.len() / 2,
        |k: int| ComplexI16 { re: row[2 * k] as i16, im: row[2 * k + 1] as i16 },
    )
}

fn pairs_of(row: &Vec<i64>) -> (r: Vec<ComplexI16>)
    requires
        row@.len() % 2 == 0,
    ensures
        r@ == pairs(row@),
{
    let mut r: Vec<ComplexI16> = Vec::new();
    let mut k: usize = 0;
    while k < row.len() / 2
        invariant
            row@.len() % 2 == 0,
            k <= row@.len() / 2,
            r@ == pairs(row@).take(k as int),
        decreases row@.len() / 2 - k,
    {
        r.push(ComplexI16 { re: row[2 * k] as i16, im: row[2 * k + 1] as i16 });
        k = k + 1;
        assert(r@ =~= pairs(row@).take(k as int));
    }
    assert(pairs(row@).take(k as int) =~= pairs(row@));
    r
}

impl AdcMsgFields {
    /// What reading the document needs: an `FftParam` document has both
    /// parameters, and a `PhaseFactor` document has rows of complete pairs.
    pub open spec fn readable(&self) -> bool {
        match self.msg_type {
            Some(t) => {
                &&& t@ == "FftParam"@ ==> self.fft_shift is Some && self.truncation is Some
                &&& t@ == "PhaseFactor"@ ==> (self.value matches Some(vv) ==> forall|i: int|
                    0 <= i < vv@.len() ==> #[trigger] vv@[i]@.len() % 2 == 0)
            },
            None => true,
        }
    }

    pub fn check_readable(&self) -> (r: bool)
        ensures
            r == self.readable(),
    {
        let t = match &self.msg_type {
            Some(t) => t.as_str(),
            None => return true,
        };
        proof {
            reveal_strlit("FftParam");
            reveal_strlit("PhaseFactor");
            assert("FftParam"@.len() != "PhaseFactor"@.len());
        }
        if str_eq(t, "FftParam") {
            return self.fft_shift.is_some() && self.truncation.is_some();
        }
        if str_eq(t, "PhaseFactor") {
            if let Some(vv) = &self.value {
                let mut i: usize = 0;
                let mut even = true;
                while i < vv.len()
                    invariant
                        i <= vv@.len(),
                        even == forall|j: int| 0 <= j < i ==> #[trigger] vv@[j]@.len() % 2 == 0,
                    decreases vv@.len() - i,
                {
                    if vv[i].len() % 2 != 0 {
                        even = false;
                    }
                    i = i + 1;
                }
                return even;
            }
        }
        true
    }

    /// The message a document describes, by its `MsgType`: the messages
    /// without parameters by name, `Ctrl` with a named control action,
    /// `FftParam` with its two parameters truncated to 16 and 32 bits, and
    /// `PhaseFactor` with its rows read as pairs. Any other document, and a
    /// `Ctrl` or `PhaseFactor` document missing its data, describes none.
    pub open spec fn describes(&self, r: Option<AdcMsg>) -> bool {
        match self.msg_type {
            None => r is None,
            Some(t) => if t@ == "MasterSync"@ {
                r == Some(AdcMsg::MasterSync)
            } else if t@ == "MasterRst"@ {
                r == Some(AdcMsg::MasterRst)
            } else if t@ == "MasterTrig"@ {
                r == Some(AdcMsg::MasterTrig)
            } else if t@ == "Ctrl"@ {
                match self.param {
                    Some(p) => match CtrlParam::spec_from_name(p@) {
                        Some(c) => r == Some(AdcMsg::Ctrl(c)),
                        None => r is None,
                    },
                    None => r is None,
                }
            } else if t@ == "UploadData"@ {
                r == Some(AdcMsg::UploadData)
            } else if t@ == "FftParam"@ {
                r == Some(
                    AdcMsg::FftParam {
                        fft_shift: self.fft_shift->0 as u16,
                        truncation: self.truncation->0 as u32,
                    },
                )
            } else if t@ == "PhaseFactor"@ {
                match self.value {
                    Some(vv) => r matches Some(AdcMsg::PhaseFactor { value }) && phase_view(value@)
                        == vv@.map_values(|row: Vec<i64>| pairs(row@)),
                    None => r is None,
                }
            } else if t@ == "QueryState"@ {
                r == Some(AdcMsg::QueryState)
            } else {
                r is None
            },
        }
    }
}

impl AdcMsg {
    /// Reads the message a message document describes.
    pub fn from_fields(f: &AdcMsgFields) -> (r: Option<AdcMsg>)
        requires
            f.readable(),
        ensures
            f.describes(r),
    {
        let t = match &f.msg_type {
            Some(t) => t.as_str(),
            None => return None,
        };
        if str_eq(t, "MasterSync") {
            Some(AdcMsg::MasterSync)
        } else if str_eq(t, "MasterRst") {
            Some(AdcMsg::MasterRst)
        } else if str_eq(t, "MasterTrig") {
            Some(AdcMsg::MasterTrig)
        } else if str_eq(t, "Ctrl") {
            match &f.param {
                Some(p) => match CtrlParam::from_name(p.as_str()) {
                    Some(c) => Some(AdcMsg::Ctrl(c)),
                    None => None,
                },
                None => None,
            }
        } else if str_eq(t, "UploadData") {
            Some(AdcMsg::UploadData)
        } else if str_eq(t, "FftParam") {
            let fft_shift = match f.fft_shift {
                Some(v) => v as u16,
                None => 0,
            };
            let truncation = match f.truncation {
                Some(v) => v as u32,
                None => 0,
            };
            Some(AdcMsg::FftParam { fft_shift, truncation })
        } else if str_eq(t, "PhaseFactor") {
            match &f.value {
                Some(vv) => {
                    let mut value: Vec<Vec<ComplexI16>> = Vec::new();
                    let mut i: usize = 0;
                    while i < vv.len()
                        invariant
                            i <= vv@.len(),
                            forall|j: int| 0 <= j < vv@.len() ==> #[trigger] vv@[j]@.len() % 2 == 0,
                            phase_view(value@) == vv@.take(i as int).map_values(
                                |row: Vec<i64>| pairs(row@),
                            ),
                        decreases vv@.len() - i,
                    {
                        let row = pairs_of(&vv[i]);
                        let ghost old_value = value@;
                        value.push(row);
                        assert(phase_view(value@) =~= phase_view(old_value).push(
                            pairs(vv@[i as int]@),
                        ));
                        assert(vv@.take(i + 1).map_values(|row: Vec<i64>| pairs(row@))
                            =~= vv@.take(i as int).map_values(|row: Vec<i64>| pairs(row@)).push(
                            pairs(vv@[i as int]@),
                        ));
                        i = i + 1;
                        assert(phase_view(value@) =~= vv@.take(i as int).map_values(
                            |row: Vec<i64>| pairs(row@),
                        ));
                    }
                    assert(vv@.take(i as int) =~= vv@);
                    Some(AdcMsg::PhaseFactor { value })
                },
                None => None,
            }
        } else if str_eq(t, "QueryState") {
            Some(AdcMsg::QueryState)
        } else {
            None
        }
    }
}

/// Every phase factor is four bytes.
proof fn lemma_complex_bytes_len(c: ComplexI16)
    ensures
        complex_bytes(c).len() == 4,
{
}

/// In a phase factor upload, bytes `3 + 4 j .. 7 + 4 j` of packet `8 i + n`
/// hold the factor of port `i`, channel `256 n + j`: its real part, then its
/// imaginary part, each as a two's complement 16-bit integer, least
/// significant byte first. There are 64 packets of 1027 bytes, and packet
/// `8 i + n` begins with the port number `i` and the little-endian address
/// `n * 1024`.
pub proof fn lemma_phase_factor_bytes(msg: AdcMsg, i: int, n: int, j: int)
    requires
        msg.spec_well_formed(),
        msg is PhaseFactor,
        0 <= i < 8,
        0 <= n < 8,
        0 <= j < 256,
    ensures
        msg matches AdcMsg::PhaseFactor { value } ==> {
            let c = value@[i]@[256 * n + j];
            let p = msg.spec_raw_data()[8 * i + n];
            &&& msg.spec_raw_data().len() == 64
            &&& p.len() == 1027
            &&& p[0] == i
            &&& p[1] == 0
            &&& p[2] == 4 * n
            &&& p[3 + 4 * j] == ((c.re as u16) % 256) as u8
            &&& p[4 + 4 * j] == ((c.re as u16) / 256) as u8
            &&& p[5 + 4 * j] == ((c.im as u16) % 256) as u8
            &&& p[6 + 4 * j] == ((c.im as u16) / 256) as u8
        },
{
    match msg {
        AdcMsg::PhaseFactor { value } => {
            lemma_adc_raw_data_len(msg);
            let pv = phase_view(value@);
            assert(pv[i].len() >= 2048);
            let run = pv[i].subrange(n * 256, n * 256 + 256);
            let f = |c: ComplexI16| complex_bytes(c);
            let rows = run.map_values(f);
            assert forall|r: int| 0 <= r < rows.len() implies #[trigger] rows[r].len() == 4 by {
                lemma_complex_bytes_len(run[r]);
            }
            let p = msg.spec_raw_data()[8 * i + n];
            assert(p == phase_packet(pv, i, n));
            assert(p == seq![i as u8] + le16((n * 1024) as u16) + rows.flatten());
            let flat = rows.flatten();
            let hdr = seq![i as u8] + le16((n * 1024) as u16);
            assert(hdr.len() == 3);
            lemma_flatten_uniform(rows, 4, j, 0);
            lemma_flatten_uniform(rows, 4, j, 1);
            lemma_flatten_uniform(rows, 4, j, 2);
            lemma_flatten_uniform(rows, 4, j, 3);
            assert(p =~= hdr + flat);
            assert(((n * 1024) as u16) % 256 == 0 && ((n * 1024) as u16) / 256 == 4 * n);
            assert(p[3 + 4 * j] == flat[4 * j]);
            assert(p[4 + 4 * j] == flat[4 * j + 1]);
            assert(p[5 + 4 * j] == flat[4 * j + 2]);
            assert(p[6 + 4 * j] == flat[4 * j + 3]);
            assert(run[j] == value@[i]@[256 * n + j]);
        },
        _ => {},
    }
}

/// The configuration messages, byte by byte. `Cfg`: the four input
/// delays, the packet gap (low byte first), the sync counter, the wait
/// counter (low byte first), the trigger output delay and the optical
/// delay, then zeros to 100 bytes. `FftParam`: the FFT shift and the
/// truncation, least significant byte first, then zeros to 100 bytes. A
/// control message is the single byte of its action's code, and the master
/// commands are ten bytes of 1.
pub proof fn lemma_adc_config_layout(msg: AdcMsg)
    ensures
        msg matches AdcMsg::Cfg {
            io_delay,
            packet_gap,
            counter_sync,
            counter_wait,
            trig_out_delay,
            optical_delay,
        } ==> {
            let p = msg.spec_raw_data()[0];
            &&& msg.spec_raw_data().len() == 1
            &&& p.len() == 100
            &&& forall|t: int| 0 <= t < 4 ==> #[trigger] p[t] == io_delay@[t]
            &&& p[4] == packet_gap % 256 && p[5] == packet_gap / 256
            &&& p[6] == counter_sync
            &&& p[7] == counter_wait % 256 && p[8] == counter_wait / 256
            &&& p[9] == trig_out_delay && p[10] == optical_delay
            &&& forall|t: int| 11 <= t < 100 ==> #[trigger] p[t] == 0
        },
        msg matches AdcMsg::FftParam { fft_shift, truncation } ==> {
            let p = msg.spec_raw_data()[0];
            &&& msg.spec_raw_data().len() == 1
            &&& p.len() == 100
            &&& p[0] == fft_shift % 256 && p[1] == fft_shift / 256
            &&& p[2] == truncation % 256 && p[3] == (truncation / 256) % 256
            &&& p[4] == (truncation / 65536) % 256 && p[5] == truncation / 16777216
            &&& forall|t: int| 6 <= t < 100 ==> #[trigger] p[t] == 0
        },
        msg matches AdcMsg::Ctrl(c) ==> msg.spec_raw_data() == seq![seq![c.spec_param_code()]],
        (msg is MasterSync || msg is MasterRst || msg is MasterTrig) ==> {
            &&& msg.spec_raw_data().len() == 1
            &&& msg.spec_raw_data()[0].len() == 10
            &&& forall|t: int| 0 <= t < 10 ==> #[trigger] msg.spec_raw_data()[0][t] == 1
        },
        (msg is UploadData || msg is UploadFft || msg is QueryState) ==> msg.spec_raw_data()
            == seq![Seq::<u8>::empty()],
{
}

/// The link identity message, byte by byte: each MAC and IP address with
/// its bytes reversed, in the order mac1, mac2 (upper board) or mac1, mac2,
/// mac3, mac4, ip1, ip2, then port1 and port2 least significant byte first
/// (lower board), then zeros to 100 bytes.
pub proof fn lemma_xgbeid_layout(p: XGbeIdParam)
    ensures
        ({
            let r = p.spec_raw_data();
            &&& r.len() == 100
            &&& p matches XGbeIdParam::Upper { mac1, mac2 } ==> {
                &&& forall|t: int| 0 <= t < 6 ==> #[trigger] r[t] == mac1@[5 - t]
                &&& forall|t: int| 0 <= t < 6 ==> #[trigger] r[6 + t] == mac2@[5 - t]
                &&& forall|t: int| 12 <= t < 100 ==> #[trigger] r[t] == 0
            }
            &&& p matches XGbeIdParam::Lower { mac1, mac2, mac3, mac4, ip1, ip2, port1, port2 } ==> {
                &&& forall|t: int| 0 <= t < 6 ==> #[trigger] r[t] == mac1@[5 - t]
                &&& forall|t: int| 0 <= t < 6 ==> #[trigger] r[6 + t] == mac2@[5 - t]
                &&& forall|t: int| 0 <= t < 6 ==> #[trigger] r[12 + t] == mac3@[5 - t]
                &&& forall|t: int| 0 <= t < 6 ==> #[trigger] r[18 + t] == mac4@[5 - t]
                &&& forall|t: int| 0 <= t < 4 ==> #[trigger] r[24 + t] == ip1@[3 - t]
                &&& forall|t: int| 0 <= t < 4 ==> #[trigger] r[28 + t] == ip2@[3 - t]
                &&& r[32] == port1 % 256 && r[33] == port1 / 256
                &&& r[34] == port2 % 256 && r[35] == port2 / 256
                &&& forall|t: int| 36 <= t < 100 ==> #[trigger] r[t] == 0
            }
        }),
{
}

/// Distinct control actions have distinct codes, and distinct kinds of ADC
/// message have distinct type codes.
pub proof fn lemma_codes_distinct(a: CtrlParam, b: CtrlParam, m: AdcMsg, n: AdcMsg)
    ensures
        a != b ==> a.spec_param_code() != b.spec_param_code(),
        a.spec_param_code() <= 5,
        m.spec_msg_type_code() == n.spec_msg_type_code() ==> {
            &&& m is MasterSync <==> n is MasterSync
            &&& m is MasterRst <==> n is MasterRst
            &&& m is MasterTrig <==> n is MasterTrig
            &&& m is Ctrl <==> n is Ctrl
            &&& m is Cfg <==> n is Cfg
            &&& m is UploadData <==> n is UploadData
            &&& m is UploadFft <==> n is UploadFft
            &&& m is FftParam <==> n is FftParam
            &&& m is PhaseFactor <==> n is PhaseFactor
            &&& m is XGbeId <==> n is XGbeId
            &&& m is QueryState <==> n is QueryState
        },
{
}

} // verus!
