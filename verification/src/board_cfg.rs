use vstd::prelude::*;

use crate::msg::adc_msg::{AdcMsg, ComplexI16, CtrlParam, XGbeIdParam};
use crate::msg::snap2_msg::{lemma_snap2_raw_data_len, AppParam, Snap2Msg, XGbePortParam};
use crate::net::{etherparse_udp_frame, udp_buffer_frame, udp_frame_fields, UDP_TTL};

verus! {

/// Number of ADC boards.
pub const BOARD_NUM: usize = 16;

/// Number of ADC chips per board.
pub const ADC_PER_BOARD: usize = 4;

/// Number of 10 GbE output ports of the SNAP2 board.
pub const SNAP_PORT_NUM: usize = 9;

/// Number of frequency channels.
pub const NUM_CH: usize = 2048;

/// `n` bytes taken from the low bytes of `s`, zero where `s` is shorter.
pub open spec fn bytes_of(s: Seq<u64>, n: nat) -> Seq<u8> {
    Seq::new(n, |i: int| if i < s.len() { s[i] as u8 } else { 0u8 })
}

/// `n` values taken from `s`, zero where `s` is shorter.
pub open spec fn words_of(s: Seq<u64>, n: nat) -> Seq<u64> {
    Seq::new(n, |i: int| if i < s.len() { s[i] } else { 0u64 })
}

fn u8_array<const N: usize>(v: &Vec<u64>) -> (r: [u8; N])
    requires
        v@.len() <= N,
    ensures
        r@ == bytes_of(v@, N as nat),
{
    let mut a = [0u8; N];
    let mut i: usize = 0;
    while i < v.len()
        invariant
            v@.len() <= N,
            i <= v@.len(),
            a@.len() == N,
            forall|j: int| 0 <= j < N ==> #[trigger] a@[j] == if j < i { v@[j] as u8 } else { 0u8 },
        decreases v@.len() - i,
    {
        a[i] = v[i] as u8;
        i = i + 1;
    }
    assert(a@ =~= bytes_of(v@, N as nat));
    a
}

fn u64_array<const N: usize>(v: &Vec<u64>) -> (r: [u64; N])
    requires
        v@.len() <= N,
    ensures
        r@ == words_of(v@, N as nat),
{
    let mut a = [0u64; N];
    let mut i: usize = 0;
    while i < v.len()
        invariant
            v@.len() <= N,
            i <= v@.len(),
            a@.len() == N,
            forall|j: int| 0 <= j < N ==> #[trigger] a@[j] == if j < i { v@[j] } else { 0u64 },
        decreases v@.len() - i,
    {
        a[i] = v[i];
        i = i + 1;
    }
    assert(a@ =~= words_of(v@, N as nat));
    a
}

/// The values of one `xgbeid` entry of the configuration, as read from it.
/// Only the odd (lower board) entries need the optional fields.
#[derive(Debug, Clone)]
pub struct XGbeIdFields {
    pub mac1: Vec<u64>,
    pub mac2: Vec<u64>,
    pub mac3: Option<Vec<u64>>,
    pub mac4: Option<Vec<u64>>,
    pub ip1: Option<Vec<u64>>,
    pub ip2: Option<Vec<u64>>,
    pub port1: Option<u64>,
    pub port2: Option<u64>,
}

/// The values of one `snap2.xgbeparam` entry of the configuration.
#[derive(Debug, Clone)]
pub struct PortParamFields {
    pub src_mac: Vec<u64>,
    pub src_ip: Vec<u64>,
    pub src_port: u64,
    pub dst_mac: Vec<u64>,
    pub dst_ip: Vec<u64>,
    pub dst_port: u64,
}

/// The values of a board configuration document, as read from it.
#[derive(Debug, Clone)]
pub struct BoardCfgFields {
    pub ch_beg: u64,
    pub ch_end: u64,
    pub packet_gap: u64,
    pub counter_wait: u64,
    pub counter_sync: u64,
    pub trig_out_delay: u64,
    pub optical_delay: u64,
    pub fft_shift: u64,
    pub truncation: u64,
    pub master_board_id: u64,
    pub mac: Vec<Vec<u64>>,
    pub xgbeid: Vec<XGbeIdFields>,
    pub io_delay: Vec<Vec<u64>>,
    pub snap_mac: Vec<u64>,
    pub snap_ip: Vec<u64>,
    pub ctrl_src_port: u64,
    pub ctrl_dst_port: u64,
    pub xgbeparam: Vec<PortParamFields>,
    pub mode_sel: u64,
    pub test_mode_streams: Vec<u64>,
    pub num_of_streams_sel: u64,
    pub src_mac: Vec<u64>,
    pub src_ip: Vec<u64>,
}

/// The channel range is even-aligned, non-empty and within the 2048
/// channels.
pub open spec fn channel_range_ok(ch_beg: usize, ch_end: usize) -> bool {
    &&& ch_beg % 2 == 0
    &&& ch_beg < ch_end
    &&& ch_end % 2 == 0
    &&& ch_end <= NUM_CH
}

/// Checks the channel range of a configuration.
pub fn check_channel_range(ch_beg: usize, ch_end: usize) -> (r: bool)
    ensures
        r == channel_range_ok(ch_beg, ch_end),
{
    ch_beg % 2 == 0 && ch_beg < ch_end && ch_end % 2 == 0 && ch_end <= NUM_CH
}

impl XGbeIdFields {
    /// The entry fits its arrays; an entry for a lower board (odd index)
    /// has every field.
    pub open spec fn fits(&self, lower: bool) -> bool {
        &&& self.mac1@.len() <= 6
        &&& self.mac2@.len() <= 6
        &&& lower ==> {
            &&& self.mac3 matches Some(m) && m@.len() <= 6
            &&& self.mac4 matches Some(m) && m@.len() <= 6
            &&& self.ip1 matches Some(m) && m@.len() <= 4
            &&& self.ip2 matches Some(m) && m@.len() <= 4
            &&& self.port1 is Some
            &&& self.port2 is Some
        }
    }

    pub fn check_fits(&self, lower: bool) -> (r: bool)
        ensures
            r == self.fits(lower),
    {
        if self.mac1.len() > 6 || self.mac2.len() > 6 {
            return false;
        }
        if !lower {
            return true;
        }
        let ok3 = match &self.mac3 {
            Some(m) => m.len() <= 6,
            None => false,
        };
        let ok4 = match &self.mac4 {
            Some(m) => m.len() <= 6,
            None => false,
        };
        let ok_ip1 = match &self.ip1 {
            Some(m) => m.len() <= 4,
            None => false,
        };
        let ok_ip2 = match &self.ip2 {
            Some(m) => m.len() <= 4,
            None => false,
        };
        ok3 && ok4 && ok_ip1 && ok_ip2 && self.port1.is_some() && self.port2.is_some()
    }

    /// The link identity an entry describes: entries at even positions
    /// describe an upper board, those at odd positions a lower board.
    pub open spec fn describes(&self, lower: bool, p: XGbeIdParam) -> bool {
        match p {
            XGbeIdParam::Upper { mac1, mac2 } => {
                &&& !lower
                &&& mac1@ == bytes_of(self.mac1@, 6)
                &&& mac2@ == bytes_of(self.mac2@, 6)
            },
            XGbeIdParam::Lower { mac1, mac2, mac3, mac4, ip1, ip2, port1, port2 } => {
                &&& lower
                &&& mac1@ == bytes_of(self.mac1@, 6)
                &&& mac2@ == bytes_of(self.mac2@, 6)
                &&& mac3@ == bytes_of(self.mac3->0@, 6)
                &&& mac4@ == bytes_of(self.mac4->0@, 6)
                &&& ip1@ == bytes_of(self.ip1->0@, 4)
                &&& ip2@ == bytes_of(self.ip2->0@, 4)
                &&& port1 == self.port1->0 as u16
                &&& port2 == self.port2->0 as u16
            },
        }
    }

    pub fn to_param(&self, lower: bool) -> (r: XGbeIdParam)
        requires
            self.fits(lower),
        ensures
            self.describes(lower, r),
    {
        let mac1 = u8_array::<6>(&self.mac1);
        let mac2 = u8_array::<6>(&self.mac2);
        if !lower {
            return XGbeIdParam::Upper { mac1, mac2 };
        }
        let mac3 = match &self.mac3 {
            Some(m) => u8_array::<6>(m),
            None => [0u8; 6],
        };
        let mac4 = match &self.mac4 {
            Some(m) => u8_array::<6>(m),
            None => [0u8; 6],
        };
        let ip1 = match &self.ip1 {
            Some(m) => u8_array::<4>(m),
            None => [0u8; 4],
        };
        let ip2 = match &self.ip2 {
            Some(m) => u8_array::<4>(m),
            None => [0u8; 4],
        };
        let port1 = match self.port1 {
            Some(p) => p as u16,
            None => 0,
        };
        let port2 = match self.port2 {
            Some(p) => p as u16,
            None => 0,
        };
        XGbeIdParam::Lower { mac1, mac2, mac3, mac4, ip1, ip2, port1, port2 }
    }
}

impl PortParamFields {
    pub open spec fn fits(&self) -> bool {
        &&& self.src_mac@.len() <= 6
        &&& self.src_ip@.len() <= 4
        &&& self.dst_mac@.len() <= 6
        &&& self.dst_ip@.len() <= 4
    }

    /// The port record an entry describes, with the given packet length.
    pub open spec fn describes(&self, p: XGbePortParam, pkt_len: u32) -> bool {
        &&& p.src_mac@ == bytes_of(self.src_mac@, 6)
        &&& p.src_ip@ == bytes_of(self.src_ip@, 4)
        &&& p.src_port == self.src_port as u16
        &&& p.dst_mac@ == bytes_of(self.dst_mac@, 6)
        &&& p.dst_ip@ == bytes_of(self.dst_ip@, 4)
        &&& p.dst_port == self.dst_port as u16
        &&& p.pkt_len == pkt_len
    }

    fn to_param(&self, pkt_len: u32) -> (r: XGbePortParam)
        requires
            self.fits(),
        ensures
            self.describes(r, pkt_len),
    {
        XGbePortParam {
            src_mac: u8_array::<6>(&self.src_mac),
            src_ip: u8_array::<4>(&self.src_ip),
            src_port: self.src_port as u16,
            dst_mac: u8_array::<6>(&self.dst_mac),
            dst_ip: u8_array::<4>(&self.dst_ip),
            dst_port: self.dst_port as u16,
            pkt_len,
        }
    }
}

/// Row `i` of a list of rows, empty past its end.
pub open spec fn row_of(rows: Seq<Vec<u64>>, i: int) -> Seq<u64> {
    if 0 <= i < rows.len() {
        rows[i]@
    } else {
        Seq::empty()
    }
}

/// A port record with every field zero.
pub open spec fn is_zero_port(p: XGbePortParam) -> bool {
    &&& p.src_mac@ == bytes_of(Seq::empty(), 6)
    &&& p.src_ip@ == bytes_of(Seq::empty(), 4)
    &&& p.src_port == 0
    &&& p.dst_mac@ == bytes_of(Seq::empty(), 6)
    &&& p.dst_ip@ == bytes_of(Seq::empty(), 4)
    &&& p.dst_port == 0
    &&& p.pkt_len == 0
}

/// Packet length of SNAP2 port 0, which carries channels `ch_beg..ch_end`:
/// four bytes per channel and an eight-byte header.
pub open spec fn port0_pkt_len(ch_beg: usize, ch_end: usize) -> u32 {
    ((ch_end - ch_beg) * 4 + 8) as u32
}

/// Packet length of the other SNAP2 ports, which carry all 2048 channels.
pub const FULL_PKT_LEN: u32 = 8200;

impl BoardCfgFields {
    /// What the configuration must satisfy: a valid channel range, at most
    /// 16 boards, 9 SNAP2 ports and 8 test streams, every address list no
    /// longer than its address, and complete entries for lower boards.
    pub open spec fn acceptable(&self) -> bool {
        &&& channel_range_ok(self.ch_beg as usize, self.ch_end as usize)
        &&& self.mac@.len() <= BOARD_NUM
        &&& forall|i: int| 0 <= i < self.mac@.len() ==> #[trigger] self.mac@[i]@.len() <= 6
        &&& forall|i: int|
            #![trigger self.xgbeid@[i]]
            0 <= i < self.xgbeid@.len() ==> self.xgbeid@[i].fits(i % 2 == 1)
        &&& self.io_delay@.len() <= BOARD_NUM
        &&& forall|i: int|
            0 <= i < self.io_delay@.len() ==> #[trigger] self.io_delay@[i]@.len() <= ADC_PER_BOARD
        &&& self.snap_mac@.len() <= 6
        &&& self.snap_ip@.len() <= 4
        &&& self.xgbeparam@.len() <= SNAP_PORT_NUM
        &&& forall|i: int| 0 <= i < self.xgbeparam@.len() ==> #[trigger] self.xgbeparam@[i].fits()
        &&& self.test_mode_streams@.len() <= 8
        &&& self.src_mac@.len() <= 6
        &&& self.src_ip@.len() <= 4
    }

    pub fn check_acceptable(&self) -> (r: bool)
        ensures
            r == self.acceptable(),
    {
        if !check_channel_range(self.ch_beg as usize, self.ch_end as usize) {
            return false;
        }
        if self.mac.len() > BOARD_NUM || self.io_delay.len() > BOARD_NUM || self.snap_mac.len() > 6
            || self.snap_ip.len() > 4 || self.xgbeparam.len() > SNAP_PORT_NUM
            || self.test_mode_streams.len() > 8 || self.src_mac.len() > 6 || self.src_ip.len() > 4 {
            return false;
        }
        let mut i: usize = 0;
        while i < self.mac.len()
            invariant
                i <= self.mac@.len(),
                forall|j: int| 0 <= j < i ==> #[trigger] self.mac@[j]@.len() <= 6,
            decreases self.mac@.len() - i,
        {
            if self.mac[i].len() > 6 {
                return false;
            }
            i = i + 1;
        }
        let mut i: usize = 0;
        while i < self.io_delay.len()
            invariant
                i <= self.io_delay@.len(),
                forall|j: int| 0 <= j < i ==> #[trigger] self.io_delay@[j]@.len() <= ADC_PER_BOARD,
            decreases self.io_delay@.len() - i,
        {
            if self.io_delay[i].len() > ADC_PER_BOARD {
                return false;
            }
            i = i + 1;
        }
        let mut i: usize = 0;
        while i < self.xgbeid.len()
            invariant
                i <= self.xgbeid@.len(),
                forall|j: int| #![trigger self.xgbeid@[j]] 0 <= j < i ==> self.xgbeid@[j].fits(j % 2 == 1),
            decreases self.xgbeid@.len() - i,
        {
            if !self.xgbeid[i].check_fits(i % 2 == 1) {
                return false;
            }
            i = i + 1;
        }
        let mut i: usize = 0;
        while i < self.xgbeparam.len()
            invariant
                i <= self.xgbeparam@.len(),
                forall|j: int| 0 <= j < i ==> #[trigger] self.xgbeparam@[j].fits(),
            decreases self.xgbeparam@.len() - i,
        {
            let p = &self.xgbeparam[i];
            if p.src_mac.len() > 6 || p.src_ip.len() > 4 || p.dst_mac.len() > 6 || p.dst_ip.len() > 4 {
                assert(!self.xgbeparam@[i as int].fits());
                return false;
            }
            i = i + 1;
        }
        true
    }
}

/// The configuration of the whole front end: the 16 ADC boards and the
/// SNAP2 board, and the address this host sends from.
#[derive(Clone, Debug)]
pub struct BoardCfg {
    pub packet_gap: u16,
    pub counter_sync: u8,
    pub counter_wait: u16,
    pub trig_out_delay: u8,
    pub optical_delay: u8,
    pub fft_shift: u16,
    pub truncation: u32,
    pub mac: [[u8; 6]; BOARD_NUM],
    pub xgbeid: Vec<XGbeIdParam>,
    pub io_delay: [[u8; ADC_PER_BOARD]; BOARD_NUM],
    pub master_board_id: usize,
    pub snap_mac: [u8; 6],
    pub snap_ip: [u8; 4],
    pub src_mac: [u8; 6],
    pub src_ip: [u8; 4],
    pub ctrl_src_port: u16,
    pub ctrl_dst_port: u16,
    pub snap_xgbe_params: [XGbePortParam; SNAP_PORT_NUM],
    pub ch_beg: usize,
    pub ch_end: usize,
    pub snap_app_param: AppParam,
}

impl BoardCfg {
    /// The configuration that `f` describes: every value truncated to the
    /// width of its field, every address list copied into its address and
    /// zero-filled, SNAP2 port 0 sized for the configured channel range and
    /// the other ports for all channels, and the SNAP2 channel range set to
    /// `ch_beg ..= ch_end - 1`.
    pub open spec fn built_from(&self, f: BoardCfgFields) -> bool {
        &&& self.packet_gap == f.packet_gap as u16
        &&& self.counter_sync == f.counter_sync as u8
        &&& self.counter_wait == f.counter_wait as u16
        &&& self.trig_out_delay == f.trig_out_delay as u8
        &&& self.optical_delay == f.optical_delay as u8
        &&& self.fft_shift == f.fft_shift as u16
        &&& self.truncation == f.truncation as u32
        &&& self.master_board_id == f.master_board_id as usize
        &&& forall|i: int| 0 <= i < BOARD_NUM ==> #[trigger] self.mac@[i]@ == bytes_of(row_of(f.mac@, i), 6)
        &&& self.xgbeid@.len() == f.xgbeid@.len()
        &&& forall|i: int|
            #![trigger self.xgbeid@[i]]
            0 <= i < f.xgbeid@.len() ==> f.xgbeid@[i].describes(i % 2 == 1, self.xgbeid@[i])
        &&& forall|i: int|
            0 <= i < BOARD_NUM ==> #[trigger] self.io_delay@[i]@ == bytes_of(
                row_of(f.io_delay@, i),
                ADC_PER_BOARD as nat,
            )
        &&& self.snap_mac@ == bytes_of(f.snap_mac@, 6)
        &&& self.snap_ip@ == bytes_of(f.snap_ip@, 4)
        &&& self.src_mac@ == bytes_of(f.src_mac@, 6)
        &&& self.src_ip@ == bytes_of(f.src_ip@, 4)
        &&& self.ctrl_src_port == f.ctrl_src_port as u16
        &&& self.ctrl_dst_port == f.ctrl_dst_port as u16
        &&& self.ch_beg == f.ch_beg as usize
        &&& self.ch_end == f.ch_end as usize
        &&& forall|i: int|
            0 <= i < SNAP_PORT_NUM ==> if i < f.xgbeparam@.len() {
                f.xgbeparam@[i].describes(
                    #[trigger] self.snap_xgbe_params@[i],
                    if i == 0 {
                        port0_pkt_len(self.ch_beg, self.ch_end)
                    } else {
                        FULL_PKT_LEN
                    },
                )
            } else {
                is_zero_port(self.snap_xgbe_params@[i])
            }
        &&& self.snap_app_param.mode_sel == f.mode_sel as u32
        &&& self.snap_app_param.test_mode_streams@ == words_of(f.test_mode_streams@, 8)
        &&& self.snap_app_param.num_of_streams_sel == f.num_of_streams_sel as u32
        &&& self.snap_app_param.first_ch == self.ch_beg as u32
        &&& self.snap_app_param.last_ch == (self.ch_end - 1) as u32
    }

    /// Builds the configuration from the values of a configuration document.
    pub fn from_fields(f: &BoardCfgFields) -> (r: BoardCfg)
        requires
            f.acceptable(),
        ensures
            r.built_from(*f),
    {
        let ch_beg = f.ch_beg as usize;
        let ch_end = f.ch_end as usize;

        let mut mac = [[0u8; 6]; BOARD_NUM];
        let mut i: usize = 0;
        while i < f.mac.len()
            invariant
                f.acceptable(),
                i <= f.mac@.len(),
                forall|j: int|
                    0 <= j < BOARD_NUM ==> #[trigger] mac@[j]@ == if j < i {
                        bytes_of(f.mac@[j]@, 6)
                    } else {
                        bytes_of(Seq::empty(), 6)
                    },
            decreases f.mac@.len() - i,
        {
            mac[i] = u8_array::<6>(&f.mac[i]);
            i = i + 1;
        }

        let mut io_delay = [[0u8; ADC_PER_BOARD]; BOARD_NUM];
        let mut i: usize = 0;
        while i < f.io_delay.len()
            invariant
                f.acceptable(),
                i <= f.io_delay@.len(),
                forall|j: int|
                    0 <= j < BOARD_NUM ==> #[trigger] io_delay@[j]@ == if j < i {
                        bytes_of(f.io_delay@[j]@, ADC_PER_BOARD as nat)
                    } else {
                        bytes_of(Seq::empty(), ADC_PER_BOARD as nat)
                    },
            decreases f.io_delay@.len() - i,
        {
            io_delay[i] = u8_array::<ADC_PER_BOARD>(&f.io_delay[i]);
            i = i + 1;
        }

        let mut xgbeid: Vec<XGbeIdParam> = Vec::new();
        let mut i: usize = 0;
        while i < f.xgbeid.len()
            invariant
                f.acceptable(),
                i <= f.xgbeid@.len(),
                xgbeid@.len() == i,
                forall|j: int|
                    #![trigger xgbeid@[j]]
                    0 <= j < i ==> f.xgbeid@[j].describes(j % 2 == 1, xgbeid@[j]),
            decreases f.xgbeid@.len() - i,
        {
            let p = f.xgbeid[i].to_param(i % 2 == 1);
            xgbeid.push(p);
            i = i + 1;
        }

        let zero_port = XGbePortParam::default();
        assert(zero_port.src_mac@ =~= bytes_of(Seq::empty(), 6));
        assert(zero_port.src_ip@ =~= bytes_of(Seq::empty(), 4));
        assert(zero_port.dst_mac@ =~= bytes_of(Seq::empty(), 6));
        assert(zero_port.dst_ip@ =~= bytes_of(Seq::empty(), 4));
        let mut snap_xgbe_params = [zero_port; SNAP_PORT_NUM];
        let mut i: usize = 0;
        while i < f.xgbeparam.len()
            invariant
                f.acceptable(),
                ch_beg == f.ch_beg as usize,
                ch_end == f.ch_end as usize,
                i <= f.xgbeparam@.len(),
                is_zero_port(zero_port),
                forall|j: int|
                    0 <= j < SNAP_PORT_NUM ==> if j < i {
                        f.xgbeparam@[j].describes(
                            #[trigger] snap_xgbe_params@[j],
                            if j == 0 {
                                port0_pkt_len(ch_beg, ch_end)
                            } else {
                                FULL_PKT_LEN
                            },
                        )
                    } else {
                        snap_xgbe_params@[j] == zero_port
                    },
            decreases f.xgbeparam@.len() - i,
        {
            let pkt_len: u32 = if i == 0 {
                ((ch_end - ch_beg) * 4 + 8) as u32
            } else {
                FULL_PKT_LEN
            };
            snap_xgbe_params[i] = f.xgbeparam[i].to_param(pkt_len);
            i = i + 1;
        }

        let r = BoardCfg {
            packet_gap: f.packet_gap as u16,
            counter_sync: f.counter_sync as u8,
            counter_wait: f.counter_wait as u16,
            trig_out_delay: f.trig_out_delay as u8,
            optical_delay: f.optical_delay as u8,
            fft_shift: f.fft_shift as u16,
            truncation: f.truncation as u32,
            mac,
            xgbeid,
            io_delay,
            master_board_id: f.master_board_id as usize,
            snap_mac: u8_array::<6>(&f.snap_mac),
            snap_ip: u8_array::<4>(&f.snap_ip),
            src_mac: u8_array::<6>(&f.src_mac),
            src_ip: u8_array::<4>(&f.src_ip),
            ctrl_src_port: f.ctrl_src_port as u16,
            ctrl_dst_port: f.ctrl_dst_port as u16,
            snap_xgbe_params,
            ch_beg,
            ch_end,
            snap_app_param: AppParam {
                mode_sel: f.mode_sel as u32,
                test_mode_streams: u64_array::<8>(&f.test_mode_streams),
                num_of_streams_sel: f.num_of_streams_sel as u32,
                first_ch: ch_beg as u32,
                last_ch: ch_end as u32 - 1,
            },
        };
        assert forall|j: int| 0 <= j < BOARD_NUM implies #[trigger] r.mac@[j]@ == bytes_of(
            row_of(f.mac@, j),
            6,
        ) by {
            if j >= f.mac@.len() {
                assert(row_of(f.mac@, j) =~= Seq::<u64>::empty());
            }
        }
        assert forall|j: int| 0 <= j < BOARD_NUM implies #[trigger] r.io_delay@[j]@ == bytes_of(
            row_of(f.io_delay@, j),
            ADC_PER_BOARD as nat,
        ) by {
            if j >= f.io_delay@.len() {
                assert(row_of(f.io_delay@, j) =~= Seq::<u64>::empty());
            }
        }
        r
    }
}

/// A message addressed to one ADC board.
#[derive(Debug, Clone)]
pub struct AdcCommand {
    pub board: usize,
    pub dst_mac: [u8; 6],
    pub msg: AdcMsg,
}

impl BoardCfg {
    /// `c` goes to board `b`, at that board's MAC address.
    pub open spec fn addressed_to(&self, c: AdcCommand, b: int) -> bool {
        &&& c.board == b
        &&& c.dst_mac@ == self.mac@[b]@
    }

    /// `sec` sends `m(b)` to each board `b` in turn.
    pub open spec fn sends_to_each(&self, sec: Seq<AdcCommand>, m: spec_fn(int) -> AdcMsg) -> bool {
        &&& sec.len() == BOARD_NUM
        &&& forall|b: int|
            0 <= b < BOARD_NUM ==> self.addressed_to(#[trigger] sec[b], b) && sec[b].msg == m(b)
    }

    /// `c` sends `m` to the master board.
    pub open spec fn sends_to_master(&self, c: AdcCommand, m: AdcMsg) -> bool {
        &&& self.addressed_to(c, self.master_board_id as int)
        &&& c.msg == m
    }

    fn command(&self, board: usize, msg: AdcMsg) -> (r: AdcCommand)
        requires
            board < BOARD_NUM,
        ensures
            self.addressed_to(r, board as int),
            r.msg == msg,
    {
        AdcCommand { board, dst_mac: self.mac[board], msg }
    }

    fn push_ctrl_to_each(&self, out: &mut Vec<AdcCommand>, p: CtrlParam)
        ensures
            final(out)@.len() == old(out)@.len() + BOARD_NUM,
            final(out)@.subrange(0, old(out)@.len() as int) == old(out)@,
            self.sends_to_each(
                final(out)@.subrange(old(out)@.len() as int, old(out)@.len() + BOARD_NUM),
                |b: int| AdcMsg::Ctrl(p),
            ),
    {
        let ghost start = out@.len();
        let mut b: usize = 0;
        while b < BOARD_NUM
            invariant
                b <= BOARD_NUM,
                out@.len() == start + b,
                start == old(out)@.len(),
                out@.subrange(0, start as int) == old(out)@,
                forall|k: int|
                    0 <= k < b ==> self.addressed_to(#[trigger] out@[start + k], k) && out@[start
                        + k].msg == AdcMsg::Ctrl(p),
            decreases BOARD_NUM - b,
        {
            let c = self.command(b, AdcMsg::Ctrl(p));
            out.push(c);
            assert(out@.subrange(0, start as int) =~= old(out)@);
            b = b + 1;
        }
        let ghost sec = out@.subrange(start as int, start + BOARD_NUM);
        assert forall|k: int| 0 <= k < BOARD_NUM implies self.addressed_to(#[trigger] sec[k], k)
            && sec[k].msg == AdcMsg::Ctrl(p) by {
            assert(sec[k] == out@[start + k]);
        }
    }

    fn push_master(&self, out: &mut Vec<AdcCommand>, msg: AdcMsg)
        requires
            self.master_board_id < BOARD_NUM,
        ensures
            final(out)@.len() == old(out)@.len() + 1,
            final(out)@.subrange(0, old(out)@.len() as int) == old(out)@,
            self.sends_to_master(final(out)@[old(out)@.len() as int], msg),
    {
        let c = self.command(self.master_board_id, msg);
        out.push(c);
        assert(out@.subrange(0, old(out)@.len() as int) =~= old(out)@);
    }

    /// Resets every board (`PreRst`), then the master board (`MasterRst`).
    pub fn reset_all_commands(&self) -> (r: Vec<AdcCommand>)
        requires
            self.master_board_id < BOARD_NUM,
        ensures
            r@.len() == BOARD_NUM + 1,
            self.sends_to_each(r@.subrange(0, 16), |b: int| AdcMsg::Ctrl(CtrlParam::PreRst)),
            self.sends_to_master(r@[16], AdcMsg::MasterRst),
    {
        let mut r = Vec::new();
        self.push_ctrl_to_each(&mut r, CtrlParam::PreRst);
        let ghost first = r@;
        self.push_master(&mut r, AdcMsg::MasterRst);
        assert(r@.subrange(0, 16) =~= first.subrange(0, 16));
        r
    }

    /// Resets the input delay logic of every board (`IddrRst`), triggers the
    /// master board, synchronizes every board (`Synchronize`), then the
    /// master board (`MasterSync`).
    pub fn sync_adc_commands(&self) -> (r: Vec<AdcCommand>)
        requires
            self.master_board_id < BOARD_NUM,
        ensures
            r@.len() == 2 * BOARD_NUM + 2,
            self.sends_to_each(r@.subrange(0, 16), |b: int| AdcMsg::Ctrl(CtrlParam::IddrRst)),
            self.sends_to_master(r@[16], AdcMsg::MasterTrig),
            self.sends_to_each(r@.subrange(17, 33), |b: int| AdcMsg::Ctrl(CtrlParam::Synchronize)),
            self.sends_to_master(r@[33], AdcMsg::MasterSync),
    {
        let mut r = Vec::new();
        self.push_ctrl_to_each(&mut r, CtrlParam::IddrRst);
        let ghost zeroth = r@;
        self.push_master(&mut r, AdcMsg::MasterTrig);
        assert(r@.subrange(0, 16) =~= zeroth.subrange(0, 16));
        let ghost first = r@;
        self.push_ctrl_to_each(&mut r, CtrlParam::Synchronize);
        let ghost second = r@;
        self.push_master(&mut r, AdcMsg::MasterSync);
        assert(r@.subrange(0, 16) =~= first.subrange(0, 16));
        assert(r@[16] == first[16]);
        assert(r@.subrange(17, 33) =~= second.subrange(17, 33));
        r
    }

    /// Prepares every board for the trigger (`StartFft`).
    pub fn wait_for_trig_commands(&self) -> (r: Vec<AdcCommand>)
        ensures
            r@.len() == BOARD_NUM,
            self.sends_to_each(r@, |b: int| AdcMsg::Ctrl(CtrlParam::StartFft)),
    {
        let mut r = Vec::new();
        self.push_ctrl_to_each(&mut r, CtrlParam::StartFft);
        assert(r@.subrange(0, 16) =~= r@);
        r
    }

    /// Asks the master board to send the internal trigger.
    pub fn internal_trig_command(&self) -> (r: AdcCommand)
        requires
            self.master_board_id < BOARD_NUM,
        ensures
            self.sends_to_master(r, AdcMsg::MasterTrig),
    {
        self.command(self.master_board_id, AdcMsg::MasterTrig)
    }

    /// Prepares every board to store data (`StoreData`), then triggers the
    /// master board.
    pub fn store_data_commands(&self) -> (r: Vec<AdcCommand>)
        requires
            self.master_board_id < BOARD_NUM,
        ensures
            r@.len() == BOARD_NUM + 1,
            self.sends_to_each(r@.subrange(0, 16), |b: int| AdcMsg::Ctrl(CtrlParam::StoreData)),
            self.sends_to_master(r@[16], AdcMsg::MasterTrig),
    {
        let mut r = Vec::new();
        self.push_ctrl_to_each(&mut r, CtrlParam::StoreData);
        let ghost first = r@;
        self.push_master(&mut r, AdcMsg::MasterTrig);
        assert(r@.subrange(0, 16) =~= first.subrange(0, 16));
        r
    }
}

impl BoardCfg {
    /// Tells every board the identity of its 10 GbE links.
    pub fn xgbeid_commands(&self) -> (r: Vec<AdcCommand>)
        requires
            self.xgbeid@.len() >= BOARD_NUM,
        ensures
            self.sends_to_each(r@, |b: int| AdcMsg::XGbeId(self.xgbeid@[b])),
    {
        let mut r: Vec<AdcCommand> = Vec::new();
        let mut b: usize = 0;
        while b < BOARD_NUM
            invariant
                b <= BOARD_NUM,
                self.xgbeid@.len() >= BOARD_NUM,
                r@.len() == b,
                forall|k: int|
                    0 <= k < b ==> self.addressed_to(#[trigger] r@[k], k) && r@[k].msg
                        == AdcMsg::XGbeId(self.xgbeid@[k]),
            decreases BOARD_NUM - b,
        {
            let c = self.command(b, AdcMsg::XGbeId(self.xgbeid[b]));
            r.push(c);
            b = b + 1;
        }
        r
    }

    /// Sets the FFT shift and truncation of every board.
    pub fn fft_param_commands(&self) -> (r: Vec<AdcCommand>)
        ensures
            self.sends_to_each(
                r@,
                |b: int| (AdcMsg::FftParam { fft_shift: self.fft_shift, truncation: self.truncation }),
            ),
    {
        let mut r: Vec<AdcCommand> = Vec::new();
        let mut b: usize = 0;
        while b < BOARD_NUM
            invariant
                b <= BOARD_NUM,
                r@.len() == b,
                forall|k: int|
                    0 <= k < b ==> self.addressed_to(#[trigger] r@[k], k) && r@[k].msg
                        == (AdcMsg::FftParam { fft_shift: self.fft_shift, truncation: self.truncation }),
            decreases BOARD_NUM - b,
        {
            let msg = AdcMsg::FftParam { fft_shift: self.fft_shift, truncation: self.truncation };
            let c = self.command(b, msg);
            r.push(c);
            b = b + 1;
        }
        r
    }

    /// The ADC configuration message of board `b`: its input delays and the
    /// common timing parameters.
    pub open spec fn adc_cfg_msg(&self, b: int) -> AdcMsg {
        AdcMsg::Cfg {
            io_delay: self.io_delay@[b],
            packet_gap: self.packet_gap,
            counter_sync: self.counter_sync,
            counter_wait: self.counter_wait,
            trig_out_delay: self.trig_out_delay,
            optical_delay: self.optical_delay,
        }
    }

    /// Configures the ADCs of every board.
    pub fn adc_param_commands(&self) -> (r: Vec<AdcCommand>)
        ensures
            self.sends_to_each(r@, |b: int| self.adc_cfg_msg(b)),
    {
        let mut r: Vec<AdcCommand> = Vec::new();
        let mut b: usize = 0;
        while b < BOARD_NUM
            invariant
                b <= BOARD_NUM,
                r@.len() == b,
                forall|k: int|
                    0 <= k < b ==> self.addressed_to(#[trigger] r@[k], k) && r@[k].msg
                        == self.adc_cfg_msg(k),
            decreases BOARD_NUM - b,
        {
            let msg = AdcMsg::Cfg {
                io_delay: self.io_delay[b],
                packet_gap: self.packet_gap,
                counter_sync: self.counter_sync,
                counter_wait: self.counter_wait,
                trig_out_delay: self.trig_out_delay,
                optical_delay: self.optical_delay,
            };
            let c = self.command(b, msg);
            r.push(c);
            b = b + 1;
        }
        r
    }

    /// Uploads the phase factors `value` to board `bid`.
    pub fn phase_factor_command(&self, bid: usize, value: Vec<Vec<ComplexI16>>) -> (r: AdcCommand)
        requires
            bid < BOARD_NUM,
        ensures
            self.addressed_to(r, bid as int),
            r.msg == (AdcMsg::PhaseFactor { value }),
    {
        self.command(bid, AdcMsg::PhaseFactor { value })
    }

    /// Asks board `bid` to upload its FFT data.
    pub fn upload_fft_command(&self, bid: usize) -> (r: AdcCommand)
        requires
            bid < BOARD_NUM,
        ensures
            self.addressed_to(r, bid as int),
            r.msg == AdcMsg::UploadFft,
    {
        self.command(bid, AdcMsg::UploadFft)
    }

    /// Uploads new phase factors to every board (board `b` gets
    /// `value[b]`), switches every board to them, then triggers the master
    /// board so that they take effect.
    pub fn update_phase_factor_commands(&self, value: Vec<Vec<Vec<ComplexI16>>>) -> (r: Vec<AdcCommand>)
        requires
            value@.len() == BOARD_NUM,
            self.master_board_id < BOARD_NUM,
        ensures
            r@.len() == 2 * BOARD_NUM + 1,
            self.sends_to_each(r@.subrange(0, 16), |b: int| (AdcMsg::PhaseFactor { value: value@[b] })),
            self.sends_to_each(
                r@.subrange(16, 32),
                |b: int| AdcMsg::Ctrl(CtrlParam::SwitchPhaseFactor),
            ),
            self.sends_to_master(r@[32], AdcMsg::MasterTrig),
    {
        let ghost orig = value@;
        let mut value = value;
        let mut r: Vec<AdcCommand> = Vec::new();
        let mut b: usize = 0;
        while b < BOARD_NUM
            invariant
                b <= BOARD_NUM,
                orig.len() == BOARD_NUM,
                value@ == orig.subrange(b as int, BOARD_NUM as int),
                r@.len() == b,
                forall|k: int|
                    0 <= k < b ==> self.addressed_to(#[trigger] r@[k], k) && r@[k].msg
                        == (AdcMsg::PhaseFactor { value: orig[k] }),
            decreases BOARD_NUM - b,
        {
            let pf = value.remove(0);
            assert(value@ =~= orig.subrange(b + 1, BOARD_NUM as int));
            let c = self.command(b, AdcMsg::PhaseFactor { value: pf });
            r.push(c);
            b = b + 1;
        }
        let ghost first = r@;
        self.push_ctrl_to_each(&mut r, CtrlParam::SwitchPhaseFactor);
        let ghost second = r@;
        self.push_master(&mut r, AdcMsg::MasterTrig);
        assert(r@.subrange(0, 16) =~= first);
        assert(r@.subrange(16, 32) =~= second.subrange(16, 32));
        r
    }
}

impl BoardCfg {
    /// The UDP frame that carries `msg` from this host to the SNAP2 board's
    /// control port.
    pub fn snap_msg_frame(&self, msg: &Snap2Msg) -> (r: Vec<u8>)
        ensures
            r@ == etherparse_udp_frame(
                self.src_mac@,
                self.snap_mac@,
                self.src_ip@,
                self.snap_ip@,
                UDP_TTL,
                self.ctrl_src_port,
                self.ctrl_dst_port,
                msg.spec_raw_data(),
            ),
            udp_frame_fields(
                r@,
                self.src_mac@,
                self.snap_mac@,
                self.src_ip@,
                self.snap_ip@,
                UDP_TTL,
                self.ctrl_src_port,
                self.ctrl_dst_port,
                msg.spec_raw_data(),
            ),
    {
        let buf = msg.get_raw_data();
        proof {
            lemma_snap2_raw_data_len(*msg);
        }
        udp_buffer_frame(
            buf.as_slice(),
            self.snap_mac,
            self.src_mac,
            self.snap_ip,
            self.src_ip,
            self.ctrl_dst_port,
            self.ctrl_src_port,
        )
    }
}

/// A command is addressed to board `b` when it names board `b` and carries
/// that board's MAC as its destination; a command sequence for every board
/// holds one such command per board, board `b` in position `b`; a command
/// for the master board names the configured master board and its MAC.
pub proof fn lemma_command_addressing(
    cfg: BoardCfg,
    c: AdcCommand,
    b: int,
    sec: Seq<AdcCommand>,
    m: spec_fn(int) -> AdcMsg,
    mm: AdcMsg,
)
    ensures
        cfg.addressed_to(c, b) <==> (c.board == b && c.dst_mac@ == cfg.mac@[b]@),
        cfg.sends_to_each(sec, m) <==> {
            &&& sec.len() == 16
            &&& forall|k: int|
                0 <= k < 16 ==> {
                    &&& #[trigger] sec[k].board == k
                    &&& sec[k].dst_mac@ == cfg.mac@[k]@
                    &&& sec[k].msg == m(k)
                }
        },
        cfg.sends_to_master(c, mm) <==> {
            &&& c.board == cfg.master_board_id
            &&& c.dst_mac@ == cfg.mac@[cfg.master_board_id as int]@
            &&& c.msg == mm
        },
{
    if sec.len() == 16 {
        assert((forall|k: int|
            0 <= k < 16 ==> {
                &&& #[trigger] sec[k].board == k
                &&& sec[k].dst_mac@ == cfg.mac@[k]@
                &&& sec[k].msg == m(k)
            }) <==> (forall|k: int|
            0 <= k < BOARD_NUM ==> cfg.addressed_to(#[trigger] sec[k], k) && sec[k].msg == m(k)));
    }
}

/// In a configuration built from an acceptable document, the SNAP2 board
/// streams the channel range `first_ch ..= last_ch` of its application
/// parameters, which is the configured, valid range `ch_beg .. ch_end`, and
/// port 0 (when configured) is sized for exactly these channels: four bytes
/// per channel plus an eight-byte header.
pub proof fn lemma_port0_matches_channel_range(cfg: BoardCfg, f: BoardCfgFields)
    requires
        f.acceptable(),
        cfg.built_from(f),
    ensures
        channel_range_ok(cfg.ch_beg, cfg.ch_end),
        cfg.snap_app_param.first_ch == cfg.ch_beg,
        cfg.snap_app_param.last_ch + 1 == cfg.ch_end,
        f.xgbeparam@.len() > 0 ==> cfg.snap_xgbe_params@[0].pkt_len == (cfg.snap_app_param.last_ch
            - cfg.snap_app_param.first_ch + 1) * 4 + 8,
{
    if f.xgbeparam@.len() > 0 {
        assert(f.xgbeparam@[0].describes(cfg.snap_xgbe_params@[0], port0_pkt_len(cfg.ch_beg, cfg.ch_end)));
    }
}

/// A configuration document is accepted exactly when its channel range
/// `ch_beg .. ch_end` has an even start before an even end no later than
/// channel 2048, it names at most 16 boards with MACs of at most 6 bytes
/// and input delays of at most 4 values, its SNAP2 addresses fit (6-byte
/// MACs, 4-byte IPs) with at most 9 ports and 8 test streams, and every
/// odd (lower board) `xgbeid` entry has all its addresses and ports.
pub proof fn lemma_acceptable_conditions(f: BoardCfgFields)
    ensures
        f.acceptable() <==> {
            &&& (f.ch_beg as usize) % 2 == 0
            &&& (f.ch_beg as usize) < (f.ch_end as usize)
            &&& (f.ch_end as usize) % 2 == 0
            &&& (f.ch_end as usize) <= 2048
            &&& f.mac@.len() <= 16
            &&& (forall|i: int| 0 <= i < f.mac@.len() ==> #[trigger] f.mac@[i]@.len() <= 6)
            &&& f.io_delay@.len() <= 16
            &&& (forall|i: int| 0 <= i < f.io_delay@.len() ==> #[trigger] f.io_delay@[i]@.len() <= 4)
            &&& (forall|i: int|
                0 <= i < f.xgbeid@.len() ==> {
                    let e = #[trigger] f.xgbeid@[i];
                    &&& e.mac1@.len() <= 6
                    &&& e.mac2@.len() <= 6
                    &&& i % 2 == 1 ==> {
                        &&& e.mac3 is Some && e.mac3->0@.len() <= 6
                        &&& e.mac4 is Some && e.mac4->0@.len() <= 6
                        &&& e.ip1 is Some && e.ip1->0@.len() <= 4
                        &&& e.ip2 is Some && e.ip2->0@.len() <= 4
                        &&& e.port1 is Some
                        &&& e.port2 is Some
                    }
                })
            &&& f.snap_mac@.len() <= 6
            &&& f.snap_ip@.len() <= 4
            &&& f.xgbeparam@.len() <= 9
            &&& (forall|i: int|
                0 <= i < f.xgbeparam@.len() ==> {
                    let p = #[trigger] f.xgbeparam@[i];
                    &&& p.src_mac@.len() <= 6
                    &&& p.src_ip@.len() <= 4
                    &&& p.dst_mac@.len() <= 6
                    &&& p.dst_ip@.len() <= 4
                })
            &&& f.test_mode_streams@.len() <= 8
            &&& f.src_mac@.len() <= 6
            &&& f.src_ip@.len() <= 4
        },
{
    if f.acceptable() {
        assert forall|i: int| 0 <= i < f.xgbeid@.len() implies {
            let e = #[trigger] f.xgbeid@[i];
            &&& e.mac1@.len() <= 6
            &&& e.mac2@.len() <= 6
            &&& i % 2 == 1 ==> {
                &&& e.mac3 is Some && e.mac3->0@.len() <= 6
                &&& e.mac4 is Some && e.mac4->0@.len() <= 6
                &&& e.ip1 is Some && e.ip1->0@.len() <= 4
                &&& e.ip2 is Some && e.ip2->0@.len() <= 4
                &&& e.port1 is Some
                &&& e.port2 is Some
            }
        } by {
            assert(f.xgbeid@[i].fits(i % 2 == 1));
        }
        assert forall|i: int| 0 <= i < f.xgbeparam@.len() implies {
            let p = #[trigger] f.xgbeparam@[i];
            &&& p.src_mac@.len() <= 6
            &&& p.src_ip@.len() <= 4
            &&& p.dst_mac@.len() <= 6
            &&& p.dst_ip@.len() <= 4
        } by {
            assert(f.xgbeparam@[i].fits());
        }
    }
    if (f.ch_beg as usize) % 2 == 0 && (f.ch_beg as usize) < (f.ch_end as usize) && (
    f.ch_end as usize) % 2 == 0 && (f.ch_end as usize) <= 2048 && (forall|i: int|
        0 <= i < f.xgbeid@.len() ==> {
            let e = #[trigger] f.xgbeid@[i];
            &&& e.mac1@.len() <= 6
            &&& e.mac2@.len() <= 6
            &&& i % 2 == 1 ==> {
                &&& e.mac3 is Some && e.mac3->0@.len() <= 6
                &&& e.mac4 is Some && e.mac4->0@.len() <= 6
                &&& e.ip1 is Some && e.ip1->0@.len() <= 4
                &&& e.ip2 is Some && e.ip2->0@.len() <= 4
                &&& e.port1 is Some
                &&& e.port2 is Some
            }
        }) && (forall|i: int|
        0 <= i < f.xgbeparam@.len() ==> {
            let p = #[trigger] f.xgbeparam@[i];
            &&& p.src_mac@.len() <= 6
            &&& p.src_ip@.len() <= 4
            &&& p.dst_mac@.len() <= 6
            &&& p.dst_ip@.len() <= 4
        }) {
        assert forall|i: int| #![trigger f.xgbeid@[i]] 0 <= i < f.xgbeid@.len() implies f.xgbeid@[i].fits(
            i % 2 == 1,
        ) by {
            let e = f.xgbeid@[i];
            assert(e.mac1@.len() <= 6);
        }
        assert forall|i: int| 0 <= i < f.xgbeparam@.len() implies #[trigger] f.xgbeparam@[i].fits() by {
            let p = f.xgbeparam@[i];
            assert(p.src_mac@.len() <= 6);
        }
    }
}

} // verus!
