use vstd::prelude::*;

use crate::utils::le32;

verus! {

/// Length of an FFT upload frame: 14 bytes of Ethernet header, 4 bytes of
/// board header, one sequence byte and 1024 bytes of data.
pub const FFT_PACKET_LEN: usize = 1043;

/// Offset of the sequence byte in an FFT upload frame.
pub const FFT_SEQ_OFFSET: usize = 18;

/// Offset of the data in an FFT upload frame.
pub const FFT_DATA_OFFSET: usize = 19;

/// Number of ADC chips (rows of FFT data) per board.
pub const FFT_CHIPS: usize = 8;

/// Number of frequency channels per chip.
pub const FFT_CHANNELS: usize = 2048;

/// Number of frames that carry the data of one chip.
pub const FFT_CHUNKS_PER_CHIP: usize = 16;

/// Number of channels carried by one frame.
pub const FFT_CHUNK_LEN: usize = 128;

/// Number of frames of a complete upload.
pub const FFT_PACKETS_PER_BOARD: usize = 128;

/// A complex FFT output with 32-bit integer parts.
#[derive(Debug, Copy, Clone, Eq, PartialEq)]
pub struct ComplexI32 {
    pub re: i32,
    pub im: i32,
}

/// What a received frame is to an FFT upload from one board.
#[derive(Debug, Copy, Clone, Eq, PartialEq)]
pub enum FftPacket {
    /// Not an FFT data frame: its length is not 1043.
    WrongLength,
    /// An FFT data frame from another board.
    OtherSource,
    /// A data frame of the board whose sequence byte is not in `1..=128`.
    OutOfRange,
    /// Channels `chunk * 128 .. (chunk + 1) * 128` of chip `chip`.
    Chunk { chip: usize, chunk: usize },
}

/// How a frame is classified: by length, by source MAC (bytes 6..12), then by
/// the sequence byte `s`, which names chunk `(s - 1) % 16` of chip
/// `(s - 1) / 16`.
pub open spec fn spec_classify(packet: Seq<u8>, board_mac: Seq<u8>) -> FftPacket {
    if packet.len() != FFT_PACKET_LEN {
        FftPacket::WrongLength
    } else if packet.subrange(6, 12) != board_mac {
        FftPacket::OtherSource
    } else if packet[18] == 0 || packet[18] > 128 {
        FftPacket::OutOfRange
    } else {
        FftPacket::Chunk {
            chip: ((packet[18] - 1) / 16) as usize,
            chunk: ((packet[18] - 1) % 16) as usize,
        }
    }
}

/// The unsigned value of four little-endian bytes.
pub open spec fn le_u32_of(b: Seq<u8>) -> u32 {
    (b[0] + b[1] * 256 + b[2] * 65536 + b[3] * 16777216) as u32
}

/// The two's complement value of four little-endian bytes.
pub open spec fn le_i32_of(b: Seq<u8>) -> i32 {
    le_u32_of(b) as i32
}

/// Complex value `k` of the data of an FFT frame: real part, then imaginary
/// part, each four little-endian bytes.
pub open spec fn fft_value(packet: Seq<u8>, k: int) -> ComplexI32 {
    ComplexI32 {
        re: le_i32_of(packet.subrange(19 + 8 * k, 23 + 8 * k)),
        im: le_i32_of(packet.subrange(23 + 8 * k, 27 + 8 * k)),
    }
}

/// Decoding four little-endian bytes gives back the integer they encode.
pub proof fn lemma_le_u32_roundtrip(v: u32)
    ensures
        le_u32_of(le32(v)) == v,
{
    let b = le32(v);
    assert(b[0] + b[1] * 256 + b[2] * 65536 + b[3] * 16777216 == v) by (nonlinear_arith)
        requires
            b[0] == v % 256,
            b[1] == (v / 256) % 256,
            b[2] == (v / 65536) % 256,
            b[3] == v / 16777216,
            v < 0x1_0000_0000,
    ;
}

/// The FFT upload decodes an `i32` from exactly the bytes that
/// `to_u8_slice` lays out for it.
pub proof fn lemma_le_i32_roundtrip(x: i32)
    ensures
        le_i32_of(le32(x as u32)) == x,
{
    lemma_le_u32_roundtrip(x as u32);
    assert(((x as u32) as i32) == x) by (bit_vector);
}

/// A frame is data of the board exactly when it is 1043 bytes long, all six
/// bytes of its source MAC (bytes 6..12) equal the board's MAC, and its
/// sequence byte `s` (byte 18) is in `1..=128`; it then carries chunk
/// `(s - 1) % 16` of chip `(s - 1) / 16`. A frame of that length whose source
/// MAC differs from the board's in any byte is another board's, and a frame
/// of another length is no data frame.
pub proof fn lemma_classify_fft_packet(packet: Seq<u8>, board_mac: Seq<u8>)
    requires
        board_mac.len() == 6,
    ensures
        (spec_classify(packet, board_mac) is Chunk) <==> (packet.len() == 1043 && (forall|j: int|
            #![trigger board_mac[j]]
            0 <= j < 6 ==> packet[6 + j] == board_mac[j]) && 1 <= packet[18] <= 128),
        spec_classify(packet, board_mac) matches FftPacket::Chunk { chip, chunk } ==> {
            &&& chip < 8
            &&& chunk < 16
            &&& 16 * chip + chunk + 1 == packet[18]
        },
        packet.len() == 1043 && (exists|j: int|
            #![trigger board_mac[j]]
            0 <= j < 6 && packet[6 + j] != board_mac[j]) ==> spec_classify(packet, board_mac)
            == FftPacket::OtherSource,
        packet.len() != 1043 ==> spec_classify(packet, board_mac) == FftPacket::WrongLength,
{
    if packet.len() == 1043 {
        if forall|j: int| #![trigger board_mac[j]] 0 <= j < 6 ==> packet[6 + j] == board_mac[j] {
            assert(packet.subrange(6, 12) =~= board_mac);
        } else {
            let j = choose|j: int| #![trigger board_mac[j]] 0 <= j < 6 && packet[6 + j] != board_mac[j];
            assert(packet.subrange(6, 12)[j] != board_mac[j]);
        }
        if exists|j: int| #![trigger board_mac[j]] 0 <= j < 6 && packet[6 + j] != board_mac[j] {
            let j = choose|j: int| #![trigger board_mac[j]] 0 <= j < 6 && packet[6 + j] != board_mac[j];
            assert(packet.subrange(6, 12)[j] != board_mac[j]);
        }
    }
}

/// Value `k` of a data frame is read from bytes `19 + 8 k .. 27 + 8 k`:
/// a frame whose bytes there are the little-endian encodings of `x.re` and
/// then `x.im` carries `x`.
pub proof fn lemma_fft_value_decodes(packet: Seq<u8>, k: int, x: ComplexI32)
    requires
        0 <= k,
        27 + 8 * k <= packet.len(),
        packet.subrange(19 + 8 * k, 27 + 8 * k) == le32(x.re as u32) + le32(x.im as u32),
    ensures
        fft_value(packet, k) == x,
{
    lemma_le_i32_roundtrip(x.re);
    lemma_le_i32_roundtrip(x.im);
    let w = packet.subrange(19 + 8 * k, 27 + 8 * k);
    assert(packet.subrange(19 + 8 * k, 23 + 8 * k) =~= le32(x.re as u32));
    let a = le32(x.re as u32);
    let b = le32(x.im as u32);
    assert(a.len() == 4 && b.len() == 4);
    assert forall|t: int| 0 <= t < 4 implies packet.subrange(23 + 8 * k, 27 + 8 * k)[t] == b[t] by {
        assert(packet.subrange(23 + 8 * k, 27 + 8 * k)[t] == w[4 + t]);
        assert((a + b)[4 + t] == b[t]);
    }
    assert(packet.subrange(23 + 8 * k, 27 + 8 * k) =~= b);
}

/// Classifies a received frame for an upload from the board at `board_mac`.
pub fn classify_fft_packet(packet: &[u8], board_mac: [u8; 6]) -> (r: FftPacket)
    ensures
        r == spec_classify(packet@, board_mac@),
        r is Chunk ==> packet@.len() == FFT_PACKET_LEN && forall|j: int|
            #![trigger board_mac@[j]]
            0 <= j < 6 ==> packet@[6 + j] == board_mac@[j],
{
    proof {
        lemma_classify_fft_packet(packet@, board_mac@);
    }
    if packet.len() != FFT_PACKET_LEN {
        return FftPacket::WrongLength;
    }
    let mut i: usize = 0;
    while i < 6
        invariant
            i <= 6,
            packet@.len() == FFT_PACKET_LEN,
            forall|j: int| 0 <= j < i ==> packet@[6 + j] == board_mac@[j],
        decreases 6 - i,
    {
        if packet[6 + i] != board_mac[i] {
            assert(packet@.subrange(6, 12)[i as int] != board_mac@[i as int]);
            return FftPacket::OtherSource;
        }
        i = i + 1;
    }
    assert(packet@.subrange(6, 12) =~= board_mac@);
    let s = packet[FFT_SEQ_OFFSET];
    if s == 0 || s > 128 {
        return FftPacket::OutOfRange;
    }
    let order = (s - 1) as usize;
    FftPacket::Chunk { chip: order / 16, chunk: order % 16 }
}

/// Reads the little-endian `i32` at `packet[at..at + 4]`.
fn read_le_i32(packet: &[u8], at: usize) -> (r: i32)
    requires
        at + 4 <= packet@.len(),
    ensures
        r == le_i32_of(packet@.subrange(at as int, at + 4)),
{
    let b0 = packet[at] as u32;
    let b1 = packet[at + 1] as u32;
    let b2 = packet[at + 2] as u32;
    let b3 = packet[at + 3] as u32;
    let u = b0 + b1 * 256 + b2 * 65536 + b3 * 16777216;
    u as i32
}

/// Collects the frames of one board's FFT upload: 8 chips of 2048 channels,
/// initially all `1 + 1i`, and the number of data frames taken in.
pub struct FftCollector {
    data: Vec<ComplexI32>,
    count: usize,
}

impl FftCollector {
    /// The collector holds exactly 8 rows of 2048 channels.
    pub closed spec fn wf(&self) -> bool {
        self.data@.len() == FFT_CHIPS * FFT_CHANNELS
    }

    /// All channels of all chips, chip after chip.
    pub closed spec fn values(&self) -> Seq<ComplexI32> {
        self.data@
    }

    /// The number of data frames taken in so far.
    pub closed spec fn spec_count(&self) -> nat {
        self.count as nat
    }

    pub fn new() -> (r: Self)
        ensures
            r.values() == Seq::new(
                (FFT_CHIPS * FFT_CHANNELS) as nat,
                |i: int| ComplexI32 { re: 1, im: 1 },
            ),
            r.spec_count() == 0,
            r.wf(),
    {
        let mut data: Vec<ComplexI32> = Vec::new();
        let mut i: usize = 0;
        while i < FFT_CHIPS * FFT_CHANNELS
            invariant
                i <= FFT_CHIPS * FFT_CHANNELS,
                data@ == Seq::new(i as nat, |j: int| ComplexI32 { re: 1, im: 1 }),
            decreases FFT_CHIPS * FFT_CHANNELS - i,
        {
            data.push(ComplexI32 { re: 1, im: 1 });
            i = i + 1;
            assert(data@ =~= Seq::new(i as nat, |j: int| ComplexI32 { re: 1, im: 1 }));
        }
        FftCollector { data, count: 0 }
    }

    pub fn count(&self) -> (r: usize)
        ensures
            r == self.spec_count(),
    {
        self.count
    }

    /// Takes in a received frame. A data frame of the board overwrites the
    /// 128 channels it carries and is counted; any other frame changes
    /// nothing. A data frame with sequence byte `s` fills channels
    /// `128 (s - 1) .. 128 s` of the data, counted chip after chip.
    pub fn accept(&mut self, packet: &[u8], board_mac: [u8; 6]) -> (r: FftPacket)
        requires
            old(self).wf(),
            old(self).spec_count() < usize::MAX,
        ensures
            final(self).wf(),
            r == spec_classify(packet@, board_mac@),
            r is Chunk ==> packet@.len() == FFT_PACKET_LEN && forall|j: int|
                #![trigger board_mac@[j]]
                0 <= j < 6 ==> packet@[6 + j] == board_mac@[j],
            match r {
                FftPacket::Chunk { chip, chunk } => {
                    let base = chip * FFT_CHANNELS + chunk * FFT_CHUNK_LEN;
                    &&& chip < FFT_CHIPS && chunk < FFT_CHUNKS_PER_CHIP
                    &&& final(self).spec_count() == old(self).spec_count() + 1
                    &&& final(self).values() == Seq::new(
                        old(self).values().len(),
                        |i: int|
                            if base <= i < base + FFT_CHUNK_LEN {
                                fft_value(packet@, i - base)
                            } else {
                                old(self).values()[i]
                            },
                    )
                },
                _ => *final(self) == *old(self),
            },
            r is Chunk ==> forall|t: int|
                0 <= t < 128 ==> #[trigger] final(self).values()[128 * (packet@[18] - 1) + t]
                    == fft_value(packet@, t),
    {
        let kind = classify_fft_packet(packet, board_mac);
        match kind {
            FftPacket::Chunk { chip, chunk } => {
                assert(chip < 8 && chunk < 16) by {
                    let s = packet@[18];
                    assert(1 <= s <= 128);
                    assert(chip == ((s - 1) / 16) as usize);
                    assert(chunk == ((s - 1) % 16) as usize);
                };
                let base = chip * FFT_CHANNELS + chunk * FFT_CHUNK_LEN;
                let ghost old_values = self.data@;
                let mut k: usize = 0;
                while k < FFT_CHUNK_LEN
                    invariant
                        k <= FFT_CHUNK_LEN,
                        self.count == old(self).count,
                        self.count < usize::MAX,
                        chip < FFT_CHIPS,
                        chunk < FFT_CHUNKS_PER_CHIP,
                        base == chip * FFT_CHANNELS + chunk * FFT_CHUNK_LEN,
                        packet@.len() == FFT_PACKET_LEN,
                        old_values.len() == FFT_CHIPS * FFT_CHANNELS,
                        self.data@ == Seq::new(
                            old_values.len(),
                            |i: int|
                                if base <= i < base + k {
                                    fft_value(packet@, i - base)
                                } else {
                                    old_values[i]
                                },
                        ),
                    decreases FFT_CHUNK_LEN - k,
                {
                    let at = FFT_DATA_OFFSET + 8 * k;
                    let re = read_le_i32(packet, at);
                    let im = read_le_i32(packet, at + 4);
                    self.data.set(base + k, ComplexI32 { re, im });
                    k = k + 1;
                    assert(self.data@ =~= Seq::new(
                        old_values.len(),
                        |i: int|
                            if base <= i < base + k {
                                fft_value(packet@, i - base)
                            } else {
                                old_values[i]
                            },
                    ));
                }
                self.count = self.count + 1;
                assert(base == 128 * (packet@[18] - 1)) by {
                    let s = packet@[18] - 1;
                    assert(chip == s / 16 && chunk == s % 16);
                    assert((s / 16) * 2048 + (s % 16) * 128 == 128 * s) by (nonlinear_arith)
                        requires
                            0 <= s,
                    ;
                };
            },
            _ => {},
        }
        kind
    }

    /// The uploaded data, one row of 2048 channels per chip, if exactly 128
    /// data frames were taken in; `None` otherwise.
    pub fn finish(self) -> (r: Option<Vec<Vec<ComplexI32>>>)
        requires
            self.wf(),
        ensures
            r is Some <==> self.spec_count() == FFT_PACKETS_PER_BOARD,
            r matches Some(rows) ==> {
                &&& rows@.len() == FFT_CHIPS
                &&& forall|c: int|
                    0 <= c < FFT_CHIPS ==> #[trigger] rows@[c]@ == self.values().subrange(
                        c * FFT_CHANNELS,
                        c * FFT_CHANNELS + FFT_CHANNELS,
                    )
            },
    {
        if self.count != FFT_PACKETS_PER_BOARD {
            return None;
        }
        let mut rows: Vec<Vec<ComplexI32>> = Vec::new();
        let mut c: usize = 0;
        while c < FFT_CHIPS
            invariant
                c <= FFT_CHIPS,
                self.data@.len() == FFT_CHIPS * FFT_CHANNELS,
                rows@.len() == c,
                forall|d: int|
                    0 <= d < c ==> #[trigger] rows@[d]@ == self.data@.subrange(
                        d * FFT_CHANNELS,
                        d * FFT_CHANNELS + FFT_CHANNELS,
                    ),
            decreases FFT_CHIPS - c,
        {
            let start = c * FFT_CHANNELS;
            let mut row: Vec<ComplexI32> = Vec::new();
            let mut j: usize = 0;
            while j < FFT_CHANNELS
                invariant
                    c < FFT_CHIPS,
                    start == c * FFT_CHANNELS,
                    j <= FFT_CHANNELS,
                    self.data@.len() == FFT_CHIPS * FFT_CHANNELS,
                    row@ == self.data@.subrange(start as int, start + j),
                decreases FFT_CHANNELS - j,
            {
                row.push(self.data[start + j]);
                j = j + 1;
                assert(row@ =~= self.data@.subrange(start as int, start + j));
            }
            rows.push(row);
            c = c + 1;
        }
        Some(rows)
    }
}

/// Number of rows of the combined FFT data of all 16 boards.
pub const FFT_ROWS_ALL_BOARDS: usize = 128;

/// Row `k` of board `bid` in the combined data: the board's row `k` when
/// its upload was complete and has such a row, empty otherwise.
pub open spec fn combined_row(boards: Seq<Option<Vec<Vec<ComplexI32>>>>, bid: int, k: int) -> Seq<ComplexI32> {
    if 0 <= bid < boards.len() && boards[bid] is Some && k < boards[bid]->0@.len() {
        boards[bid]->0@[k]@
    } else {
        Seq::empty()
    }
}

/// Combines the uploads of the boards into 128 rows, board `bid` filling
/// rows `bid * 8 .. bid * 8 + 8` with its first (at most 8) rows. Rows of a
/// board whose upload failed stay empty.
pub fn assemble_fft_data(boards: Vec<Option<Vec<Vec<ComplexI32>>>>) -> (r: Vec<Vec<ComplexI32>>)
    requires
        boards@.len() <= 16,
    ensures
        r@.len() == FFT_ROWS_ALL_BOARDS,
        forall|bid: int, k: int|
            0 <= bid < 16 && 0 <= k < 8 ==> #[trigger] r@[bid * 8 + k]@ == combined_row(
                boards@,
                bid,
                k,
            ),
{
    let ghost orig = boards@;
    let mut boards = boards;
    let mut result: Vec<Vec<ComplexI32>> = Vec::new();
    let mut i: usize = 0;
    while i < FFT_ROWS_ALL_BOARDS
        invariant
            i <= FFT_ROWS_ALL_BOARDS,
            result@.len() == i,
            forall|j: int| 0 <= j < i ==> #[trigger] result@[j]@ == Seq::<ComplexI32>::empty(),
        decreases FFT_ROWS_ALL_BOARDS - i,
    {
        result.push(Vec::new());
        i = i + 1;
    }
    while boards.len() > 0
        invariant
            boards@.len() <= orig.len(),
            orig.len() <= 16,
            boards@ == orig.subrange(0, boards@.len() as int),
            result@.len() == FFT_ROWS_ALL_BOARDS,
            forall|bid: int, k: int|
                0 <= bid < 16 && 0 <= k < 8 ==> #[trigger] result@[bid * 8 + k]@ == if bid
                    >= boards@.len() {
                    combined_row(orig, bid, k)
                } else {
                    Seq::empty()
                },
        decreases boards@.len(),
    {
        let bid = boards.len() - 1;
        let entry = boards.pop();
        assert(boards@ =~= orig.subrange(0, bid as int));
        match entry {
            Some(Some(rows)) => {
                let ghost all = rows@;
                assert(orig[bid as int] == Some(rows));
                let mut rows = rows;
                rows.truncate(8);
                let ghost kept = rows@;
                while rows.len() > 0
                    invariant
                        bid < 16,
                        bid < orig.len(),
                        boards@.len() == bid,
                        orig[bid as int] is Some,
                        orig[bid as int]->0@ == all,
                        kept.len() <= 8,
                        kept.len() == all.len() || kept.len() == 8,
                        kept.len() <= all.len(),
                        forall|j: int| 0 <= j < kept.len() ==> #[trigger] kept[j] == all[j],
                        rows@.len() <= kept.len(),
                        rows@ == kept.subrange(0, rows@.len() as int),
                        result@.len() == FFT_ROWS_ALL_BOARDS,
                        forall|b: int, k: int|
                            0 <= b < 16 && 0 <= k < 8 ==> #[trigger] result@[b * 8 + k]@ == if b
                                > bid || (b == bid && k >= rows@.len()) {
                                combined_row(orig, b, k)
                            } else {
                                Seq::empty()
                            },
                    decreases rows@.len(),
                {
                    let k = rows.len() - 1;
                    let row = rows.pop().unwrap();
                    assert(rows@ =~= kept.subrange(0, k as int));
                    result.set(bid * 8 + k, row);
                    assert forall|b: int, kk: int|
                        0 <= b < 16 && 0 <= kk < 8 implies #[trigger] result@[b * 8 + kk]@ == if b
                        > bid || (b == bid && kk >= rows@.len()) {
                        combined_row(orig, b, kk)
                    } else {
                        Seq::empty()
                    } by {
                        if b * 8 + kk == bid * 8 + k {
                            assert(b == bid && kk == k);
                        }
                    }
                }
            },
            _ => {},
        }
    }
    result
}

} // verus!
