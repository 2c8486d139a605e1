use vstd::prelude::*;

use crate::msg::adc_msg::AdcMsg;
use crate::utils::{push_zeros, zeros};

verus! {

broadcast use vstd::seq_lib::group_seq_properties;

/// Length of the Ethernet, IPv4 and UDP headers in front of a UDP payload.
pub const UDP_HDR_LEN: usize = 42;

/// Raw frames carry at least this many payload bytes after the type byte.
pub const MIN_PAYLOAD_LEN: usize = 80;

/// Largest UDP payload that fits an IPv4 datagram without options.
pub const MAX_UDP_PAYLOAD_LEN: usize = 65507;

/// Big-endian bytes of a 16-bit value.
pub open spec fn be16(v: u16) -> Seq<u8> {
    seq![(v / 256) as u8, (v % 256) as u8]
}

/// `buf` cut into consecutive pieces of `size` bytes, the last one shorter
/// if `size` does not divide the length.
pub open spec fn chunks(buf: Seq<u8>, size: nat) -> Seq<Seq<u8>>
    recommends
        size > 0,
    decreases buf.len(),
{
    if buf.len() == 0 || size == 0 {
        Seq::empty()
    } else if buf.len() <= size {
        seq![buf]
    } else {
        seq![buf.take(size as int)] + chunks(buf.skip(size as int), size)
    }
}

/// Number of payload bytes a raw frame carries for a piece of `n` bytes.
pub open spec fn padded_len(n: nat) -> nat {
    if n < MIN_PAYLOAD_LEN {
        MIN_PAYLOAD_LEN as nat
    } else {
        n
    }
}

/// One raw frame: destination and source MAC, the big-endian length of the
/// type byte plus padded payload (low 16 bits), the type byte, then the piece
/// padded with zeros to at least 80 bytes.
pub open spec fn raw_frame(msg_type: u8, piece: Seq<u8>, dst_mac: Seq<u8>, src_mac: Seq<u8>) -> Seq<u8> {
    let len = padded_len(piece.len()) + 1;
    dst_mac + src_mac + seq![((len / 256) % 256) as u8, (len % 256) as u8] + seq![msg_type] + piece
        + zeros((padded_len(piece.len()) - piece.len()) as nat)
}

/// The frames that carry `buf`: one frame per piece of at most
/// `mtu_len - 1` bytes, or a single frame of padding when `buf` is empty.
pub open spec fn raw_frames(
    msg_type: u8,
    buf: Seq<u8>,
    dst_mac: Seq<u8>,
    src_mac: Seq<u8>,
    mtu_len: nat,
) -> Seq<Seq<u8>> {
    if buf.len() == 0 {
        seq![raw_frame(msg_type, Seq::empty(), dst_mac, src_mac)]
    } else {
        chunks(buf, (mtu_len - 1) as nat).map_values(
            |p: Seq<u8>| raw_frame(msg_type, p, dst_mac, src_mac),
        )
    }
}

/// Builds the raw frame that carries `buf[start..end]`.
fn build_raw_frame(
    msg_type: u8,
    buf: &[u8],
    start: usize,
    end: usize,
    dst_mac: [u8; 6],
    src_mac: [u8; 6],
) -> (r: Vec<u8>)
    requires
        start <= end <= buf@.len(),
        end - start < usize::MAX,
    ensures
        r@ == raw_frame(msg_type, buf@.subrange(start as int, end as int), dst_mac@, src_mac@),
{
    let mut payload: Vec<u8> = Vec::new();
    let mut k = start;
    while k < end
        invariant
            start <= k <= end,
            end <= buf@.len(),
            payload@ == buf@.subrange(start as int, k as int),
        decreases end - k,
    {
        payload.push(buf[k]);
        k = k + 1;
        assert(payload@ =~= buf@.subrange(start as int, k as int));
    }
    let piece_len = payload.len();
    if piece_len < MIN_PAYLOAD_LEN {
        push_zeros(&mut payload, MIN_PAYLOAD_LEN - piece_len);
    } else {
        assert(payload@ =~= payload@ + zeros(0));
    }
    let payload_len = payload.len() + 1;
    let mut frame: Vec<u8> = Vec::new();
    frame.extend_from_slice(dst_mac.as_slice());
    frame.extend_from_slice(src_mac.as_slice());
    frame.push(((payload_len / 256) % 256) as u8);
    frame.push((payload_len % 256) as u8);
    frame.push(msg_type);
    frame.append(&mut payload);
    assert(frame@ =~= raw_frame(
        msg_type,
        buf@.subrange(start as int, end as int),
        dst_mac@,
        src_mac@,
    ));
    frame
}

/// The Ethernet frames that carry one message payload to an ADC board.
pub fn raw_buffer_frames(
    msg_type: u8,
    buf: &[u8],
    dst_mac: [u8; 6],
    src_mac: [u8; 6],
    mtu_len: usize,
) -> (r: Vec<Vec<u8>>)
    requires
        buf@.len() > 0 ==> mtu_len >= 2,
    ensures
        r@.map_values(|f: Vec<u8>| f@) == raw_frames(msg_type, buf@, dst_mac@, src_mac@, mtu_len as nat),
{
    let mut result: Vec<Vec<u8>> = Vec::new();
    if buf.len() == 0 {
        let frame = build_raw_frame(msg_type, buf, 0, 0, dst_mac, src_mac);
        assert(buf@.subrange(0, 0) =~= Seq::<u8>::empty());
        result.push(frame);
        assert(result@.map_values(|f: Vec<u8>| f@) =~= raw_frames(
            msg_type,
            buf@,
            dst_mac@,
            src_mac@,
            mtu_len as nat,
        ));
        return result;
    }
    let size = mtu_len - 1;
    let ghost g = |p: Seq<u8>| raw_frame(msg_type, p, dst_mac@, src_mac@);
    let n = buf.len();
    let mut pos: usize = 0;
    while pos < n
        invariant
            size > 0,
            size == mtu_len - 1,
            n == buf@.len(),
            pos <= n,
            g == (|p: Seq<u8>| raw_frame(msg_type, p, dst_mac@, src_mac@)),
            chunks(buf@, size as nat).map_values(g) == result@.map_values(|f: Vec<u8>| f@)
                + chunks(buf@.skip(pos as int), size as nat).map_values(g),
        decreases n - pos,
    {
        let end = if n - pos <= size {
            n
        } else {
            pos + size
        };
        let frame = build_raw_frame(msg_type, buf, pos, end, dst_mac, src_mac);
        let ghost old_result = result@;
        result.push(frame);
        proof {
            let rest = buf@.skip(pos as int);
            assert(rest.take((end - pos) as int) =~= buf@.subrange(pos as int, end as int));
            assert(rest.skip((end - pos) as int) =~= buf@.skip(end as int));
            if rest.len() <= size {
                assert(rest =~= buf@.subrange(pos as int, end as int));
                assert(buf@.skip(end as int).len() == 0);
            }
            assert(chunks(rest, size as nat) =~= seq![buf@.subrange(pos as int, end as int)]
                + chunks(buf@.skip(end as int), size as nat));
            assert(chunks(rest, size as nat).map_values(g) =~= seq![frame@] + chunks(
                buf@.skip(end as int),
                size as nat,
            ).map_values(g));
            assert(result@.map_values(|f: Vec<u8>| f@) =~= old_result.map_values(
                |f: Vec<u8>| f@,
            ).push(frame@));
        }
        pos = end;
    }
    assert(chunks(buf@.skip(n as int), size as nat) =~= Seq::<Seq<u8>>::empty());
    assert(chunks(buf@.skip(n as int), size as nat).map_values(g) =~= Seq::<Seq<u8>>::empty());
    result
}

/// Splitting a buffer into pieces loses nothing and reorders nothing: the
/// pieces concatenate back to the buffer, and each piece holds between one
/// and `size` bytes.
pub proof fn lemma_chunks_reassemble(buf: Seq<u8>, size: nat)
    requires
        size > 0,
    ensures
        chunks(buf, size).flatten() == buf,
        forall|i: int|
            0 <= i < chunks(buf, size).len() ==> 0 < #[trigger] chunks(buf, size)[i].len() <= size,
    decreases buf.len(),
{
    if buf.len() == 0 {
        assert(chunks(buf, size).flatten() =~= buf);
    } else if buf.len() <= size {
        let c = chunks(buf, size);
        assert(c =~= seq![buf]);
        assert(c.drop_first() =~= Seq::<Seq<u8>>::empty());
        assert(c.drop_first().flatten() =~= Seq::<u8>::empty());
        assert(c.flatten() == c.first() + c.drop_first().flatten());
        assert(c.flatten() =~= buf);
    } else {
        let rest = buf.skip(size as int);
        lemma_chunks_reassemble(rest, size);
        let c = chunks(buf, size);
        assert(c.drop_first() =~= chunks(rest, size));
        assert(c.first() == buf.take(size as int));
        assert(buf =~= buf.take(size as int) + rest);
        assert forall|i: int| 0 <= i < c.len() implies 0 < #[trigger] c[i].len() <= size by {
            if i > 0 {
                assert(c[i] == chunks(rest, size)[i - 1]);
            }
        }
    }
}

/// End of piece `k` when `buf_len` bytes are cut into pieces of `size`.
pub open spec fn piece_end(buf_len: nat, size: nat, k: int) -> int {
    if (k + 1) * size <= buf_len {
        (k + 1) * size
    } else {
        buf_len as int
    }
}

/// Piece `k` of `buf` is bytes `k * size .. min((k + 1) * size, len)`.
proof fn lemma_chunk_at(buf: Seq<u8>, size: nat, k: int)
    requires
        size > 0,
        0 <= k < chunks(buf, size).len(),
    ensures
        0 <= k * size < piece_end(buf.len(), size, k) <= buf.len(),
        chunks(buf, size)[k] == buf.subrange(k * size, piece_end(buf.len(), size, k)),
    decreases buf.len(),
{
    let len = buf.len();
    if len <= size {
        assert(chunks(buf, size) =~= seq![buf]);
        assert(k == 0);
        assert(0 * size == 0);
        assert(buf.subrange(0, piece_end(len, size, 0)) =~= buf);
    } else {
        let rest = buf.skip(size as int);
        let cr = chunks(rest, size);
        assert(chunks(buf, size) =~= seq![buf.take(size as int)] + cr);
        if k == 0 {
            assert(0 * size == 0);
            assert((0int + 1) * size == size);
            assert(piece_end(len, size, 0) == size);
            assert(buf.take(size as int) =~= buf.subrange(0, piece_end(len, size, 0)));
        } else {
            lemma_chunk_at(rest, size, k - 1);
            assert((k - 1) * size + size == k * size) by (nonlinear_arith);
            assert(k * size + size == (k + 1) * size) by (nonlinear_arith);
            assert(piece_end(rest.len(), size, k - 1) + size == piece_end(len, size, k));
            assert(cr[k - 1] =~= buf.subrange(k * size, piece_end(len, size, k)));
        }
    }
}

/// A buffer is cut into `ceil(len / size)` pieces.
proof fn lemma_chunks_count(buf: Seq<u8>, size: nat)
    requires
        size > 0,
    ensures
        chunks(buf, size).len() == (buf.len() + size - 1) / (size as int),
    decreases buf.len(),
{
    let len = buf.len();
    if len == 0 {
        assert((len + size - 1) / (size as int) == 0) by (nonlinear_arith)
            requires
                len == 0,
                size > 0,
        ;
    } else if len <= size {
        assert((len + size - 1) / (size as int) == 1) by (nonlinear_arith)
            requires
                0 < len <= size,
        ;
    } else {
        let rest = buf.skip(size as int);
        lemma_chunks_count(rest, size);
        assert(chunks(buf, size) =~= seq![buf.take(size as int)] + chunks(rest, size));
        assert((len + size - 1) / (size as int) == 1 + (rest.len() + size - 1) / (size as int))
            by (nonlinear_arith)
            requires
                rest.len() == len - size,
                len > size,
                size > 0,
        ;
    }
}

/// A buffer is cut at every multiple of `size`: there are
/// `ceil(len / size)` pieces, and piece `k` is bytes
/// `k * size .. min((k + 1) * size, len)`, so every piece but the last has
/// exactly `size` bytes.
pub proof fn lemma_chunks_cut_at_size(buf: Seq<u8>, size: nat)
    requires
        size > 0,
    ensures
        chunks(buf, size).len() == (buf.len() + size - 1) / (size as int),
        forall|k: int|
            0 <= k < chunks(buf, size).len() ==> (0 <= k * size && k * size < #[trigger] piece_end(
                buf.len(),
                size,
                k,
            ) && piece_end(buf.len(), size, k) <= buf.len()),
        forall|k: int|
            0 <= k < chunks(buf, size).len() ==> #[trigger] chunks(buf, size)[k] == buf.subrange(
                k * size,
                piece_end(buf.len(), size, k),
            ),
{
    lemma_chunks_count(buf, size);
    assert forall|k: int| 0 <= k < chunks(buf, size).len() implies (0 <= k * size && k * size
        < #[trigger] piece_end(buf.len(), size, k) && piece_end(buf.len(), size, k) <= buf.len()) by {
        lemma_chunk_at(buf, size, k);
    }
    assert forall|k: int| 0 <= k < chunks(buf, size).len() implies #[trigger] chunks(buf, size)[k]
        == buf.subrange(k * size, piece_end(buf.len(), size, k)) by {
        lemma_chunk_at(buf, size, k);
    }
}

/// The frames of a non-empty buffer: one per piece of `mtu_len - 1` bytes,
/// frame `k` carrying bytes `k * (mtu_len - 1) .. min((k + 1) * (mtu_len - 1),
/// len)` right after its 15 header bytes (destination MAC, source MAC, the
/// big-endian count of the bytes after them, the type byte), padded with
/// zeros to at least 80 payload bytes.
pub proof fn lemma_raw_frames_cut(
    msg_type: u8,
    buf: Seq<u8>,
    dst_mac: Seq<u8>,
    src_mac: Seq<u8>,
    mtu_len: nat,
)
    requires
        buf.len() > 0,
        mtu_len >= 2,
        dst_mac.len() == 6,
        src_mac.len() == 6,
    ensures
        ({
            let fr = raw_frames(msg_type, buf, dst_mac, src_mac, mtu_len);
            let size = (mtu_len - 1) as nat;
            &&& fr.len() == (buf.len() + size - 1) / (size as int)
            &&& forall|k: int|
                0 <= k < fr.len() ==> {
                    let start = k * size;
                    let end = piece_end(buf.len(), size, k);
                    &&& #[trigger] fr[k].len() == 15 + if end - start < MIN_PAYLOAD_LEN {
                        MIN_PAYLOAD_LEN as int
                    } else {
                        end - start
                    }
                    &&& fr[k].subrange(0, 6) == dst_mac
                    &&& fr[k].subrange(6, 12) == src_mac
                    &&& fr[k][12] * 256 + fr[k][13] == (fr[k].len() - 14) % 65536
                    &&& fr[k][14] == msg_type
                    &&& fr[k].subrange(15, 15 + end - start) == buf.subrange(start, end)
                    &&& forall|t: int| 15 + end - start <= t < fr[k].len() ==> fr[k][t] == 0
                }
        }),
{
    let size = (mtu_len - 1) as nat;
    lemma_chunks_cut_at_size(buf, size);
    lemma_chunks_reassemble(buf, size);
    let fr = raw_frames(msg_type, buf, dst_mac, src_mac, mtu_len);
    let c = chunks(buf, size);
    assert forall|k: int| 0 <= k < fr.len() implies {
        let start = k * size;
        let end = piece_end(buf.len(), size, k);
        &&& #[trigger] fr[k].len() == 15 + if end - start < MIN_PAYLOAD_LEN {
            MIN_PAYLOAD_LEN as int
        } else {
            end - start
        }
        &&& fr[k].subrange(0, 6) == dst_mac
        &&& fr[k].subrange(6, 12) == src_mac
        &&& fr[k][12] * 256 + fr[k][13] == (fr[k].len() - 14) % 65536
        &&& fr[k][14] == msg_type
        &&& fr[k].subrange(15, 15 + end - start) == buf.subrange(start, end)
        &&& forall|t: int| 15 + end - start <= t < fr[k].len() ==> fr[k][t] == 0
    } by {
        assert(c[k] == buf.subrange(k * size, piece_end(buf.len(), size, k)));
        assert(fr[k] == raw_frame(msg_type, c[k], dst_mac, src_mac));
        lemma_raw_frame_header(msg_type, c[k], dst_mac, src_mac);
    }
}

/// An empty buffer is sent as a single frame of 95 bytes: destination MAC,
/// source MAC, the length 81 (0x00 0x51), the type byte and 80 zeros.
pub proof fn lemma_raw_frames_empty(
    msg_type: u8,
    dst_mac: Seq<u8>,
    src_mac: Seq<u8>,
    mtu_len: nat,
)
    requires
        dst_mac.len() == 6,
        src_mac.len() == 6,
    ensures
        ({
            let fr = raw_frames(msg_type, Seq::empty(), dst_mac, src_mac, mtu_len);
            &&& fr.len() == 1
            &&& fr[0].len() == 95
            &&& fr[0].subrange(0, 6) == dst_mac
            &&& fr[0].subrange(6, 12) == src_mac
            &&& fr[0][12] == 0
            &&& fr[0][13] == 81
            &&& fr[0][14] == msg_type
            &&& forall|t: int| 15 <= t < 95 ==> fr[0][t] == 0
        }),
{
    let f = raw_frame(msg_type, Seq::empty(), dst_mac, src_mac);
    lemma_raw_frame_header(msg_type, Seq::empty(), dst_mac, src_mac);
    assert(raw_frames(msg_type, Seq::empty(), dst_mac, src_mac, mtu_len) =~= seq![f]);
    assert(f[12] == 0 && f[13] == 81);
}

/// Every raw frame is at least 95 bytes long, starts with the destination
/// and source MAC, holds in bytes 12..14 the number of bytes that follow
/// them (modulo 65536, big-endian), the message type in byte 14, and the
/// piece it carries right after, followed only by zeros.
pub proof fn lemma_raw_frame_header(msg_type: u8, piece: Seq<u8>, dst_mac: Seq<u8>, src_mac: Seq<u8>)
    requires
        dst_mac.len() == 6,
        src_mac.len() == 6,
    ensures
        ({
            let f = raw_frame(msg_type, piece, dst_mac, src_mac);
            &&& f.len() == 15 + padded_len(piece.len())
            &&& f.len() >= 15 + MIN_PAYLOAD_LEN
            &&& f.subrange(0, 6) == dst_mac
            &&& f.subrange(6, 12) == src_mac
            &&& f[12] * 256 + f[13] == (f.len() - 14) % 65536
            &&& f[14] == msg_type
            &&& f.subrange(15, 15 + piece.len() as int) == piece
            &&& forall|i: int| 15 + piece.len() <= i < f.len() ==> f[i] == 0
        }),
{
    let f = raw_frame(msg_type, piece, dst_mac, src_mac);
    let len = padded_len(piece.len()) + 1;
    assert(f.subrange(0, 6) =~= dst_mac);
    assert(f.subrange(6, 12) =~= src_mac);
    assert(f.subrange(15, 15 + piece.len() as int) =~= piece);
    assert(((len / 256) % 256) * 256 + len % 256 == len % 65536) by (nonlinear_arith)
        requires
            len >= 0,
    ;
}

/// All frames of an ADC message: the frames of each of its packets, in
/// packet order.
pub open spec fn adc_msg_frames_spec(msg: AdcMsg, dst_mac: Seq<u8>, src_mac: Seq<u8>, mtu_len: nat) -> Seq<Seq<u8>> {
    msg.spec_raw_data().map_values(
        |p: Seq<u8>| raw_frames(msg.spec_msg_type_code(), p, dst_mac, src_mac, mtu_len),
    ).flatten()
}

/// The Ethernet frames that deliver `msg` to the board at `dst_mac`.
pub fn adc_msg_frames(msg: &AdcMsg, dst_mac: [u8; 6], src_mac: [u8; 6], mtu_len: usize) -> (r: Vec<Vec<u8>>)
    requires
        msg.spec_well_formed(),
        forall|k: int|
            0 <= k < msg.spec_raw_data().len() ==> #[trigger] msg.spec_raw_data()[k].len() > 0
                ==> mtu_len >= 2,
    ensures
        r@.map_values(|f: Vec<u8>| f@) == adc_msg_frames_spec(*msg, dst_mac@, src_mac@, mtu_len as nat),
{
    let msg_type = msg.msg_type_code();
    let packets = msg.get_raw_data();
    let ghost pv = packets@.map_values(|p: Vec<u8>| p@);
    assert(pv == msg.spec_raw_data());
    let ghost g = |p: Seq<u8>| raw_frames(msg_type, p, dst_mac@, src_mac@, mtu_len as nat);
    let mut result: Vec<Vec<u8>> = Vec::new();
    let mut i: usize = 0;
    while i < packets.len()
        invariant
            forall|k: int| 0 <= k < pv.len() ==> #[trigger] pv[k].len() > 0 ==> mtu_len >= 2,
            i <= packets@.len(),
            pv == packets@.map_values(|p: Vec<u8>| p@),
            g == (|p: Seq<u8>| raw_frames(msg_type, p, dst_mac@, src_mac@, mtu_len as nat)),
            result@.map_values(|f: Vec<u8>| f@) == pv.subrange(0, i as int).map_values(g).flatten(),
        decreases packets@.len() - i,
    {
        assert(pv[i as int] == packets@[i as int]@);
        let mut frames = raw_buffer_frames(msg_type, packets[i].as_slice(), dst_mac, src_mac, mtu_len);
        let ghost before = result@;
        let ghost fr = frames@;
        result.append(&mut frames);
        assert(result@.map_values(|f: Vec<u8>| f@) =~= before.map_values(|f: Vec<u8>| f@)
            + fr.map_values(|f: Vec<u8>| f@));
        proof {
            assert(pv.subrange(0, i + 1).map_values(g) =~= pv.subrange(0, i as int).map_values(
                g,
            ).push(g(pv[i as int])));
            pv.subrange(0, i as int).map_values(g).lemma_flatten_push(g(pv[i as int]));
        }
        i = i + 1;
    }
    assert(pv.subrange(0, i as int) =~= pv);
    result
}

/// The Ethernet II / IPv4 / UDP frame that etherparse's `PacketBuilder`
/// writes for these addresses, time to live, ports and payload.
pub uninterp spec fn etherparse_udp_frame(
    src_mac: Seq<u8>,
    dst_mac: Seq<u8>,
    src_ip: Seq<u8>,
    dst_ip: Seq<u8>,
    ttl: u8,
    src_port: u16,
    dst_port: u16,
    payload: Seq<u8>,
) -> Seq<u8>;

/// The fields of an Ethernet II / IPv4 / UDP frame other than the two
/// checksums: MACs, ether type 0x0800, IPv4 version 4 with a 20-byte header,
/// total length, identification 0, "don't fragment", TTL, protocol 17
/// (UDP), addresses, ports, UDP length, and the payload after 42 bytes of
/// headers. Multi-byte fields are big-endian.
pub open spec fn udp_frame_fields(
    frame: Seq<u8>,
    src_mac: Seq<u8>,
    dst_mac: Seq<u8>,
    src_ip: Seq<u8>,
    dst_ip: Seq<u8>,
    ttl: u8,
    src_port: u16,
    dst_port: u16,
    payload: Seq<u8>,
) -> bool {
    &&& frame.len() == UDP_HDR_LEN + payload.len()
    &&& frame.subrange(0, 6) == dst_mac
    &&& frame.subrange(6, 12) == src_mac
    &&& frame.subrange(12, 16) == seq![0x08u8, 0x00u8, 0x45u8, 0x00u8]
    &&& frame.subrange(16, 18) == be16((28 + payload.len()) as u16)
    &&& frame.subrange(18, 24) == seq![0u8, 0u8, 0x40u8, 0u8, ttl, 17u8]
    &&& frame.subrange(26, 30) == src_ip
    &&& frame.subrange(30, 34) == dst_ip
    &&& frame.subrange(34, 36) == be16(src_port)
    &&& frame.subrange(36, 38) == be16(dst_port)
    &&& frame.subrange(38, 40) == be16((8 + payload.len()) as u16)
    &&& frame.subrange(42, frame.len() as int) == payload
}

/// Calls etherparse's `PacketBuilder::ethernet2(..).ipv4(..).udp(..).write`
/// into an empty `Vec`. Trusted: the frame is the one named
/// `etherparse_udp_frame` of these arguments, and every field but the IPv4
/// header checksum and the UDP checksum is as `udp_frame_fields` lays out
/// (etherparse computes both checksums; their values are not stated here).
/// The write only fails for a payload longer than 65507 bytes, which the
/// precondition excludes.
#[verifier::external_body]
fn etherparse_write_udp(
    src_mac: [u8; 6],
    dst_mac: [u8; 6],
    src_ip: [u8; 4],
    dst_ip: [u8; 4],
    ttl: u8,
    src_port: u16,
    dst_port: u16,
    payload: &[u8],
) -> (r: Vec<u8>)
    requires
        payload@.len() <= MAX_UDP_PAYLOAD_LEN,
    ensures
        r@ == etherparse_udp_frame(
            src_mac@,
            dst_mac@,
            src_ip@,
            dst_ip@,
            ttl,
            src_port,
            dst_port,
            payload@,
        ),
        udp_frame_fields(r@, src_mac@, dst_mac@, src_ip@, dst_ip@, ttl, src_port, dst_port, payload@),
{
    let builder = etherparse::PacketBuilder::ethernet2(src_mac, dst_mac).ipv4(src_ip, dst_ip, ttl).udp(
        src_port,
        dst_port,
    );
    let mut r = Vec::new();
    builder.write(&mut r, payload).expect("udp packet compose err");
    r
}

/// Time to live of the IPv4 datagrams sent to the SNAP2 board.
pub const UDP_TTL: u8 = 0xff;

/// The UDP frame that carries `buf` from `src` to `dst`, with time to
/// live 255.
pub fn udp_buffer_frame(
    buf: &[u8],
    dst_mac: [u8; 6],
    src_mac: [u8; 6],
    dst_ip: [u8; 4],
    src_ip: [u8; 4],
    dst_port: u16,
    src_port: u16,
) -> (r: Vec<u8>)
    requires
        buf@.len() <= MAX_UDP_PAYLOAD_LEN,
    ensures
        r@ == etherparse_udp_frame(
            src_mac@,
            dst_mac@,
            src_ip@,
            dst_ip@,
            UDP_TTL,
            src_port,
            dst_port,
            buf@,
        ),
        udp_frame_fields(r@, src_mac@, dst_mac@, src_ip@, dst_ip@, UDP_TTL, src_port, dst_port, buf@),
{
    etherparse_write_udp(src_mac, dst_mac, src_ip, dst_ip, UDP_TTL, src_port, dst_port, buf)
}

} // verus!
