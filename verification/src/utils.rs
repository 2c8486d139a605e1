use vstd::prelude::*;
use vstd::string::StrSliceExecFns;

verus! {

/// Little-endian bytes of a 16-bit value.
pub open spec fn le16(v: u16) -> Seq<u8> {
    seq![(v % 256) as u8, (v / 256) as u8]
}

/// Little-endian bytes of a 32-bit value.
pub open spec fn le32(v: u32) -> Seq<u8> {
    seq![
        (v % 256) as u8,
        ((v / 256) % 256) as u8,
        ((v / 65536) % 256) as u8,
        (v / 16777216) as u8,
    ]
}

/// Little-endian bytes of a 64-bit value: the low word, then the high word.
pub open spec fn le64(v: u64) -> Seq<u8> {
    le32((v % 4294967296) as u32) + le32((v / 4294967296) as u32)
}

/// Appends the little-endian bytes of `v`.
pub fn push_le16(out: &mut Vec<u8>, v: u16)
    ensures
        final(out)@ == old(out)@ + le16(v),
{
    out.push((v % 256) as u8);
    out.push((v / 256) as u8);
    assert(out@ =~= old(out)@ + le16(v));
}

/// Appends the little-endian bytes of `v`.
pub fn push_le32(out: &mut Vec<u8>, v: u32)
    ensures
        final(out)@ == old(out)@ + le32(v),
{
    out.push((v % 256) as u8);
    out.push(((v / 256) % 256) as u8);
    out.push(((v / 65536) % 256) as u8);
    out.push((v / 16777216) as u8);
    assert(out@ =~= old(out)@ + le32(v));
}

/// Appends the little-endian bytes of `v`.
pub fn push_le64(out: &mut Vec<u8>, v: u64)
    ensures
        final(out)@ == old(out)@ + le64(v),
{
    push_le32(out, (v % 4294967296) as u32);
    push_le32(out, (v / 4294967296) as u32);
    assert(out@ =~= old(out)@ + le64(v));
}

/// `n` zero bytes.
pub open spec fn zeros(n: nat) -> Seq<u8> {
    Seq::new(n, |i: int| 0u8)
}

/// Appends `n` zero bytes.
pub fn push_zeros(out: &mut Vec<u8>, n: usize)
    ensures
        final(out)@ == old(out)@ + zeros(n as nat),
{
    let mut i: usize = 0;
    while i < n
        invariant
            i <= n,
            out@ == old(out)@ + zeros(i as nat),
        decreases n - i,
    {
        out.push(0u8);
        i = i + 1;
        assert(out@ =~= old(out)@ + zeros(i as nat));
    }
}

/// Appends the bytes of `a` in reverse order.
pub fn push_reversed(out: &mut Vec<u8>, a: &[u8])
    ensures
        final(out)@ == old(out)@ + a@.reverse(),
{
    let n = a.len();
    let mut i: usize = n;
    while i > 0
        invariant
            i <= n,
            n == a@.len(),
            out@ == old(out)@ + a@.subrange(i as int, n as int).reverse(),
        decreases i,
    {
        i = i - 1;
        out.push(a[i]);
        assert(a@.subrange(i as int, n as int).reverse() =~= a@.subrange(
            (i + 1) as int,
            n as int,
        ).reverse().push(a@[i as int]));
    }
    assert(a@.subrange(0, n as int) =~= a@);
}

/// Values whose in-memory representation on a little-endian machine is
/// their little-endian byte sequence.
pub trait LeBytes {
    /// The bytes of the value, least significant first.
    spec fn le_bytes_spec(&self) -> Seq<u8>;

    /// The bytes of the value, least significant first.
    fn le_bytes(&self) -> (r: Vec<u8>)
        ensures
            r@ == self.le_bytes_spec(),
    ;
}

impl LeBytes for u16 {
    open spec fn le_bytes_spec(&self) -> Seq<u8> {
        le16(*self)
    }

    fn le_bytes(&self) -> (r: Vec<u8>) {
        let mut r = Vec::new();
        push_le16(&mut r, *self);
        r
    }
}

impl LeBytes for i16 {
    open spec fn le_bytes_spec(&self) -> Seq<u8> {
        le16(*self as u16)
    }

    fn le_bytes(&self) -> (r: Vec<u8>) {
        let mut r = Vec::new();
        push_le16(&mut r, *self as u16);
        r
    }
}

impl LeBytes for u32 {
    open spec fn le_bytes_spec(&self) -> Seq<u8> {
        le32(*self)
    }

    fn le_bytes(&self) -> (r: Vec<u8>) {
        let mut r = Vec::new();
        push_le32(&mut r, *self);
        r
    }
}

impl LeBytes for i32 {
    open spec fn le_bytes_spec(&self) -> Seq<u8> {
        le32(*self as u32)
    }

    fn le_bytes(&self) -> (r: Vec<u8>) {
        let mut r = Vec::new();
        push_le32(&mut r, *self as u32);
        r
    }
}

impl LeBytes for u64 {
    open spec fn le_bytes_spec(&self) -> Seq<u8> {
        le64(*self)
    }

    fn le_bytes(&self) -> (r: Vec<u8>) {
        let mut r = Vec::new();
        push_le64(&mut r, *self);
        r
    }
}

/// The bytes of `src` as they lie in memory on a little-endian machine.
pub fn to_u8_slice<T: LeBytes>(src: &T) -> (r: Vec<u8>)
    ensures
        r@ == src.le_bytes_spec(),
{
    src.le_bytes()
}

/// Whether two strings hold the same characters.
pub fn str_eq(a: &str, b: &str) -> (r: bool)
    ensures
        r == (a@ == b@),
{
    let n = a.unicode_len();
    if n != b.unicode_len() {
        return false;
    }
    let mut i: usize = 0;
    while i < n
        invariant
            i <= n,
            n == a@.len(),
            n == b@.len(),
            forall|j: int| 0 <= j < i ==> a@[j] == b@[j],
        decreases n - i,
    {
        if a.get_char(i) != b.get_char(i) {
            return false;
        }
        i = i + 1;
    }
    assert(a@ =~= b@);
    true
}

/// Indexing into the concatenation of rows that all have `w` elements.
pub proof fn lemma_flatten_uniform<A>(s: Seq<Seq<A>>, w: nat, i: int, n: int)
    requires
        forall|k: int| 0 <= k < s.len() ==> #[trigger] s[k].len() == w,
        0 <= i < s.len(),
        0 <= n < w,
    ensures
        s.flatten().len() == w * s.len(),
        s.flatten()[w * i + n] == s[i][n],
    decreases s.len(),
{
    let init = s.drop_last();
    s.drop_last().lemma_flatten_push(s.last());
    assert(init.push(s.last()) =~= s);
    if i < s.len() - 1 {
        lemma_flatten_uniform(init, w, i, n);
        assert(w * i + n < w * init.len()) by (nonlinear_arith)
            requires
                i < init.len(),
                n < w,
        ;
    } else {
        if init.len() > 0 {
            lemma_flatten_uniform(init, w, 0, 0);
        } else {
            assert(init.flatten() =~= Seq::<A>::empty());
        }
        assert(w * i == w * init.len());
    }
    assert(w * s.len() == w * init.len() + w) by (nonlinear_arith)
        requires
            s.len() == init.len() + 1,
    ;
}

/// Row `k` of a concatenation of rows that all have `w` elements sits at
/// `w * k .. w * k + w`.
pub proof fn lemma_flatten_uniform_row<A>(s: Seq<Seq<A>>, w: nat, k: int)
    requires
        forall|r: int| 0 <= r < s.len() ==> #[trigger] s[r].len() == w,
        0 <= k < s.len(),
    ensures
        s.flatten().len() == w * s.len(),
        s.flatten().subrange(w * k, w * k + w) == s[k],
{
    if w > 0 {
        lemma_flatten_uniform(s, w, k, 0);
        assert(w * k + w <= w * s.len()) by (nonlinear_arith)
            requires
                k < s.len(),
        ;
        assert(0 <= w * k) by (nonlinear_arith)
            requires
                k >= 0,
        ;
        assert forall|t: int| 0 <= t < w implies #[trigger] s.flatten().subrange(
            w * k,
            w * k + w,
        )[t] == s[k][t] by {
            lemma_flatten_uniform(s, w, k, t);
        }
        assert(s.flatten().subrange(w * k, w * k + w) =~= s[k]);
    } else {
        assert(s[k] =~= Seq::<A>::empty());
        assert(s.flatten().len() == 0) by {
            lemma_flatten_zero(s);
        }
        assert(s.flatten().subrange(0, 0) =~= s[k]);
    }
}

/// Rows that are all empty concatenate to nothing.
proof fn lemma_flatten_zero<A>(s: Seq<Seq<A>>)
    requires
        forall|r: int| 0 <= r < s.len() ==> #[trigger] s[r].len() == 0,
    ensures
        s.flatten().len() == 0,
    decreases s.len(),
{
    if s.len() > 0 {
        lemma_flatten_zero(s.drop_last());
        s.drop_last().lemma_flatten_push(s.last());
        assert(s.drop_last().push(s.last()) =~= s);
    } else {
        assert(s.flatten() =~= Seq::<A>::empty());
    }
}

/// The little-endian encodings are positional: byte `t` weighs `256^t`, so
/// summing the weighted bytes gives back the value.
pub proof fn lemma_le_bytes_value(a: u16, b: u32, c: u64)
    ensures
        le16(a).len() == 2 && le16(a)[0] + 256 * le16(a)[1] == a,
        le32(b).len() == 4 && le32(b)[0] + 256 * le32(b)[1] + 65536 * le32(b)[2] + 16777216 * le32(
            b,
        )[3] == b,
        le64(c).len() == 8 && le64(c)[0] + 256 * le64(c)[1] + 65536 * le64(c)[2] + 16777216 * le64(
            c,
        )[3] + 4294967296 * (le64(c)[4] + 256 * le64(c)[5] + 65536 * le64(c)[6] + 16777216 * le64(
            c,
        )[7]) == c,
{
    let lo = (c % 4294967296) as u32;
    let hi = (c / 4294967296) as u32;
    assert(le32(b)[0] + 256 * le32(b)[1] + 65536 * le32(b)[2] + 16777216 * le32(b)[3] == b)
        by (nonlinear_arith)
        requires
            le32(b)[0] == b % 256,
            le32(b)[1] == (b / 256) % 256,
            le32(b)[2] == (b / 65536) % 256,
            le32(b)[3] == b / 16777216,
            b < 0x1_0000_0000,
    ;
    assert(le32(lo)[0] + 256 * le32(lo)[1] + 65536 * le32(lo)[2] + 16777216 * le32(lo)[3] == lo)
        by (nonlinear_arith)
        requires
            le32(lo)[0] == lo % 256,
            le32(lo)[1] == (lo / 256) % 256,
            le32(lo)[2] == (lo / 65536) % 256,
            le32(lo)[3] == lo / 16777216,
            lo < 0x1_0000_0000,
    ;
    assert(le32(hi)[0] + 256 * le32(hi)[1] + 65536 * le32(hi)[2] + 16777216 * le32(hi)[3] == hi)
        by (nonlinear_arith)
        requires
            le32(hi)[0] == hi % 256,
            le32(hi)[1] == (hi / 256) % 256,
            le32(hi)[2] == (hi / 65536) % 256,
            le32(hi)[3] == hi / 16777216,
            hi < 0x1_0000_0000,
    ;
    assert(lo + 4294967296 * hi == c);
    let e = le64(c);
    assert(e =~= le32(lo) + le32(hi));
    assert(e[4] == le32(hi)[0] && e[5] == le32(hi)[1] && e[6] == le32(hi)[2] && e[7] == le32(hi)[3]);
}

} // verus!
