//! Big-endian integer fields and byte runs: what a field reads from the wire
//! and what writing it appends.
use vstd::prelude::*;

verus! {

/// The 16-bit big-endian value at `s[i..i+2]`.
pub open spec fn be16(s: Seq<u8>, i: int) -> int {
    s[i] * 256 + s[i + 1]
}

/// The 24-bit big-endian value at `s[i..i+3]`.
pub open spec fn be24(s: Seq<u8>, i: int) -> int {
    s[i] * 65536 + s[i + 1] * 256 + s[i + 2]
}

/// The 32-bit big-endian value at `s[i..i+4]`.
pub open spec fn be32(s: Seq<u8>, i: int) -> int {
    s[i] * 16777216 + s[i + 1] * 65536 + s[i + 2] * 256 + s[i + 3]
}

/// Big-endian bytes of a 16-bit value.
pub open spec fn u16_bytes(v: u16) -> Seq<u8> {
    seq![(v / 256) as u8, (v % 256) as u8]
}

/// Big-endian bytes of the low 24 bits of `v`.
pub open spec fn u24_bytes(v: u32) -> Seq<u8> {
    seq![((v / 65536) % 256) as u8, ((v / 256) % 256) as u8, (v % 256) as u8]
}

/// Big-endian bytes of a 32-bit value.
pub open spec fn u32_bytes(v: u32) -> Seq<u8> {
    seq![(v / 16777216) as u8, ((v / 65536) % 256) as u8, ((v / 256) % 256) as u8, (v % 256) as u8]
}

/// The three bytes of a language or country code.
pub open spec fn code_bytes(c: [u8; 3]) -> Seq<u8> {
    seq![c[0], c[1], c[2]]
}

/// Codes with the same bytes are equal.
pub proof fn lemma_code_bytes_injective(a: [u8; 3], b: [u8; 3])
    requires
        code_bytes(a) == code_bytes(b),
    ensures
        a == b,
{
    assert(code_bytes(a)[0] == code_bytes(b)[0] && code_bytes(a)[1] == code_bytes(b)[1] && code_bytes(a)[2]
        == code_bytes(b)[2]);
    assert(a =~= b);
}

pub proof fn lemma_be16_of_bytes(v: u16)
    ensures
        be16(u16_bytes(v), 0) == v,
{
}

pub proof fn lemma_be24_of_bytes(v: u32)
    requires
        v < 0x100_0000,
    ensures
        be24(u24_bytes(v), 0) == v,
{
}

pub proof fn lemma_be32_of_bytes(v: u32)
    ensures
        be32(u32_bytes(v), 0) == v,
{
}

pub proof fn lemma_bytes_of_be16(s: Seq<u8>, i: int)
    requires
        0 <= i,
        i + 2 <= s.len(),
    ensures
        u16_bytes(be16(s, i) as u16) == s.subrange(i, i + 2),
{
    let a = s[i];
    let b = s[i + 1];
    let v = be16(s, i) as u16;
    assert(v / 256 == a && v % 256 == b) by (bit_vector)
        requires
            v == a * 256 + b,
    ;
    assert(u16_bytes(v) =~= s.subrange(i, i + 2));
}

pub proof fn lemma_bytes_of_be24(s: Seq<u8>, i: int)
    requires
        0 <= i,
        i + 3 <= s.len(),
    ensures
        u24_bytes(be24(s, i) as u32) == s.subrange(i, i + 3),
{
    let a = s[i];
    let b = s[i + 1];
    let c = s[i + 2];
    let v = be24(s, i) as u32;
    assert((v / 65536) % 256 == a && (v / 256) % 256 == b && v % 256 == c) by (bit_vector)
        requires
            v == a * 65536 + b * 256 + c,
    ;
    assert(u24_bytes(v) =~= s.subrange(i, i + 3));
}

pub proof fn lemma_bytes_of_be32(s: Seq<u8>, i: int)
    requires
        0 <= i,
        i + 4 <= s.len(),
    ensures
        u32_bytes(be32(s, i) as u32) == s.subrange(i, i + 4),
{
    let a = s[i];
    let b = s[i + 1];
    let c = s[i + 2];
    let d = s[i + 3];
    let v = be32(s, i) as u32;
    assert(v / 16777216 == a && (v / 65536) % 256 == b && (v / 256) % 256 == c && v % 256 == d)
        by (bit_vector)
        requires
            v == a * 16777216 + b * 65536 + c * 256 + d,
    ;
    assert(u32_bytes(v) =~= s.subrange(i, i + 4));
}

/// A flag as a single bit.
pub open spec fn bit(b: bool) -> u8 {
    if b {
        1
    } else {
        0
    }
}

/// The concatenation of `f(e)` over the elements `e` of `es`, in order.
pub open spec fn concat_map<T>(es: Seq<T>, f: spec_fn(T) -> Seq<u8>) -> Seq<u8>
    decreases es.len(),
{
    if es.len() == 0 {
        Seq::empty()
    } else {
        concat_map(es.drop_last(), f) + f(es.last())
    }
}

/// Appending an element appends its bytes.
pub proof fn lemma_concat_map_push<T>(es: Seq<T>, e: T, f: spec_fn(T) -> Seq<u8>)
    ensures
        concat_map(es.push(e), f) == concat_map(es, f) + f(e),
{
    assert(es.push(e).drop_last() =~= es);
}

/// Two maps that give every element bytes of equal length give the elements
/// bytes of equal length.
pub proof fn lemma_concat_map_same_len<T>(es: Seq<T>, f: spec_fn(T) -> Seq<u8>, g: spec_fn(T) -> Seq<u8>)
    requires
        forall|e: T| #[trigger] f(e).len() == g(e).len(),
    ensures
        concat_map(es, f).len() == concat_map(es, g).len(),
    decreases es.len(),
{
    if es.len() > 0 {
        lemma_concat_map_same_len(es.drop_last(), f, g);
        assert(f(es.last()).len() == g(es.last()).len());
    }
}

/// The bytes of a prefix of the elements are no longer than the bytes of all of them.
pub proof fn lemma_concat_map_prefix_len<T>(es: Seq<T>, k: int, f: spec_fn(T) -> Seq<u8>)
    requires
        0 <= k <= es.len(),
    ensures
        concat_map(es.subrange(0, k), f).len() <= concat_map(es, f).len(),
    decreases es.len(),
{
    if k < es.len() {
        let init = es.drop_last();
        lemma_concat_map_prefix_len(init, k, f);
        assert(init.subrange(0, k) =~= es.subrange(0, k));
    } else {
        assert(es.subrange(0, k) =~= es);
    }
}

/// When every element encodes to `k` bytes, element `i` occupies bytes `k*i .. k*i+k`.
pub proof fn lemma_concat_map_fixed<T>(es: Seq<T>, f: spec_fn(T) -> Seq<u8>, k: nat)
    requires
        forall|i: int| 0 <= i < es.len() ==> #[trigger] f(es[i]).len() == k,
    ensures
        concat_map(es, f).len() == k * es.len(),
        forall|i: int|
            0 <= i < es.len() ==> concat_map(es, f).subrange(k * i, k * i + k) == #[trigger] f(es[i]),
    decreases es.len(),
{
    if es.len() > 0 {
        let init = es.drop_last();
        assert forall|i: int| 0 <= i < init.len() implies #[trigger] f(init[i]).len() == k by {
            assert(init[i] == es[i]);
        }
        lemma_concat_map_fixed(init, f, k);
        let c = concat_map(es, f);
        let ci = concat_map(init, f);
        assert(f(es[es.len() - 1]).len() == k);
        assert(k * es.len() == k * init.len() + k) by (nonlinear_arith)
            requires
                es.len() == init.len() + 1,
        ;
        assert forall|i: int| 0 <= i < es.len() implies c.subrange(k * i, k * i + k) == #[trigger] f(
            es[i],
        ) by {
            if i < init.len() {
                assert(k * i + k <= k * init.len()) by (nonlinear_arith)
                    requires
                        i < init.len(),
                ;
                assert(0 <= k * i) by (nonlinear_arith)
                    requires
                        0 <= i,
                ;
                assert(init[i] == es[i]);
                assert(c.subrange(k * i, k * i + k) =~= ci.subrange(k * i, k * i + k));
            } else {
                assert(k * i == k * init.len()) by (nonlinear_arith)
                    requires
                        i == init.len(),
                ;
                assert(c.subrange(k * i, k * i + k) =~= f(es.last()));
            }
        }
    }
}

/// Bytes that split into `k`-byte blocks, block `i` being `f(es[i])`, are `concat_map(es, f)`.
pub proof fn lemma_concat_map_blocks<T>(es: Seq<T>, f: spec_fn(T) -> Seq<u8>, k: nat, s: Seq<u8>)
    requires
        s.len() == k * es.len(),
        forall|i: int| 0 <= i < es.len() ==> #[trigger] f(es[i]) == s.subrange(k * i, k * i + k),
    ensures
        concat_map(es, f) == s,
    decreases es.len(),
{
    if es.len() > 0 {
        let n = es.len() - 1;
        let init = es.drop_last();
        assert(k * es.len() == k * n + k) by (nonlinear_arith)
            requires
                es.len() == n + 1,
        ;
        let si = s.subrange(0, k * n);
        assert forall|i: int| 0 <= i < init.len() implies #[trigger] f(init[i]) == si.subrange(
            k * i,
            k * i + k,
        ) by {
            assert(init[i] == es[i]);
            assert(k * i + k <= k * n) by (nonlinear_arith)
                requires
                    i < n,
            ;
            assert(0 <= k * i) by (nonlinear_arith)
                requires
                    0 <= i,
            ;
            assert(si.subrange(k * i, k * i + k) =~= s.subrange(k * i, k * i + k));
        }
        lemma_concat_map_blocks(init, f, k, si);
        assert(f(es[n as int]) == s.subrange(k * n, k * n + k));
        assert(s =~= si + s.subrange(k * n, k * n + k));
    }
}

/// Reads the 16-bit big-endian field at `s[i..i+2]`.
pub fn read_u16(s: &[u8], i: usize) -> (r: u16)
    requires
        i + 2 <= s@.len(),
    ensures
        r == be16(s@, i as int),
{
    let hi = s[i];
    let lo = s[i + 1];
    let r = ((hi as u16) << 8u16) | (lo as u16);
    assert(r == hi * 256 + lo) by (bit_vector)
        requires
            r == ((hi as u16) << 8u16) | (lo as u16),
    ;
    r
}

/// Reads the 24-bit big-endian field at `s[i..i+3]`.
pub fn read_u24(s: &[u8], i: usize) -> (r: u32)
    requires
        i + 3 <= s@.len(),
    ensures
        r == be24(s@, i as int),
        r < 0x100_0000,
{
    let a = s[i];
    let b = s[i + 1];
    let c = s[i + 2];
    let r = ((a as u32) << 16u32) | ((b as u32) << 8u32) | (c as u32);
    assert(r == a * 65536 + b * 256 + c) by (bit_vector)
        requires
            r == ((a as u32) << 16u32) | ((b as u32) << 8u32) | (c as u32),
    ;
    r
}

/// Reads the 32-bit big-endian field at `s[i..i+4]`.
pub fn read_u32(s: &[u8], i: usize) -> (r: u32)
    requires
        i + 4 <= s@.len(),
    ensures
        r == be32(s@, i as int),
{
    let a = s[i];
    let b = s[i + 1];
    let c = s[i + 2];
    let d = s[i + 3];
    let r = ((a as u32) << 24u32) | ((b as u32) << 16u32) | ((c as u32) << 8u32) | (d as u32);
    assert(r == a * 16777216 + b * 65536 + c * 256 + d) by (bit_vector)
        requires
            r == ((a as u32) << 24u32) | ((b as u32) << 16u32) | ((c as u32) << 8u32) | (d as u32),
    ;
    r
}

/// Reads the three-byte code at `s[i..i+3]`.
pub fn read_code(s: &[u8], i: usize) -> (r: [u8; 3])
    requires
        i + 3 <= s@.len(),
    ensures
        code_bytes(r) == s@.subrange(i as int, i + 3),
{
    let r = [s[i], s[i + 1], s[i + 2]];
    assert(code_bytes(r) =~= s@.subrange(i as int, i + 3));
    r
}

/// Appends one byte.
pub fn push_u8(out: &mut Vec<u8>, v: u8)
    ensures
        final(out)@ == old(out)@ + seq![v],
{
    out.push(v);
    assert(out@ =~= old(out)@ + seq![v]);
}

/// Appends a 16-bit value, big-endian.
pub fn push_u16(out: &mut Vec<u8>, v: u16)
    ensures
        final(out)@ == old(out)@ + u16_bytes(v),
{
    let hi = (v >> 8u16) as u8;
    let lo = (v & 0xFF) as u8;
    assert(hi == v / 256 && lo == v % 256) by (bit_vector)
        requires
            hi == (v >> 8u16) as u8,
            lo == (v & 0xFF) as u8,
    ;
    out.push(hi);
    out.push(lo);
    assert(out@ =~= old(out)@ + u16_bytes(v));
}

/// Appends the low 24 bits of a value, big-endian.
pub fn push_u24(out: &mut Vec<u8>, v: u32)
    ensures
        final(out)@ == old(out)@ + u24_bytes(v),
{
    let a = ((v >> 16u32) & 0xFF) as u8;
    let b = ((v >> 8u32) & 0xFF) as u8;
    let c = (v & 0xFF) as u8;
    assert(a == (v / 65536) % 256 && b == (v / 256) % 256 && c == v % 256) by (bit_vector)
        requires
            a == ((v >> 16u32) & 0xFF) as u8,
            b == ((v >> 8u32) & 0xFF) as u8,
            c == (v & 0xFF) as u8,
    ;
    out.push(a);
    out.push(b);
    out.push(c);
    assert(out@ =~= old(out)@ + u24_bytes(v));
}

/// Appends a 32-bit value, big-endian.
pub fn push_u32(out: &mut Vec<u8>, v: u32)
    ensures
        final(out)@ == old(out)@ + u32_bytes(v),
{
    let a = (v >> 24u32) as u8;
    let b = ((v >> 16u32) & 0xFF) as u8;
    let c = ((v >> 8u32) & 0xFF) as u8;
    let d = (v & 0xFF) as u8;
    assert(a == v / 16777216 && b == (v / 65536) % 256 && c == (v / 256) % 256 && d == v % 256)
        by (bit_vector)
        requires
            a == (v >> 24u32) as u8,
            b == ((v >> 16u32) & 0xFF) as u8,
            c == ((v >> 8u32) & 0xFF) as u8,
            d == (v & 0xFF) as u8,
    ;
    out.push(a);
    out.push(b);
    out.push(c);
    out.push(d);
    assert(out@ =~= old(out)@ + u32_bytes(v));
}

/// Appends a three-byte code.
pub fn push_code(out: &mut Vec<u8>, c: [u8; 3])
    ensures
        final(out)@ == old(out)@ + code_bytes(c),
{
    out.push(c[0]);
    out.push(c[1]);
    out.push(c[2]);
    assert(out@ =~= old(out)@ + code_bytes(c));
}

/// Appends a run of bytes.
pub fn push_bytes(out: &mut Vec<u8>, src: &[u8])
    ensures
        final(out)@ == old(out)@ + src@,
{
    let mut i: usize = 0;
    while i < src.len()
        invariant
            i <= src@.len(),
            out@ == old(out)@ + src@.subrange(0, i as int),
        decreases src@.len() - i,
    {
        out.push(src[i]);
        i = i + 1;
        assert(out@ =~= old(out)@ + src@.subrange(0, i as int));
    }
    assert(src@.subrange(0, i as int) =~= src@);
}

/// Copies `src` to the front of `buf`, leaving the rest of `buf` as it was.
pub fn copy_to_front(buf: &mut [u8], src: &Vec<u8>)
    requires
        src@.len() <= old(buf)@.len(),
    ensures
        final(buf)@.len() == old(buf)@.len(),
        final(buf)@.subrange(0, src@.len() as int) == src@,
        final(buf)@.subrange(src@.len() as int, old(buf)@.len() as int) == old(buf)@.subrange(
            src@.len() as int,
            old(buf)@.len() as int,
        ),
{
    let mut i: usize = 0;
    while i < src.len()
        invariant
            i <= src@.len(),
            src@.len() <= buf@.len(),
            buf@.len() == old(buf)@.len(),
            forall|j: int| 0 <= j < i ==> buf@[j] == src@[j],
            forall|j: int| src@.len() <= j < buf@.len() ==> buf@[j] == old(buf)@[j],
        decreases src@.len() - i,
    {
        buf[i] = src[i];
        i = i + 1;
    }
    assert(buf@.subrange(0, src@.len() as int) =~= src@);
    assert(buf@.subrange(src@.len() as int, old(buf)@.len() as int) =~= old(buf)@.subrange(
        src@.len() as int,
        old(buf)@.len() as int,
    ));
}

/// `n` zero bytes.
pub open spec fn zeros(n: nat) -> Seq<u8> {
    Seq::new(n, |i: int| 0u8)
}

/// Appends `n` zero bytes.
pub fn push_zeros(out: &mut Vec<u8>, n: usize)
    ensures
        final(out)@ == old(out)@ + zeros(n as nat),
{
    let mut i: usize = 0;
    while i < n
        invariant
            i <= n,
            out@ == old(out)@ + zeros(i as nat),
        decreases n - i,
    {
        out.push(0u8);
        i = i + 1;
        assert(out@ =~= old(out)@ + zeros(i as nat));
    }
}

/// `new` is `old` with `src` written over its front, except at the positions
/// that `keep` marks with 1, which hold what `old` held.
pub open spec fn written_over(old: Seq<u8>, new: Seq<u8>, src: Seq<u8>, keep: Seq<u8>) -> bool {
    &&& new.len() == old.len()
    &&& forall|j: int| 0 <= j < src.len() ==> #[trigger] new[j] == if keep[j] == 1 {
        old[j]
    } else {
        src[j]
    }
    &&& new.subrange(src.len() as int, old.len() as int) == old.subrange(src.len() as int, old.len() as int)
}

/// Copies `src` to the front of `buf`, skipping the positions that `keep`
/// marks with 1 and leaving the rest of `buf` as it was.
pub fn copy_to_front_masked(buf: &mut [u8], src: &Vec<u8>, keep: &Vec<u8>)
    requires
        src@.len() <= old(buf)@.len(),
        keep@.len() == src@.len(),
    ensures
        written_over(old(buf)@, final(buf)@, src@, keep@),
{
    let mut i: usize = 0;
    while i < src.len()
        invariant
            i <= src@.len(),
            src@.len() <= buf@.len(),
            keep@.len() == src@.len(),
            buf@.len() == old(buf)@.len(),
            forall|j: int| 0 <= j < i ==> #[trigger] buf@[j] == if keep@[j] == 1 {
                old(buf)@[j]
            } else {
                src@[j]
            },
            forall|j: int| i <= j < buf@.len() ==> buf@[j] == old(buf)@[j],
        decreases src@.len() - i,
    {
        if keep[i] != 1 {
            buf[i] = src[i];
        }
        i = i + 1;
    }
    assert(buf@.subrange(src@.len() as int, old(buf)@.len() as int) =~= old(buf)@.subrange(
        src@.len() as int,
        old(buf)@.len() as int,
    ));
}

} // verus!
