//! Fixed-width integers as bytes, and slices of byte vectors.
use vstd::prelude::*;

verus! {

/// The four bytes of `x`, least significant first.
pub open spec fn le4(x: u32) -> Seq<u8> {
    seq![
        (x % 256) as u8,
        (x / 256 % 256) as u8,
        (x / 65536 % 256) as u8,
        (x / 16777216 % 256) as u8,
    ]
}

/// The number whose four bytes, least significant first, start `s`.
pub open spec fn le4_value(s: Seq<u8>) -> nat {
    (s[0] as nat) + 256 * (s[1] as nat) + 65536 * (s[2] as nat) + 16777216 * (s[3] as nat)
}

/// The eight bytes of `x`, least significant first.
pub open spec fn le8(x: u64) -> Seq<u8> {
    le4((x % 4294967296) as u32) + le4((x / 4294967296) as u32)
}

/// The number whose eight bytes, least significant first, start `s`.
pub open spec fn le8_value(s: Seq<u8>) -> nat {
    le4_value(s) + 4294967296 * le4_value(s.subrange(4, 8))
}

/// The eight bytes of `x`, most significant first.
pub open spec fn be8(x: u64) -> Seq<u8> {
    le8(x).reverse()
}

/// The number whose eight bytes, most significant first, start `s`.
pub open spec fn be8_value(s: Seq<u8>) -> nat {
    le8_value(s.subrange(0, 8).reverse())
}

/// Reading back the four bytes of a number gives the number, whatever follows.
pub proof fn lemma_le4_round_trip(x: u32, rest: Seq<u8>)
    ensures
        le4(x).len() == 4,
        le4_value(le4(x) + rest) == x,
{
    let s = le4(x) + rest;
    assert(s[0] == (x % 256) as u8);
    assert(s[1] == (x / 256 % 256) as u8);
    assert(s[2] == (x / 65536 % 256) as u8);
    assert(s[3] == (x / 16777216 % 256) as u8);
}

/// Writing the number that four bytes denote gives those bytes back.
pub proof fn lemma_le4_value_bounds(s: Seq<u8>)
    requires
        s.len() >= 4,
    ensures
        le4_value(s) <= u32::MAX,
        le4(le4_value(s) as u32) == s.subrange(0, 4),
{
    let v = le4_value(s) as u32;
    assert(v as nat == le4_value(s));
    assert((v % 256) as u8 == s[0]);
    assert((v / 256 % 256) as u8 == s[1]);
    assert((v / 65536 % 256) as u8 == s[2]);
    assert((v / 16777216 % 256) as u8 == s[3]);
    assert(le4(v) =~= s.subrange(0, 4));
}

/// Reading back the eight bytes of a number gives the number, whatever follows.
pub proof fn lemma_le8_round_trip(x: u64, rest: Seq<u8>)
    ensures
        le8(x).len() == 8,
        le8_value(le8(x) + rest) == x,
{
    let lo = (x % 4294967296) as u32;
    let hi = (x / 4294967296) as u32;
    let s = le8(x) + rest;
    assert(s =~= le4(lo) + (le4(hi) + rest));
    lemma_le4_round_trip(lo, le4(hi) + rest);
    lemma_le4_round_trip(hi, Seq::empty());
    assert(s.subrange(4, 8) =~= le4(hi) + Seq::<u8>::empty());
}

/// Reading back the eight bytes of a number, most significant first, gives the number.
pub proof fn lemma_be8_round_trip(x: u64, rest: Seq<u8>)
    ensures
        be8(x).len() == 8,
        be8_value(be8(x) + rest) == x,
{
    lemma_le8_round_trip(x, Seq::empty());
    assert((be8(x) + rest).subrange(0, 8).reverse() =~= le8(x) + Seq::<u8>::empty());
}

/// `buf` with `extra` behind it.
pub fn extend(buf: &mut Vec<u8>, extra: &[u8])
    ensures
        final(buf)@ == old(buf)@ + extra@,
{
    let ghost before = buf@;
    let mut i: usize = 0;
    while i < extra.len()
        invariant
            i <= extra@.len(),
            buf@ == before + extra@.subrange(0, i as int),
        decreases extra@.len() - i,
    {
        buf.push(extra[i]);
        i += 1;
        assert(buf@ =~= before + extra@.subrange(0, i as int));
    }
    assert(extra@.subrange(0, i as int) =~= extra@);
}

/// A copy of `buf[from..to]`.
pub fn slice(buf: &[u8], from: usize, to: usize) -> (part: Vec<u8>)
    requires
        from <= to <= buf@.len(),
    ensures
        part@ == buf@.subrange(from as int, to as int),
{
    let mut part: Vec<u8> = Vec::new();
    let mut i: usize = from;
    while i < to
        invariant
            from <= i <= to <= buf@.len(),
            part@ == buf@.subrange(from as int, i as int),
        decreases to - i,
    {
        part.push(buf[i]);
        i += 1;
        assert(part@ =~= buf@.subrange(from as int, i as int));
    }
    part
}

/// The four bytes of `x`, least significant first.
pub fn put_le4(x: u32) -> (b: Vec<u8>)
    ensures
        b@ == le4(x),
{
    let mut b: Vec<u8> = Vec::new();
    b.push((x % 256) as u8);
    b.push((x / 256 % 256) as u8);
    b.push((x / 65536 % 256) as u8);
    b.push((x / 16777216 % 256) as u8);
    assert(b@ =~= le4(x));
    b
}

/// The eight bytes of `x`, least significant first.
pub fn put_le8(x: u64) -> (b: Vec<u8>)
    ensures
        b@ == le8(x),
{
    let mut b = put_le4((x % 4294967296) as u32);
    let hi = put_le4((x / 4294967296) as u32);
    extend(&mut b, hi.as_slice());
    b
}

/// The eight bytes of `x`, most significant first.
pub fn put_be8(x: u64) -> (b: Vec<u8>)
    ensures
        b@ == be8(x),
{
    let little = put_le8(x);
    proof {
        lemma_le8_round_trip(x, Seq::empty());
    }
    let mut b: Vec<u8> = Vec::new();
    let mut i: usize = 8;
    while i > 0
        invariant
            i <= 8,
            little@.len() == 8,
            b@ == little@.reverse().subrange(0, 8 - i as int),
        decreases i,
    {
        i -= 1;
        b.push(little[i]);
        assert(b@ =~= little@.reverse().subrange(0, 8 - i as int));
    }
    assert(b@ =~= little@.reverse());
    b
}

/// The number whose four bytes start at `at`.
pub fn get_le4(buf: &[u8], at: usize) -> (x: u32)
    requires
        at + 4 <= buf@.len(),
    ensures
        x == le4_value(buf@.subrange(at as int, at + 4)),
{
    proof {
        lemma_le4_value_bounds(buf@.subrange(at as int, at + 4));
    }
    buf[at] as u32 + 256 * (buf[at + 1] as u32) + 65536 * (buf[at + 2] as u32) + 16777216 * (buf[at
        + 3] as u32)
}

/// The number whose eight bytes, most significant first, start at `at`.
pub fn get_be8(buf: &[u8], at: usize) -> (x: u64)
    requires
        at + 8 <= buf@.len(),
    ensures
        x == be8_value(buf@.subrange(at as int, at + 8)),
{
    let end: usize = buf.len();
    assert(at + 8 <= end);
    let lo: u64 = buf[at + 7] as u64 + 256 * (buf[at + 6] as u64) + 65536 * (buf[at + 5] as u64)
        + 16777216 * (buf[at + 4] as u64);
    let hi: u64 = buf[at + 3] as u64 + 256 * (buf[at + 2] as u64) + 65536 * (buf[at + 1] as u64)
        + 16777216 * (buf[at] as u64);
    let x: u64 = lo + 4294967296 * hi;
    proof {
        let s = buf@.subrange(at as int, at + 8);
        let r = s.subrange(0, 8).reverse();
        assert(r.subrange(4, 8)[0] == r[4]);
        assert(r.subrange(4, 8)[1] == r[5]);
        assert(r.subrange(4, 8)[2] == r[6]);
        assert(r.subrange(4, 8)[3] == r[7]);
        assert(r[0] == buf@[at + 7]);
        assert(r[1] == buf@[at + 6]);
        assert(r[2] == buf@[at + 5]);
        assert(r[3] == buf@[at + 4]);
        assert(r[4] == buf@[at + 3]);
        assert(r[5] == buf@[at + 2]);
        assert(r[6] == buf@[at + 1]);
        assert(r[7] == buf@[at as int]);
    }
    x
}

/// Whether two byte strings are the same.
pub fn equal(a: &[u8], b: &[u8]) -> (r: bool)
    ensures
        r == (a@ == b@),
{
    if a.len() != b.len() {
        return false;
    }
    let mut i: usize = 0;
    while i < a.len()
        invariant
            a@.len() == b@.len(),
            i <= a@.len(),
            forall|j: int| 0 <= j < i ==> a@[j] == b@[j],
        decreases a@.len() - i,
    {
        if a[i] != b[i] {
            return false;
        }
        i += 1;
    }
    assert(a@ =~= b@);
    true
}

} // verus!
