use vstd::prelude::*;

verus! {

/// Big-endian 16-bit value held at offset `i` of `s`.
pub open spec fn be_u16(s: Seq<u8>, i: int) -> int {
    (s[i] as int) * 0x100 + (s[i + 1] as int)
}

/// Big-endian 24-bit value held at offset `i` of `s`.
pub open spec fn be_u24(s: Seq<u8>, i: int) -> int {
    (s[i] as int) * 0x10000 + (s[i + 1] as int) * 0x100 + (s[i + 2] as int)
}

/// Big-endian 32-bit value held at offset `i` of `s`.
pub open spec fn be_u32(s: Seq<u8>, i: int) -> int {
    (s[i] as int) * 0x1000000 + (s[i + 1] as int) * 0x10000 + (s[i + 2] as int) * 0x100 + (s[i
        + 3] as int)
}

/// Little-endian 32-bit two's-complement value held at offset `i` of `s`.
pub open spec fn le_i32(s: Seq<u8>, i: int) -> int {
    let raw = (s[i] as int) + (s[i + 1] as int) * 0x100 + (s[i + 2] as int) * 0x10000 + (s[i
        + 3] as int) * 0x1000000;
    if raw >= 0x80000000 {
        raw - 0x100000000
    } else {
        raw
    }
}

/// Reads the big-endian 16-bit value at offset `i`.
pub fn read_be_u16(s: &[u8], i: usize) -> (r: u32)
    requires
        i + 2 <= s@.len(),
    ensures
        r == be_u16(s@, i as int),
        r <= 0xFFFF,
{
    (s[i] as u32) * 0x100 + (s[i + 1] as u32)
}

/// Reads the big-endian 24-bit value at offset `i`.
pub fn read_be_u24(s: &[u8], i: usize) -> (r: u32)
    requires
        i + 3 <= s@.len(),
    ensures
        r == be_u24(s@, i as int),
        r <= 0xFFFFFF,
{
    (s[i] as u32) * 0x10000 + (s[i + 1] as u32) * 0x100 + (s[i + 2] as u32)
}

/// Reads the big-endian 32-bit value at offset `i`.
pub fn read_be_u32(s: &[u8], i: usize) -> (r: u32)
    requires
        i + 4 <= s@.len(),
    ensures
        r == be_u32(s@, i as int),
{
    let hi: u32 = (s[i] as u32) * 0x1000000;
    let rest: u32 = (s[i + 1] as u32) * 0x10000 + (s[i + 2] as u32) * 0x100 + (s[i + 3] as u32);
    hi + rest
}

/// Reads the little-endian signed 32-bit value at offset `i`.
pub fn read_le_i32(s: &[u8], i: usize) -> (r: i32)
    requires
        i + 4 <= s@.len(),
    ensures
        r as int == le_i32(s@, i as int),
{
    let raw: u32 = (s[i] as u32) + (s[i + 1] as u32) * 0x100 + (s[i + 2] as u32) * 0x10000 + (s[i
        + 3] as u32) * 0x1000000;
    proof {
        assert(raw == ((s@[i as int] as int) + (s@[i as int + 1] as int) * 0x100 + (s@[i as int
            + 2] as int) * 0x10000 + (s@[i as int + 3] as int) * 0x1000000));
    }
    if raw >= 0x80000000 {
        let out: i32 = (raw - 0x80000000) as i32;
        proof {
            assert(out as int - 0x80000000 == le_i32(s@, i as int)) by {
                assert(out as int == raw - 0x80000000);
            }
        }
        out - 0x7FFFFFFF - 1
    } else {
        raw as i32
    }
}


/// Copies `src[start .. start + len]` into a fresh vector.
pub fn copy_range(src: &[u8], start: usize, len: usize) -> (v: Vec<u8>)
    requires
        start + len <= src@.len(),
    ensures
        v@ == src@.subrange(start as int, start as int + len as int),
{
    let mut v: Vec<u8> = Vec::new();
    append_range(&mut v, src, start, len);
    proof {
        assert(Seq::<u8>::empty() + src@.subrange(start as int, start as int + len as int)
            =~= src@.subrange(start as int, start as int + len as int));
    }
    v
}

/// Appends `src[start .. start + len]` to `dst`.
pub fn append_range(dst: &mut Vec<u8>, src: &[u8], start: usize, len: usize) -> (r: ())
    requires
        start + len <= src@.len(),
    ensures
        final(dst)@ == old(dst)@ + src@.subrange(start as int, start as int + len as int),
{
    let ghost dst0 = dst@;
    let n: usize = src.len();
    let mut j: usize = 0;
    while j < len
        invariant
            j <= len,
            n == src@.len(),
            start + len <= n,
            dst@ == dst0 + src@.subrange(start as int, start as int + j as int),
        decreases len - j,
    {
        proof {
            assert(src@.subrange(start as int, start as int + j + 1) =~= src@.subrange(
                start as int,
                start as int + j,
            ).push(src@[start + j]));
        }
        dst.push(src[start + j]);
        j += 1;
    }
}

} // verus!

