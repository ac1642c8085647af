//! The three CRC algorithms the framing selects among: CRC-32
//! (polynomial 0x04C11DB7), CRC-16 (polynomial 0x1021) and CRC-8
//! (polynomial 0x07), all most-significant-bit first with initial value 0.

use vstd::prelude::*;

verus! {

pub open spec fn crc32_shift(c: u32) -> u32 {
    if c & 0x8000_0000 != 0 {
        (c << 1) ^ 0x04C1_1DB7
    } else {
        c << 1
    }
}

pub open spec fn crc32_rounds(c: u32, n: nat) -> u32
    decreases n,
{
    if n == 0 {
        c
    } else {
        crc32_shift(crc32_rounds(c, (n - 1) as nat))
    }
}

pub open spec fn crc32_byte(c: u32, b: u8) -> u32 {
    crc32_rounds(c ^ ((b as u32) << 24), 8)
}

/// CRC-32 over a byte sequence, one byte at a time.
pub open spec fn crc32_spec(s: Seq<u8>) -> u32
    decreases s.len(),
{
    if s.len() == 0 {
        0
    } else {
        crc32_byte(crc32_spec(s.drop_last()), s.last())
    }
}

pub open spec fn crc16_shift(c: u16) -> u16 {
    if c & 0x8000 != 0 {
        (c << 1) ^ 0x1021
    } else {
        c << 1
    }
}

pub open spec fn crc16_rounds(c: u16, n: nat) -> u16
    decreases n,
{
    if n == 0 {
        c
    } else {
        crc16_shift(crc16_rounds(c, (n - 1) as nat))
    }
}

pub open spec fn crc16_byte(c: u16, b: u8) -> u16 {
    crc16_rounds(c ^ ((b as u16) << 8), 8)
}

/// CRC-16 over a byte sequence, one byte at a time.
pub open spec fn crc16_spec(s: Seq<u8>) -> u16
    decreases s.len(),
{
    if s.len() == 0 {
        0
    } else {
        crc16_byte(crc16_spec(s.drop_last()), s.last())
    }
}

pub open spec fn crc8_shift(c: u8) -> u8 {
    if c & 0x80 != 0 {
        (c << 1) ^ 0x07
    } else {
        c << 1
    }
}

pub open spec fn crc8_rounds(c: u8, n: nat) -> u8
    decreases n,
{
    if n == 0 {
        c
    } else {
        crc8_shift(crc8_rounds(c, (n - 1) as nat))
    }
}

pub open spec fn crc8_byte(c: u8, b: u8) -> u8 {
    crc8_rounds(c ^ b, 8)
}

/// CRC-8 over a byte sequence, one byte at a time.
pub open spec fn crc8_spec(s: Seq<u8>) -> u8
    decreases s.len(),
{
    if s.len() == 0 {
        0
    } else {
        crc8_byte(crc8_spec(s.drop_last()), s.last())
    }
}

fn crc32_process_byte(c: u32, b: u8) -> (r: u32)
    ensures
        r == crc32_byte(c, b),
{
    let mut acc: u32 = c ^ ((b as u32) << 24);
    let start: Ghost<u32> = Ghost(acc);
    let mut k: usize = 0;
    while k < 8
        invariant
            k <= 8,
            acc == crc32_rounds(start@, k as nat),
            start@ == c ^ ((b as u32) << 24),
        decreases 8 - k,
    {
        if acc & 0x8000_0000 != 0 {
            acc = (acc << 1) ^ 0x04C1_1DB7;
        } else {
            acc = acc << 1;
        }
        k = k + 1;
    }
    acc
}

/// CRC-32 of the leading `n` bytes of `data`.
pub fn eval_crc32(data: &Vec<u8>, n: usize) -> (r: u32)
    requires
        n <= data@.len(),
    ensures
        r == crc32_spec(data@.take(n as int)),
{
    let mut c: u32 = 0;
    let mut i: usize = 0;
    while i < n
        invariant
            i <= n,
            n <= data@.len(),
            c == crc32_spec(data@.take(i as int)),
        decreases n - i,
    {
        proof {
            assert(data@.take(i + 1).drop_last() =~= data@.take(i as int));
            assert(data@.take(i + 1).last() == data@[i as int]);
        }
        c = crc32_process_byte(c, data[i]);
        i = i + 1;
    }
    c
}

fn crc16_process_byte(c: u16, b: u8) -> (r: u16)
    ensures
        r == crc16_byte(c, b),
{
    let mut acc: u16 = c ^ ((b as u16) << 8);
    let start: Ghost<u16> = Ghost(acc);
    let mut k: usize = 0;
    while k < 8
        invariant
            k <= 8,
            acc == crc16_rounds(start@, k as nat),
            start@ == c ^ ((b as u16) << 8),
        decreases 8 - k,
    {
        if acc & 0x8000 != 0 {
            acc = (acc << 1) ^ 0x1021;
        } else {
            acc = acc << 1;
        }
        k = k + 1;
    }
    acc
}

/// CRC-16 of the leading `n` bytes of `data`.
pub fn eval_crc16(data: &Vec<u8>, n: usize) -> (r: u16)
    requires
        n <= data@.len(),
    ensures
        r == crc16_spec(data@.take(n as int)),
{
    let mut c: u16 = 0;
    let mut i: usize = 0;
    while i < n
        invariant
            i <= n,
            n <= data@.len(),
            c == crc16_spec(data@.take(i as int)),
        decreases n - i,
    {
        proof {
            assert(data@.take(i + 1).drop_last() =~= data@.take(i as int));
            assert(data@.take(i + 1).last() == data@[i as int]);
        }
        c = crc16_process_byte(c, data[i]);
        i = i + 1;
    }
    c
}

fn crc8_process_byte(c: u8, b: u8) -> (r: u8)
    ensures
        r == crc8_byte(c, b),
{
    let mut acc: u8 = c ^ b;
    let start: Ghost<u8> = Ghost(acc);
    let mut k: usize = 0;
    while k < 8
        invariant
            k <= 8,
            acc == crc8_rounds(start@, k as nat),
            start@ == c ^ b,
        decreases 8 - k,
    {
        if acc & 0x80 != 0 {
            acc = (acc << 1) ^ 0x07;
        } else {
            acc = acc << 1;
        }
        k = k + 1;
    }
    acc
}

/// CRC-8 of the leading `n` bytes of `data`.
pub fn eval_crc8(data: &Vec<u8>, n: usize) -> (r: u8)
    requires
        n <= data@.len(),
    ensures
        r == crc8_spec(data@.take(n as int)),
{
    let mut c: u8 = 0;
    let mut i: usize = 0;
    while i < n
        invariant
            i <= n,
            n <= data@.len(),
            c == crc8_spec(data@.take(i as int)),
        decreases n - i,
    {
        proof {
            assert(data@.take(i + 1).drop_last() =~= data@.take(i as int));
            assert(data@.take(i + 1).last() == data@[i as int]);
        }
        c = crc8_process_byte(c, data[i]);
        i = i + 1;
    }
    c
}

} // verus!
