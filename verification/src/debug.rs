//! Advisory debug switch and hex-dump formatting.
//!
//! The switch is plain state the embedder owns; the formatter turns a
//! byte range into the text of a hex dump, sixteen bytes per line with an
//! ASCII gutter, grouped by a configurable stride. Printing is the
//! embedder's business.

use vstd::prelude::*;

verus! {

use crate::DebugFlag;

/// Turns the advisory debug switch on.
pub fn enable_debug(flag: &mut DebugFlag)
    ensures
        final(flag).enabled,
{
    flag.enabled = true;
}

/// Reads the advisory debug switch.
pub fn is_debug_enabled(flag: &DebugFlag) -> (r: bool)
    ensures
        r == flag.enabled,
{
    flag.enabled
}

/// The ASCII character printed for one hex digit value.
pub open spec fn spec_hex_char(d: int) -> u8
    recommends
        0 <= d < 16,
{
    if d < 10 {
        (0x30 + d) as u8
    } else {
        (0x61 + (d - 10)) as u8
    }
}

/// One lowercase hex digit.
pub fn hex_char(d: u8) -> (r: u8)
    requires
        d < 16,
    ensures
        r == spec_hex_char(d as int),
        0x30 <= r < 0x7f,
{
    if d < 10 {
        0x30 + d
    } else {
        0x61 + (d - 10)
    }
}

/// Appends the two hex digits of one byte.
fn push_hex_byte(out: &mut Vec<u8>, b: u8)
    ensures
        final(out)@.len() == old(out)@.len() + 2,
        final(out)@ == old(out)@.push(spec_hex_char(b as int / 16)).push(
            spec_hex_char(b as int % 16),
        ),
{
    out.push(hex_char(b / 16));
    out.push(hex_char(b % 16));
}

/// Formats `data` as hex-dump text when the switch is on: an offset
/// column, the bytes in `stride`-sized little-endian groups, and an
/// ASCII gutter every sixteen bytes. With the switch off, nothing.
pub fn log_hex(flag: &DebugFlag, data: &Vec<u8>, stride: usize) -> (out: Vec<u8>)
    requires
        1 <= stride <= 8,
        data@.len() < 0x1000,
    ensures
        !flag.enabled ==> out@.len() == 0,
{
    let mut out: Vec<u8> = Vec::new();
    if !is_debug_enabled(flag) {
        return out;
    }

    let n = data.len();
    let mut i: usize = 0;
    while i < n
        invariant
            n == data@.len(),
            n < 0x1000,
            1 <= stride <= 8,
        decreases crate::arch::x86_64::spec_remaining(n as int, i as int),
    {
        if i % 16 == 0 {
            out.push(0x30);
            out.push(0x78);
            push_hex_byte(&mut out, ((i / 16) % 256) as u8);
            push_hex_byte(&mut out, (i % 256) as u8);
            out.push(0x3a);
        }
        out.push(0x20);
        let mut q: usize = 0;
        while q < stride
            invariant
                n == data@.len(),
                n < 0x1000,
                1 <= stride <= 8,
                q <= stride,
                i < n,
            decreases stride - q,
        {
            let pos = i + (stride - 1 - q);
            if pos < n {
                push_hex_byte(&mut out, data[pos]);
            }
            q = q + 1;
        }
        let line_end = if i + stride >= n || (i + stride) % 16 == 0 {
            true
        } else {
            false
        };
        if line_end {
            out.push(0x20);
            let row_start = (i / 16) * 16;
            let mut j: usize = row_start;
            while j < n && j < row_start + 16
                invariant
                    n == data@.len(),
                    n < 0x1000,
                    row_start <= j,
                decreases row_start + 16 - j,
            {
                let c = data[j];
                if c >= 0x20 && c < 0x80 {
                    out.push(c);
                } else {
                    out.push(0x2e);
                }
                j = j + 1;
            }
            out.push(0x0a);
        }
        i = i + stride;
    }
    out
}

} // verus!
