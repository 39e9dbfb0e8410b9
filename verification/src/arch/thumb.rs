//! Thumb (T16/T32) backend: aligned entry patch and seven-class
//! PC-relative relocation.
//!
//! The patch interworks to ARM state (`BX PC`), then performs the same
//! literal-pool load of the replacement address as the A32 backend; a
//! leading `NOP` keeps the loaded word 4-byte aligned when the entry is
//! not. The trampoline rewrites seven classes of PC-relative encodings,
//! each into a short sequence that computes the value the original would
//! have observed, with literals collected at the tail of the image.

use vstd::prelude::*;

use crate::arch::arm::a_ldr_rd_rn_im;
use crate::disasm::arm_decoder::{
    is_thumb_32bit, is_thumb_pc_relative_add, is_thumb_pc_relative_b, is_thumb_pc_relative_cbz,
    is_thumb_pc_relative_ldr, is_thumb_pc_relative_ldrw,
};
use crate::error::SubstrateError;

verus! {

pub const T_PC: u32 = 15;

pub const T_LR: u32 = 14;

pub const T_R6: u32 = 6;

pub const T_R7: u32 = 7;

pub const T_AL: u32 = 14;

/// Signed halfword distance from slot `l` to slot `r`, in bytes, as the
/// processor's pipeline sees it.
pub fn t_label(l: usize, r: usize) -> (ret: i32)
    requires
        l < 0x1000,
        r < 0x1000,
    ensures
        ret == (r - l) * 2 - 4 + (if l % 2 == 0 {
            0int
        } else {
            2int
        }),
{
    ((r as i32 - l as i32) * 2 - 4) + (if l % 2 == 0 {
        0i32
    } else {
        2i32
    })
}

/// `BX rm`.
pub fn t_bx(rm: u32) -> (ret: u16)
    ensures
        ret == (0x4700u32 | (rm << 3)) as u16,
{
    #[verifier::truncate]
    ((0x4700u32 | (rm << 3)) as u16)
}

/// The T16 `NOP` (`MOV r8, r8`).
pub fn t_nop() -> (ret: u16)
    ensures
        ret == 0x46c0u16,
{
    0x46c0
}

/// `PUSH` with a register bitmask.
pub fn t_push_r(r: u32) -> (ret: u16)
    ensures
        ret == (0xb400u32 | (((r & (1u32 << T_LR)) >> T_LR) << 8) | (r & 0xff)) as u16,
{
    #[verifier::truncate]
    ((0xb400u32 | (((r & (1u32 << T_LR)) >> T_LR) << 8) | (r & 0xff)) as u16)
}

/// `POP` with a register bitmask.
pub fn t_pop_r(r: u32) -> (ret: u16)
    ensures
        ret == (0xbc00u32 | (((r & (1u32 << T_PC)) >> T_PC) << 8) | (r & 0xff)) as u16,
{
    #[verifier::truncate]
    ((0xbc00u32 | (((r & (1u32 << T_PC)) >> T_PC) << 8) | (r & 0xff)) as u16)
}

/// `MOV rd, rm` over high and low registers.
pub fn t_mov_rd_rm(rd: u32, rm: u32) -> (ret: u16)
    ensures
        ret == (0x4600u32 | (((rd & 0x8) >> 3) << 7) | (((rm & 0x8) >> 3) << 6) | ((rm & 0x7) << 3)
            | (rd & 0x7)) as u16,
{
    #[verifier::truncate]
    ((0x4600u32 | (((rd & 0x8) >> 3) << 7) | (((rm & 0x8) >> 3) << 6) | ((rm & 0x7) << 3) | (rd
        & 0x7)) as u16)
}

/// `LDR rd, [PC, #im*4]`.
pub fn t_ldr_rd_pc_im_4(rd: u32, im: u32) -> (ret: u16)
    ensures
        ret == (0x4800u32 | ((rd << 8) | (im & 0xff))) as u16,
{
    #[verifier::truncate]
    ((0x4800u32 | ((rd << 8) | (im & 0xff))) as u16)
}

/// `LDR rd, [rn, #im*4]`.
pub fn t_ldr_rd_rn_im_4(rd: u32, rn: u32, im: u32) -> (ret: u16)
    ensures
        ret == (0x6800u32 | (((im & 0x1f) << 6) | ((rn << 3) | rd))) as u16,
{
    #[verifier::truncate]
    ((0x6800u32 | (((im & 0x1f) << 6) | ((rn << 3) | rd))) as u16)
}

/// `ADD rd, rm` over high and low registers.
pub fn t_add_rd_rm(rd: u32, rm: u32) -> (ret: u16)
    ensures
        ret == (0x4400u32 | (((rd & 0x8) >> 3) << 7) | (((rm & 0x8) >> 3) << 6) | ((rm & 0x7) << 3)
            | (rd & 0x7)) as u16,
{
    #[verifier::truncate]
    ((0x4400u32 | (((rd & 0x8) >> 3) << 7) | (((rm & 0x8) >> 3) << 6) | ((rm & 0x7) << 3) | (rd
        & 0x7)) as u16)
}

/// `BLX rm`.
pub fn t_blx(rm: u32) -> (ret: u16)
    ensures
        ret == (0x4780u32 | (rm << 3)) as u16,
{
    #[verifier::truncate]
    ((0x4780u32 | (rm << 3)) as u16)
}

/// Short branch: unconditional (`B`) when `cond` is the always code,
/// otherwise `B<cond>`.
pub fn t_b_im(cond: u32, im: i32) -> (ret: u16)
    requires
        cond < 16,
        -0x8000 <= im < 0x8000,
    ensures
        cond == T_AL ==> ret == 0xe000 + (spec_sh1(im as int) % 0x800),
        cond != T_AL ==> ret == 0xd000 + cond * 0x100 + (spec_sh1(im as int) % 0x100),
{
    let half: i32 = im / 2 + (if im % 2 != 0 && im < 0 {
        -1i32
    } else {
        0i32
    });
    proof {
        assert(half == spec_sh1(im as int));
    }
    if cond == T_AL {
        let m: u32 = (((half % 0x800) + 0x800) % 0x800) as u32;
        (0xe000u32 + m) as u16
    } else {
        let m: u32 = (((half % 0x100) + 0x100) % 0x100) as u32;
        (0xd000u32 + cond * 0x100 + m) as u16
    }
}

/// Arithmetic shift right by one: the halved branch offset, rounded
/// toward minus infinity.
pub open spec fn spec_sh1(im: int) -> int {
    if im >= 0 {
        im / 2
    } else {
        -((-im + 1) / 2)
    }
}

/// `CBZ`/`CBNZ rn, <im>`.
pub fn t_cbz_rn_im(op: u32, rn: u32, im: i32) -> (ret: u16)
    requires
        0 <= im < 0x1_0000,
    ensures
        ret == (0xb100u32 | ((op << 11) | (((im as u32 & 0x40) >> 6) << 9) | (((im as u32 & 0x3e)
            >> 1) << 3) | rn)) as u16,
{
    let imu: u32 = im as u32;
    #[verifier::truncate]
    ((0xb100u32 | ((op << 11) | (((imu & 0x40) >> 6) << 9) | (((imu & 0x3e) >> 1) << 3) | rn))
        as u16)
}

/// First halfword of `MRS rd, APSR`.
pub fn t1_mrs_rd_apsr(_rd: u32) -> (ret: u16)
    ensures
        ret == 0xf3efu16,
{
    0xf3ef
}

/// Second halfword of `MRS rd, APSR`.
pub fn t2_mrs_rd_apsr(rd: u32) -> (ret: u16)
    ensures
        ret == (0x8000u32 | (rd << 8)) as u16,
{
    #[verifier::truncate]
    ((0x8000u32 | (rd << 8)) as u16)
}

/// First halfword of `MSR APSR_nzcvqg, rn`.
pub fn t1_msr_apsr_nzcvqg_rn(rn: u32) -> (ret: u16)
    ensures
        ret == (0xf380u32 | rn) as u16,
{
    #[verifier::truncate]
    ((0xf380u32 | rn) as u16)
}

/// Second halfword of `MSR APSR_nzcvqg, rn`.
pub fn t2_msr_apsr_nzcvqg_rn(_rn: u32) -> (ret: u16)
    ensures
        ret == 0x8c00u16,
{
    0x8c00
}

/// Both halfwords of `MSR APSR_nzcvqg, rn` as one word, second halfword
/// high.
pub fn t_msr_apsr_nzcvqg_rn(rn: u32) -> (ret: u32)
    ensures
        ret == (0x8c00u32 << 16) | ((0xf380u32 | rn) as u16) as u32,
{
    ((t2_msr_apsr_nzcvqg_rn(rn) as u32) << 16) | (t1_msr_apsr_nzcvqg_rn(rn) as u32)
}

/// First halfword of `LDR.W rt, [rn, #im]`.
pub fn t1_ldr_rt_rn_im(_rt: u32, rn: u32, im: i32) -> (ret: u16)
    requires
        -0x1000 < im < 0x1000,
    ensures
        ret == (0xf850u32 | (if im < 0 {
            0u32
        } else {
            1u32 << 7
        }) | rn) as u16,
{
    #[verifier::truncate]
    ((0xf850u32 | (if im < 0 {
        0u32
    } else {
        1u32 << 7
    }) | rn) as u16)
}

/// Second halfword of `LDR.W rt, [rn, #im]`.
pub fn t2_ldr_rt_rn_im(rt: u32, _rn: u32, im: i32) -> (ret: u16)
    requires
        -0x1000 < im < 0x1000,
    ensures
        ret == ((rt << 12) | (if im < 0 {
            (-im) as u32
        } else {
            im as u32
        })) as u16,
{
    let mag: u32 = if im < 0 {
        (-im) as u32
    } else {
        im as u32
    };
    #[verifier::truncate]
    (((rt << 12) | mag) as u16)
}

/// One leading pad halfword when the entry is not word-aligned.
pub open spec fn spec_thumb_align(symbol: u64) -> int {
    if symbol % 4 == 0 {
        0
    } else {
        1
    }
}

/// The prologue already holds the engine's entry patch: an optional pad
/// `NOP`, `BX PC`, `NOP`, then the ARM literal-pool load of PC.
pub open spec fn spec_thumb_installed(hws: Seq<u16>, align: int) -> bool {
    &&& (align == 0 || hws[0] == 0x46c0)
    &&& hws[align] == (0x4700u32 | (T_PC << 3)) as u16
    &&& hws[align + 1] == 0x46c0
    &&& ((hws[align + 2] as u32) | ((hws[align + 3] as u32) << 16))
        == crate::arch::arm::spec_arm_patch_word()
}

/// The displaced byte count: whole Thumb instructions are consumed from
/// `used` until `required` bytes are covered.
pub open spec fn spec_thumb_used(hws: Seq<u16>, required: int, used: int) -> int
    decreases crate::arch::x86_64::spec_remaining(required, used),
{
    if used >= required || used < 0 || used / 2 >= hws.len() {
        used
    } else {
        spec_thumb_used(
            hws,
            required,
            used + (if crate::disasm::arm_decoder::spec_is_thumb_32bit(hws[used / 2]) {
                4int
            } else {
                2int
            }),
        )
    }
}

/// The entry patch: an optional pad `NOP`, `BX PC; NOP`, the ARM
/// literal-pool load of PC as two halfwords, the replacement address as
/// two halfwords, then `NOP` fill up to `used` bytes.
pub open spec fn spec_thumb_patch(symbol: u64, replace: u64, used: int) -> Seq<u16> {
    let align = spec_thumb_align(symbol);
    let ldr = crate::arch::arm::spec_arm_patch_word();
    (if align == 1 {
        seq![0x46c0u16]
    } else {
        Seq::<u16>::empty()
    }) + seq![
        (0x4700u32 | (T_PC << 3)) as u16,
        0x46c0u16,
        (ldr % 0x1_0000) as u16,
        ((ldr / 0x1_0000) % 0x1_0000) as u16,
        (replace % 0x1_0000) as u16,
        ((replace / 0x1_0000) % 0x1_0000) as u16,
    ] + Seq::new(((used - (12 + 2 * align)) / 2) as nat, |i: int| 0x46c0u16)
}

/// The displaced window holds, at an instruction start, a T16
/// `ADD rd, PC` with the high-register bit: the one relocation the
/// engine refuses.
pub open spec fn spec_thumb_rejects(hws: Seq<u16>, n: int, k: int) -> bool
    decreases crate::arch::x86_64::spec_remaining(n, k),
{
    if k < 0 || k >= n || k >= hws.len() {
        false
    } else if crate::disasm::arm_decoder::spec_is_thumb_pc_relative_add(hws[k]) && ((hws[k] >> 7)
        & 0x1) != 0 {
        true
    } else {
        spec_thumb_rejects(
            hws,
            n,
            k + (if crate::disasm::arm_decoder::spec_is_thumb_32bit(hws[k]) {
                2int
            } else {
                1int
            }),
        )
    }
}

/// A halfword none of the rewriters recognize: a 16-bit instruction
/// that is displaced verbatim.
pub open spec fn spec_thumb_plain16(h: u16) -> bool {
    &&& !crate::disasm::arm_decoder::spec_is_thumb_32bit(h)
    &&& !crate::disasm::arm_decoder::spec_is_thumb_pc_relative_ldr(h)
    &&& !crate::disasm::arm_decoder::spec_is_thumb_pc_relative_b(h)
    &&& !crate::disasm::arm_decoder::spec_is_thumb_pc_relative_cbz(h)
    &&& !crate::disasm::arm_decoder::spec_is_thumb_pc_relative_add(h)
}

/// The trampoline image of a window of verbatim halfwords: an optional
/// alignment slot, the displaced halfwords, then the interworking return
/// (`BX PC; NOP`, the ARM literal-pool load of PC, and the resume
/// address with the Thumb bit set).
pub open spec fn spec_thumb_plain_tramp(hws: Seq<u16>, symbol: u64, used: int, pad: int) -> Seq<
    u16,
> {
    let ldr = crate::arch::arm::spec_arm_patch_word();
    let resume = (((symbol + used) % 0x1_0000_0000) as u32) | 1;
    (if pad == 1 {
        seq![0u16]
    } else {
        Seq::<u16>::empty()
    }) + hws.subrange(0, used / 2) + seq![
        (0x4700u32 | (T_PC << 3)) as u16,
        0x46c0u16,
        (ldr & 0xffff) as u16,
        (ldr >> 16) as u16,
        (resume & 0xffff) as u16,
        (resume >> 16) as u16,
    ]
}

/// What the caller gets back for the original function: the destination
/// an earlier installation stored, or a trampoline image of halfwords to
/// place at the chosen base, entered at `entry` (Thumb bit set).
pub enum ThumbTrampoline {
    Direct(u64),
    Built { halfwords: Vec<u16>, entry: u64 },
}

/// A planned Thumb hook: the displaced byte count, the halfwords to
/// write at `symbol + patch_offset`, and what to hand back as the
/// original function.
pub struct ThumbHook {
    pub used: usize,
    pub patch: Vec<u16>,
    pub patch_offset: usize,
    pub trampoline: Option<ThumbTrampoline>,
}

/// A value reduced to 32 bits, in two's complement when negative.
pub open spec fn spec_wrap32(v: int) -> u32 {
    (v % 0x1_0000_0000) as u32
}

/// Reduces a signed value modulo 2^32.
fn wrap32(v: i64) -> (r: u32)
    ensures
        r == spec_wrap32(v as int),
{
    let m: i64 = v % 0x1_0000_0000;
    if m >= 0 {
        m as u32
    } else {
        (m + 0x1_0000_0000) as u32
    }
}

/// Writes the two halfwords of a 32-bit word, low half first.
fn put_word(v: &mut Vec<u16>, idx: usize, w: u32)
    requires
        idx + 2 <= old(v)@.len(),
    ensures
        final(v)@.len() == old(v)@.len(),
        final(v)@[idx as int] == (w & 0xffff) as u16,
        final(v)@[idx + 1] == (w >> 16) as u16,
        forall|k: int|
            0 <= k < final(v)@.len() && k != idx && k != idx + 1 ==> final(v)@[k] == old(v)@[k],
{
    let vn: usize = v.len();
    proof {
        assert((w & 0xffff) < 0x1_0000 && (w >> 16) < 0x1_0000) by (bit_vector);
    }
    v[idx] = (w & 0xffff) as u16;
    v[idx + 1] = (w >> 16) as u16;
}

/// Relocates one displaced Thumb instruction into the trampoline image:
/// `start` walks forward over emitted code, `end` walks backward over the
/// literal trailer, and the result is how many input halfwords were
/// consumed. The sized image always admits the class; the cursor checks
/// discharge the bounds.
#[verifier::rlimit(100)]
#[verifier::spinoff_prover]
fn thumb_reloc_ins(
    v: &mut Vec<u16>,
    hws: &Vec<u16>,
    offset: usize,
    n: usize,
    area: u64,
    start: &mut usize,
    end: &mut usize,
) -> (consumed: usize)
    requires
        offset < n,
        n <= hws@.len(),
        n <= 16,
        area < 0xff00_0000,
        area % 2 == 0,
        old(v)@.len() <= 0x800,
        *old(start) <= *old(end),
        *old(end) <= old(v)@.len(),
    ensures
        final(v)@.len() == old(v)@.len(),
        *final(start) <= *final(end),
        *final(end) <= *old(end),
        *old(start) <= *final(start),
        1 <= consumed <= 2,
        spec_thumb_plain16(hws@[offset as int]) && *old(start) < *old(end) ==> consumed == 1
            && *final(start) == *old(start) + 1 && *final(end) == *old(end) && final(v)@ == old(
            v,
        )@.update(*old(start) as int, hws@[offset as int]),
{
    proof {
        let h0 = hws@[offset as int];
        assert((h0 & 0xf800) == 0xf000 ==> ((h0 & 0xe000) == 0xe000 && (h0 & 0x1800) != 0))
            by (bit_vector);
        assert((h0 & 0xff7f) == 0xf85f ==> ((h0 & 0xe000) == 0xe000 && (h0 & 0x1800) != 0))
            by (bit_vector);
    }
    let ins = hws[offset];
    let ins2: u16 = if offset + 1 < n {
        hws[offset + 1]
    } else {
        0
    };
    let two = offset + 1 < n;

    if is_thumb_pc_relative_ldr(ins) {
        if *start + 2 <= *end && *end >= *start + 4 {
            let immediate: u32 = (ins & 0xff) as u32;
            let rd: u32 = ((ins >> 8) & 0x7) as u32;
            v[*start] = t_ldr_rd_pc_im_4(rd, (t_label(*start, *end - 2) / 4) as u32);
            v[*start + 1] = t_ldr_rd_rn_im_4(rd, rd, 0);
            let x: u64 = area + 2 * (offset as u64) + 4;
            let lit: u64 = ((x / 4) * 4 + (x % 2)) + (immediate as u64) * 4;
            *end = *end - 2;
            put_word(v, *end, (lit % 0x1_0000_0000) as u32);
            *start = *start + 2;
        }
        1
    } else if is_thumb_pc_relative_b(ins) {
        if *start + 1 <= *end && *end >= *start + 7 {
            let imm8: i32 = (ins & 0xff) as i32;
            let cond: u32 = ((ins >> 8) & 0xf) as u32;
            proof {
                assert((ins & 0xff) < 0x100 && ((ins >> 8) & 0xf) < 16) by (bit_vector);
            }
            let mut jump: i32 = imm8 * 2 + 1;
            if jump >= 0x100 {
                jump = jump - 0x200;
            }
            v[*start] = t_b_im(cond, ((*end as i32) - 6 - (*start as i32)) * 2 - 4);
            *end = *end - 2;
            let dest: i64 = area as i64 + 2 * (offset as i64) + 4 + jump as i64;
            put_word(v, *end, wrap32(dest));
            *end = *end - 2;
            put_word(v, *end, a_ldr_rd_rn_im(T_PC, T_PC, 4 - 8));
            *end = *end - 2;
            put_word(v, *end, ((t_nop() as u32) << 16) | (t_bx(T_PC) as u32));
            *start = *start + 1;
        }
        1
    } else if two && is_t2b(ins, ins2) {
        if *start + 1 <= *end && *end >= *start + 7 {
            let bits0 = ins;
            let bits1 = ins2;
            let imm6: i32 = (bits0 & 0x3f) as i32;
            let cond: u32 = ((bits0 >> 6) & 0xf) as u32;
            let s: i32 = ((bits0 >> 10) & 0x1) as i32;
            let imm11: i32 = (bits1 & 0x7ff) as i32;
            let j2: i32 = ((bits1 >> 11) & 0x1) as i32;
            let a: i32 = ((bits1 >> 12) & 0x1) as i32;
            let j1: i32 = ((bits1 >> 13) & 0x1) as i32;
            proof {
                assert((bits0 & 0x3f) < 0x40 && ((bits0 >> 6) & 0xf) < 16 && ((bits0 >> 10) & 0x1)
                    < 2 && (bits1 & 0x7ff) < 0x800 && ((bits1 >> 11) & 0x1) < 2 && ((bits1 >> 12)
                    & 0x1) < 2 && ((bits1 >> 13) & 0x1) < 2) by (bit_vector);
            }

            let nj1: i32 = if s == j1 {
                1
            } else {
                0
            };
            let nj2: i32 = if s == j2 {
                1
            } else {
                0
            };
            let mut jump: i32;
            if a != 0 {
                jump = 1 + imm11 * 2 + imm6 * 0x1000 + (cond as i32) * 0x4_0000 + nj2 * 0x40_0000
                    + nj1 * 0x80_0000 + s * 0x100_0000;
                if jump >= 0x0100_0000 {
                    jump = jump - 0x0200_0000;
                }
            } else {
                jump = 1 + imm11 * 2 + imm6 * 0x1000 + j1 * 0x4_0000 + j2 * 0x8_0000 + s
                    * 0x10_0000;
                if jump >= 0x0010_0000 {
                    jump = jump - 0x0020_0000;
                }
            }
            v[*start] = t_b_im(
                if a != 0 {
                    T_AL
                } else {
                    cond
                },
                ((*end as i32) - 6 - (*start as i32)) * 2 - 4,
            );
            *end = *end - 2;
            let dest: i64 = area as i64 + 2 * (offset as i64) + 4 + jump as i64;
            put_word(v, *end, wrap32(dest));
            *end = *end - 2;
            put_word(v, *end, a_ldr_rd_rn_im(T_PC, T_PC, 4 - 8));
            *end = *end - 2;
            put_word(v, *end, ((t_nop() as u32) << 16) | (t_bx(T_PC) as u32));
            *start = *start + 1;
        }
        2
    } else if two && is_tbl(ins, ins2) {
        if *start + 5 <= *end && *end >= *start + 7 {
            let bits0 = ins;
            let bits1 = ins2;
            let immediate: i32 = (bits0 & 0x3ff) as i32;
            let s: i32 = ((bits0 >> 10) & 0x1) as i32;
            let immediate2: i32 = (bits1 & 0x7ff) as i32;
            let j2: i32 = ((bits1 >> 11) & 0x1) as i32;
            let x: i32 = ((bits1 >> 12) & 0x1) as i32;
            let j1: i32 = ((bits1 >> 13) & 0x1) as i32;
            proof {
                assert((bits0 & 0x3ff) < 0x400 && ((bits0 >> 10) & 0x1) < 2 && (bits1 & 0x7ff)
                    < 0x800 && ((bits1 >> 11) & 0x1) < 2 && ((bits1 >> 12) & 0x1) < 2 && ((bits1
                    >> 13) & 0x1) < 2) by (bit_vector);
            }

            let nj1: i32 = if s == j1 {
                1
            } else {
                0
            };
            let nj2: i32 = if s == j2 {
                1
            } else {
                0
            };
            let mut jump: i32 = s * 0x100_0000 + nj1 * 0x80_0000 + nj2 * 0x40_0000 + immediate
                * 0x1000 + immediate2 * 2 + x;
            if jump >= 0x0100_0000 {
                jump = jump - 0x0200_0000;
            }

            v[*start] = t_push_r(1 << T_R7);
            v[*start + 1] = t_ldr_rd_pc_im_4(
                T_R7,
                ((((*end as i32) - 2 - ((*start as i32) + 1)) * 2 - 4 + 2) / 4) as u32,
            );
            v[*start + 2] = t_mov_rd_rm(T_LR, T_R7);
            v[*start + 3] = t_pop_r(1 << T_R7);
            v[*start + 4] = t_blx(T_LR);
            *end = *end - 2;
            let dest: i64 = area as i64 + 2 * (offset as i64) + 4 + jump as i64;
            put_word(v, *end, wrap32(dest));
            *start = *start + 5;
        }
        2
    } else if is_thumb_pc_relative_cbz(ins) {
        if *start + 7 <= *end && *end >= *start + 17 {
            let rn: u32 = (ins & 0x7) as u32;
            let immediate: i32 = ((ins >> 3) & 0x1f) as i32;
            let i: i32 = ((ins >> 9) & 0x1) as i32;
            let op: u32 = ((ins >> 11) & 0x1) as u32;
            proof {
                assert((ins & 0x7) < 8 && ((ins >> 3) & 0x1f) < 0x20 && ((ins >> 9) & 0x1) < 2 && ((
                ins >> 11) & 0x1) < 2) by (bit_vector);
            }

            let jump: i32 = 1 + i * 0x40 + immediate * 2;

            let rt: u32 = if rn == T_R7 {
                T_R6
            } else {
                T_R7
            };

            v[*start] = t_push_r(1 << rt);
            v[*start + 1] = t1_mrs_rd_apsr(rt);
            v[*start + 2] = t2_mrs_rd_apsr(rt);
            v[*start + 3] = t_cbz_rn_im(
                op,
                rn,
                ((*end as i32) - 10 - ((*start as i32) + 3)) * 2 - 4,
            );
            v[*start + 4] = t1_msr_apsr_nzcvqg_rn(rt);
            v[*start + 5] = t2_msr_apsr_nzcvqg_rn(rt);
            v[*start + 6] = t_pop_r(1 << rt);
            *end = *end - 2;
            let dest: i64 = area as i64 + 2 * (offset as i64) + 4 + jump as i64;
            put_word(v, *end, wrap32(dest));
            *end = *end - 2;
            put_word(v, *end, a_ldr_rd_rn_im(T_PC, T_PC, 4 - 8));
            *end = *end - 2;
            put_word(v, *end, ((t_nop() as u32) << 16) | (t_bx(T_PC) as u32));
            *end = *end - 2;
            put_word(v, *end, ((t_nop() as u32) << 16) | (t_pop_r(1 << rt) as u32));
            *end = *end - 2;
            put_word(v, *end, t_msr_apsr_nzcvqg_rn(rt));
            *start = *start + 7;
        }
        1
    } else if is_thumb_pc_relative_ldrw(ins) {
        if *start + 4 <= *end && *end >= *start + 6 && two {
            let bits0 = ins;
            let bits1 = ins2;
            let u: i32 = ((bits0 >> 7) & 0x1) as i32;
            let immediate: i32 = (bits1 & 0xfff) as i32;
            let rt: u32 = ((bits1 >> 12) & 0xf) as u32;
            proof {
                assert(((bits0 >> 7) & 0x1) < 2 && (bits1 & 0xfff) < 0x1000 && ((bits1 >> 12)
                    & 0xf) < 16) by (bit_vector);
            }

            let lab = t_label(*start, *end - 2);
            if -0x1000 < lab && lab < 0x1000 {
                v[*start] = t1_ldr_rt_rn_im(rt, T_PC, lab);
                v[*start + 1] = t2_ldr_rt_rn_im(rt, T_PC, lab);
                v[*start + 2] = t1_ldr_rt_rn_im(rt, rt, 0);
                v[*start + 3] = t2_ldr_rt_rn_im(rt, rt, 0);
                let x: u64 = area + 2 * (offset as u64) + 4;
                let base4: i64 = ((x / 4) * 4 + (x % 2)) as i64;
                let dest: i64 = base4 + (if u == 0 {
                    -immediate
                } else {
                    immediate
                }) as i64;
                *end = *end - 2;
                put_word(v, *end, wrap32(dest));
                *start = *start + 4;
            }
        }
        2
    } else if is_thumb_pc_relative_add(ins) {
        // a high-register form was already refused by the caller
        if *start + 5 <= *end && *end >= *start + 7 {
            let rd: u32 = (ins & 0x7) as u32;
            let h1: u32 = ((ins >> 7) & 0x1) as u32;
            let rt: u32 = if rd == T_R7 {
                T_R6
            } else {
                T_R7
            };
            v[*start] = t_push_r(1 << rt);
            v[*start + 1] = t_mov_rd_rm(rt, (h1 << 3) | rd);
            v[*start + 2] = t_ldr_rd_pc_im_4(rd, (t_label(*start + 2, *end - 2) / 4) as u32);
            v[*start + 3] = t_add_rd_rm((h1 << 3) | rd, rt);
            v[*start + 4] = t_pop_r(1 << rt);
            let dest: i64 = area as i64 + 2 * (offset as i64) + 4;
            *end = *end - 2;
            put_word(v, *end, wrap32(dest));
            *start = *start + 5;
        }
        1
    } else if is_thumb_32bit(ins) {
        if *start + 2 <= *end && two {
            v[*start] = ins;
            v[*start + 1] = ins2;
            *start = *start + 2;
        }
        2
    } else {
        if *start + 1 <= *end {
            v[*start] = ins;
            *start = *start + 1;
        }
        1
    }
}

/// `B`/`B.W` (T32) on two explicit halfwords.
fn is_t2b(h0: u16, h1: u16) -> (r: bool)
    ensures
        r == crate::disasm::arm_decoder::spec_is_thumb2_pc_relative_b(h0, h1),
{
    (h0 & 0xf800) == 0xf000 && ((h1 & 0xd000) == 0x9000 || (h1 & 0xd000) == 0x8000) && (h0
        & 0x0380) != 0x0380
}

/// `BL`/`BLX` (T32) on two explicit halfwords.
fn is_tbl(h0: u16, h1: u16) -> (r: bool)
    ensures
        r == crate::disasm::arm_decoder::spec_is_thumb_pc_relative_bl(h0, h1),
{
    (h0 & 0xf800) == 0xf000 && ((h1 & 0xd000) == 0xd000 || (h1 & 0xd001) == 0xc000)
}

/// Rewrites one Thumb prologue and plans its trampoline.
///
/// `symbol` is the target address with the Thumb bit already cleared,
/// `replace` the replacement address, `prologue` the halfwords found at
/// `symbol` (at least sixteen), and `tramp_base`, when given, the
/// 4-aligned address at which the embedder will place the trampoline.
///
/// The patch interworks to ARM and loads PC from an inline literal; a
/// leading `NOP` pads unaligned entries so the literal's word, at byte
/// offset `patch_offset + 8` when re-installing and inside the patch
/// otherwise, is always 4-byte aligned. When the prologue already holds
/// this exact pattern and a trampoline was asked for, only the literal
/// word is rewritten and the address it held is handed back.
#[verifier::rlimit(100)]
#[verifier::spinoff_prover]
pub fn hook_function_thumb(
    symbol: u64,
    replace: u64,
    prologue: &Vec<u16>,
    tramp_base: Option<u64>,
) -> (r: Result<ThumbHook, SubstrateError>)
    requires
        prologue@.len() >= 16,
        symbol % 2 == 0,
        symbol < 0xff00_0000,
        replace < 0x1_0000_0000,
        tramp_base matches Some(base) ==> base % 4 == 0 && base < 0xff00_0000,
    ensures
        r is Ok <==> (symbol != 0 && !(tramp_base is Some && !spec_thumb_installed(
            prologue@,
            spec_thumb_align(symbol),
        ) && spec_thumb_rejects(
            prologue@,
            spec_thumb_used(prologue@, 12 + 2 * spec_thumb_align(symbol), 0) / 2,
            0,
        ))),
        symbol == 0 ==> (r matches Err(e) && e is NullPointer),
        r matches Err(e) ==> e is NullPointer || e is HookFailed,
        r matches Ok(h) ==> {
            let align = spec_thumb_align(symbol);
            let installed = spec_thumb_installed(prologue@, align);
            &&& h.used % 2 == 0
            &&& (installed ==> h.used == 4 && h.patch_offset == 2 * align + 8 && (symbol
                + h.patch_offset as int) % 4 == 0 && h.patch@ == seq![
                (replace % 0x1_0000) as u16,
                ((replace / 0x1_0000) % 0x1_0000) as u16,
            ] && (tramp_base is Some ==> (h.trampoline matches Some(ThumbTrampoline::Direct(d))
                && d == ((prologue@[align + 4] as u32) | ((prologue@[align + 5] as u32) << 16))))
                && (tramp_base is None ==> h.trampoline is None))
            &&& (!installed ==> h.used == spec_thumb_used(prologue@, 12 + 2 * align, 0)
                && h.patch_offset == 0 && (symbol + 2 * align + 8) % 4 == 0 && h.patch@
                == spec_thumb_patch(symbol, replace, h.used as int) && (tramp_base matches Some(
                base,
            ) ==> (h.trampoline matches Some(ThumbTrampoline::Built { halfwords, entry })
                && halfwords@.len() >= 6 && (entry == base + 1 || entry == base + 3)))
                && (tramp_base is None ==> h.trampoline is None))
            &&& (!installed && tramp_base is Some && (forall|k: int|
                0 <= k < h.used / 2 ==> spec_thumb_plain16(#[trigger] prologue@[k])) ==> (
            h.trampoline matches Some(ThumbTrampoline::Built { halfwords, entry }) && halfwords@
                == spec_thumb_plain_tramp(
                prologue@,
                symbol,
                h.used as int,
                if h.used % 4 == 2 {
                    1int
                } else {
                    0int
                },
            )))
        },
{
    if symbol == 0 {
        return Err(SubstrateError::NullPointer);
    }

    let align: usize = if symbol % 4 == 0 {
        0
    } else {
        1
    };
    let required: usize = 12 + 2 * align;

    // an installation already lives here: move only the literal word
    let already = (align == 0 || prologue[0] == t_nop()) && prologue[align] == t_bx(T_PC)
        && prologue[align + 1] == t_nop() && ((prologue[align + 2] as u32) | ((prologue[align + 3]
        as u32) << 16)) == a_ldr_rd_rn_im(T_PC, T_PC, 4 - 8);
    proof {
        assert(already == spec_thumb_installed(prologue@, align as int));
    }

    if already {
        let old_word: u32 = (prologue[align + 4] as u32) | ((prologue[align + 5] as u32) << 16);
        let mut patch: Vec<u16> = Vec::new();
        patch.push((replace % 0x1_0000) as u16);
        patch.push(((replace / 0x1_0000) % 0x1_0000) as u16);
        let trampoline: Option<ThumbTrampoline> = if tramp_base.is_some() {
            Some(ThumbTrampoline::Direct(old_word as u64))
        } else {
            None
        };
        proof {
            assert(patch@ =~= seq![
                (replace % 0x1_0000) as u16,
                ((replace / 0x1_0000) % 0x1_0000) as u16,
            ]);
        }
        return Ok(ThumbHook { used: 4, patch, patch_offset: 2 * align + 8, trampoline });
    }

    let mut used: usize = 0;
    while used < required
        invariant
            required <= 14,
            required % 2 == 0,
            prologue@.len() >= 16,
            used % 2 == 0,
            used <= required + 2,
            spec_thumb_used(prologue@, required as int, used as int) == spec_thumb_used(
                prologue@,
                required as int,
                0,
            ),
        decreases crate::arch::x86_64::spec_remaining(required as int, used as int),
    {
        let w = crate::disasm::arm_decoder::get_thumb_instruction_width(prologue[used / 2]);
        used = used + w;
    }
    proof {
        assert(used as int == spec_thumb_used(prologue@, required as int, 0));
    }
    used = (used + 1) / 2 * 2;
    let blank: usize = (used - required) / 2;
    let n: usize = used / 2;

    let mut trampoline: Option<ThumbTrampoline> = None;
    if let Some(base) = tramp_base {
        // reject the relocation the engine cannot express, testing only
        // instruction starts
        let mut k: usize = 0;
        while k < n
            invariant
                n <= 8,
                prologue@.len() >= 16,
                symbol != 0,
                n as int == spec_thumb_used(prologue@, required as int, 0) / 2,
                used as int == spec_thumb_used(prologue@, required as int, 0),
                align == spec_thumb_align(symbol),
                required == 12 + 2 * align,
                !spec_thumb_installed(prologue@, align as int),
                tramp_base is Some,
                spec_thumb_rejects(prologue@, n as int, k as int) == spec_thumb_rejects(
                    prologue@,
                    n as int,
                    0,
                ),
            decreases crate::arch::x86_64::spec_remaining(n as int, k as int),
        {
            if is_thumb_pc_relative_add(prologue[k]) && ((prologue[k] >> 7) & 0x1) != 0 {
                return Err(
                    SubstrateError::HookFailed(
                        "PC-relative add with high register".to_owned(),
                    ),
                );
            }
            k = k + crate::disasm::arm_decoder::get_thumb_instruction_width(prologue[k]) / 2;
        }
        proof {
            assert(!spec_thumb_rejects(prologue@, n as int, 0));
        }

        let ghost all_plain: bool = forall|k: int|
            0 <= k < n ==> spec_thumb_plain16(#[trigger] prologue@[k]);

        let mut length: usize = used;
        let mut off: usize = 0;
        while off < n
            invariant
                n <= 8,
                off <= n,
                prologue@.len() >= 16,
                length <= used + 32 * off,
                used <= 16,
                all_plain == (forall|k: int|
                    0 <= k < n ==> spec_thumb_plain16(#[trigger] prologue@[k])),
                all_plain ==> length == used,
            decreases n - off,
        {
            let h0 = prologue[off];
            let h1: u16 = if off + 1 < 16 {
                prologue[off + 1]
            } else {
                0
            };
            proof {
                assert((h0 & 0xf800) == 0xf000 ==> ((h0 & 0xe000) == 0xe000 && (h0 & 0x1800) != 0))
                    by (bit_vector);
                assert((h0 & 0xff7f) == 0xf85f ==> ((h0 & 0xe000) == 0xe000 && (h0 & 0x1800) != 0))
                    by (bit_vector);
            }
            if is_thumb_pc_relative_ldr(h0) {
                length = length + 3 * 2;
            } else if is_thumb_pc_relative_b(h0) {
                length = length + 6 * 2;
            } else if is_t2b(h0, h1) {
                length = length + 5 * 2;
            } else if is_tbl(h0, h1) {
                length = length + 5 * 2;
            } else if is_thumb_pc_relative_cbz(h0) {
                length = length + 16 * 2;
            } else if is_thumb_pc_relative_ldrw(h0) {
                length = length + 4 * 2;
            } else if is_thumb_pc_relative_add(h0) {
                length = length + 6 * 2;
            }
            off = off + 1;
        }

        let pad: usize = if (length & 0x2) == 0 {
            0
        } else {
            1
        };
        proof {
            if all_plain {
                let lu = length as u64;
                assert(((lu & 0x2) == 0) == (lu % 4 != 2)) by (bit_vector)
                    requires
                        lu % 2 == 0,
                ;
                assert((length & 0x2) == (lu & 0x2));
            }
        }
        let length2: usize = length + (pad + 2) * 2 + 2 * 4;
        let total: usize = length2 / 2;

        let mut v: Vec<u16> = vec![0u16; total];
        let mut start: usize = pad;
        let mut end: usize = total;
        proof {
            if all_plain {
                assert(v@ =~= (if pad == 1 {
                    seq![0u16]
                } else {
                    Seq::<u16>::empty()
                }) + prologue@.subrange(0, 0) + Seq::new((total - pad) as nat, |i: int| 0u16));
            }
        }

        let mut offset: usize = 0;
        while offset < n
            invariant
                n <= 8,
                n <= prologue@.len(),
                prologue@.len() >= 16,
                symbol < 0xff00_0000,
                symbol % 2 == 0,
                v@.len() == total,
                total <= 0x800,
                start <= end,
                end <= total,
                all_plain == (forall|k: int|
                    0 <= k < n ==> spec_thumb_plain16(#[trigger] prologue@[k])),
                all_plain ==> offset <= n && start == pad + offset && end == total && total == pad
                    + n + 6 && v@ == (if pad == 1 {
                    seq![0u16]
                } else {
                    Seq::<u16>::empty()
                }) + prologue@.subrange(0, offset as int) + Seq::new(
                    (total - pad - offset) as nat,
                    |i: int| 0u16,
                ),
            decreases crate::arch::x86_64::spec_remaining(n as int, offset as int),
        {
            let ghost pre = v@;
            let ghost pre_start = start;
            let consumed = thumb_reloc_ins(&mut v, prologue, offset, n, symbol, &mut start,
                &mut end);
            proof {
                if all_plain {
                    assert(v@ =~= (if pad == 1 {
                        seq![0u16]
                    } else {
                        Seq::<u16>::empty()
                    }) + prologue@.subrange(0, offset + 1) + Seq::new(
                        (total - pad - offset - 1) as nat,
                        |i: int| 0u16,
                    ));
                }
            }
            offset = offset + consumed;
        }

        if start + 6 <= end {
            v[start] = t_bx(T_PC);
            v[start + 1] = t_nop();
            put_word(&mut v, start + 2, a_ldr_rd_rn_im(T_PC, T_PC, 4 - 8));
            put_word(
                &mut v,
                start + 4,
                (((symbol + used as u64) % 0x1_0000_0000) as u32) | 1,
            );
        }
        proof {
            if all_plain {
                assert(v@ =~= spec_thumb_plain_tramp(
                    prologue@,
                    symbol,
                    used as int,
                    pad as int,
                ));
            }
        }

        trampoline = Some(
            ThumbTrampoline::Built { halfwords: v, entry: base + 2 * (pad as u64) + 1 },
        );
    }

    let mut patch: Vec<u16> = Vec::new();
    if align != 0 {
        patch.push(t_nop());
    }
    patch.push(t_bx(T_PC));
    patch.push(t_nop());
    let ldr = a_ldr_rd_rn_im(T_PC, T_PC, 4 - 8);
    patch.push((ldr % 0x1_0000) as u16);
    patch.push(((ldr / 0x1_0000) % 0x1_0000) as u16);
    patch.push((replace % 0x1_0000) as u16);
    patch.push(((replace / 0x1_0000) % 0x1_0000) as u16);
    let ghost head: Seq<u16> = patch@;
    proof {
        assert(head =~= spec_thumb_patch(symbol, replace, (12 + 2 * align) as int));
    }
    let mut f: usize = 0;
    while f < blank
        invariant
            f <= blank,
            blank <= 2,
            patch@ == head + Seq::new(f as nat, |i: int| 0x46c0u16),
        decreases blank - f,
    {
        patch.push(t_nop());
        proof {
            assert(patch@ =~= head + Seq::new((f + 1) as nat, |i: int| 0x46c0u16));
        }
        f = f + 1;
    }
    proof {
        assert(patch@ =~= spec_thumb_patch(symbol, replace, used as int));
    }

    Ok(ThumbHook { used, patch, patch_offset: 0, trampoline })
}

} // verus!
