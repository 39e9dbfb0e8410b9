//! A64 (AArch64) backend: fixed-width instruction relocation with
//! cross-reference fixup.
//!
//! The displaced window holds at most five 32-bit instructions. Branches,
//! conditional/compare/test branches, literal loads and PC-relative
//! address computations are rewritten; a branch whose target lies inside
//! the window is resolved against the relocated image of its target,
//! through a fix-map of pending back-patches when the target has not been
//! emitted yet. A literal load that must inline its data does not read
//! memory here: the plan records a copy the embedder performs.

use vstd::prelude::*;

use crate::error::SubstrateError;

verus! {

pub const A64_MAX_INSTRUCTIONS: usize = 5;

pub const A64_MAX_REFERENCES: usize = 10;

pub const A64_NOP: u32 = 0xd503201f;

/// Worst-case number of output words for one displaced window, tail jump
/// included; the embedder's trampoline slots are sized to it.
pub const A64_MAX_TRAMPOLINE_WORDS: usize = 50;

/// A pending back-patch: the emitted word at `out_idx` waits for the slot
/// it references; when that slot is emitted, the word offset between the
/// two, shifted by `ls` and masked by `ad`, is OR-ed into it.
pub struct FixEntry {
    pub out_idx: usize,
    pub ls: u32,
    pub ad: u32,
}

/// Relocation context of one displaced window: its address range, where
/// each input slot was emitted, and the pending back-patches per slot.
pub struct Context {
    pub basep: i64,
    pub endp: i64,
    pub out_pos: Vec<usize>,
    pub out_set: Vec<bool>,
    pub fmap: Vec<Vec<FixEntry>>,
}

/// The context is well formed with respect to an output of `out_len`
/// words: every recorded position and pending patch points inside it.
pub open spec fn ctx_wf(ctx: Context, out_len: int) -> bool {
    &&& ctx.out_pos@.len() == A64_MAX_INSTRUCTIONS
    &&& ctx.out_set@.len() == A64_MAX_INSTRUCTIONS
    &&& ctx.fmap@.len() == A64_MAX_INSTRUCTIONS
    &&& forall|i: int|
        0 <= i < A64_MAX_INSTRUCTIONS ==> (#[trigger] ctx.out_pos@[i]) <= out_len
    &&& forall|i: int, j: int|
        0 <= i < A64_MAX_INSTRUCTIONS && 0 <= j < ctx.fmap@[i].len() ==> (#[trigger] ctx.fmap@[i][j].out_idx) < out_len
    &&& forall|i: int| 0 <= i < A64_MAX_INSTRUCTIONS ==> (#[trigger] ctx.fmap@[i]).len() <= A64_MAX_REFERENCES
}

impl Context {
    /// A fresh context for a window of `count` instructions at `basep`.
    pub fn new(basep: i64, count: usize) -> (r: Context)
        requires
            count <= A64_MAX_INSTRUCTIONS,
            0 <= basep,
            basep + 4 * count <= 0x7fff_ffff_ffff_ffff,
        ensures
            ctx_wf(r, 0),
            r.basep == basep,
            r.endp == basep + 4 * count,
            forall|i: int| 0 <= i < A64_MAX_INSTRUCTIONS ==> !r.out_set@[i],
            forall|i: int| 0 <= i < A64_MAX_INSTRUCTIONS ==> (#[trigger] r.fmap@[i]).len() == 0,
    {
        let mut fmap: Vec<Vec<FixEntry>> = Vec::new();
        let mut i: usize = 0;
        while i < A64_MAX_INSTRUCTIONS
            invariant
                i <= A64_MAX_INSTRUCTIONS,
                fmap@.len() == i,
                forall|k: int| 0 <= k < i ==> (#[trigger] fmap@[k]).len() == 0,
            decreases A64_MAX_INSTRUCTIONS - i,
        {
            fmap.push(Vec::new());
            i = i + 1;
        }
        Context {
            basep,
            endp: basep + 4 * (count as i64),
            out_pos: vec![0usize, 0usize, 0usize, 0usize, 0usize],
            out_set: vec![false, false, false, false, false],
            fmap,
        }
    }

    /// Whether an absolute address lies inside the displaced window.
    pub fn is_in_fixing_range(&self, absolute_addr: i64) -> (r: bool)
        ensures
            r == (self.basep <= absolute_addr < self.endp),
    {
        absolute_addr >= self.basep && absolute_addr < self.endp
    }

    /// The input slot an absolute address inside the window refers to.
    pub fn get_ref_ins_index(&self, absolute_addr: i64) -> (r: usize)
        requires
            self.basep <= absolute_addr,
            absolute_addr - self.basep < 4 * A64_MAX_INSTRUCTIONS,
        ensures
            r == (absolute_addr - self.basep) / 4,
            r < A64_MAX_INSTRUCTIONS,
    {
        ((absolute_addr - self.basep) / 4) as usize
    }

    /// Records that the slot holding `in_addr` is emitted at `out_idx`,
    /// and returns that slot's index.
    pub fn get_and_set_current_index(&mut self, in_addr: i64, out_idx: usize) -> (r: usize)
        requires
            old(self).basep <= in_addr,
            in_addr - old(self).basep < 4 * A64_MAX_INSTRUCTIONS,
            ctx_wf(*old(self), out_idx as int),
        ensures
            r == (in_addr - old(self).basep) / 4,
            r < A64_MAX_INSTRUCTIONS,
            ctx_wf(*final(self), out_idx as int),
            final(self).basep == old(self).basep,
            final(self).endp == old(self).endp,
            final(self).out_pos@ == old(self).out_pos@.update(r as int, out_idx),
            final(self).out_set@ == old(self).out_set@.update(r as int, true),
            final(self).fmap@ == old(self).fmap@,
    {
        let current_idx = self.get_ref_ins_index(in_addr);
        self.out_pos[current_idx] = out_idx;
        self.out_set[current_idx] = true;
        current_idx
    }

    /// Moves a slot's recorded emission position, after alignment padding
    /// displaced it.
    pub fn reset_current_ins(&mut self, idx: usize, out_idx: usize)
        requires
            idx < A64_MAX_INSTRUCTIONS,
            ctx_wf(*old(self), out_idx as int),
        ensures
            ctx_wf(*final(self), out_idx as int),
            final(self).basep == old(self).basep,
            final(self).endp == old(self).endp,
            final(self).out_pos@ == old(self).out_pos@.update(idx as int, out_idx),
            final(self).out_set@ == old(self).out_set@.update(idx as int, true),
            final(self).fmap@ == old(self).fmap@,
    {
        self.out_pos[idx] = out_idx;
        self.out_set[idx] = true;
    }

    /// Queues a back-patch of the word at `out_idx` against slot `idx`;
    /// silently dropped when the slot's queue is full.
    pub fn insert_fix_map(&mut self, idx: usize, out_idx: usize, ls: u32, ad: u32)
        requires
            idx < A64_MAX_INSTRUCTIONS,
            ctx_wf(*old(self), out_idx as int),
        ensures
            ctx_wf(*final(self), out_idx + 1),
            final(self).basep == old(self).basep,
            final(self).endp == old(self).endp,
            final(self).out_pos@ == old(self).out_pos@,
            final(self).out_set@ == old(self).out_set@,
            final(self).fmap@.len() == old(self).fmap@.len(),
            forall|k: int|
                0 <= k < old(self).fmap@.len() && k != idx ==> final(self).fmap@[k] == old(
                self,
            ).fmap@[k],
            old(self).fmap@[idx as int]@.len() < A64_MAX_REFERENCES ==> final(self).fmap@[
                idx as int
            ]@ == old(self).fmap@[idx as int]@.push(FixEntry { out_idx, ls, ad }),
            old(self).fmap@[idx as int]@.len() >= A64_MAX_REFERENCES ==> final(self).fmap@[
                idx as int
            ] == old(self).fmap@[idx as int],
    {
        if self.fmap[idx].len() < A64_MAX_REFERENCES {
            let entry = FixEntry { out_idx, ls, ad };
            let mut slot = self.fmap.remove(idx);
            slot.push(entry);
            self.fmap.insert(idx, slot);
        }
    }

    /// Resolves every back-patch pending on slot `idx` now that its
    /// emission position is known, OR-ing the encoded word offset into
    /// each waiting word, and clears the queue.
    pub fn process_fix_map(&mut self, out: &mut Vec<u32>, idx: usize)
        requires
            idx < A64_MAX_INSTRUCTIONS,
            ctx_wf(*old(self), old(out)@.len() as int),
            old(out)@.len() <= 0x1000,
            old(self).out_set@[idx as int],
        ensures
            ctx_wf(*final(self), final(out)@.len() as int),
            final(out)@.len() == old(out)@.len(),
            final(self).basep == old(self).basep,
            final(self).endp == old(self).endp,
            final(self).out_pos@ == old(self).out_pos@,
            final(self).out_set@ == old(self).out_set@,
            final(self).fmap@.len() == old(self).fmap@.len(),
            forall|k: int|
                0 <= k < old(self).fmap@.len() && k != idx ==> final(self).fmap@[k] == old(
                self,
            ).fmap@[k],
            final(self).fmap@[idx as int]@.len() == 0,
            forall|k: int|
                0 <= k < final(out)@.len() && (forall|j: int|
                    0 <= j < old(self).fmap@[idx as int].len() ==> k != (
                    #[trigger] old(self).fmap@[idx as int][j]).out_idx) ==> final(out)@[k] == old(
                out,
            )@[k],
            forall|j: int|
                0 <= j < old(self).fmap@[idx as int].len() && (forall|j2: int|
                    0 <= j2 < old(self).fmap@[idx as int].len() && j2 != j ==> (
                    #[trigger] old(self).fmap@[idx as int][j2]).out_idx != old(self).fmap@[
                        idx as int
                    ][j].out_idx) ==> (#[trigger] old(self).fmap@[idx as int][j]).ls >= 32
                    || final(out)@[old(self).fmap@[idx as int][j].out_idx as int] == (old(out)@[
                    old(self).fmap@[idx as int][j].out_idx as int
                ] | ((spec_enc_word(old(self).out_pos@[idx as int] - old(self).fmap@[
                    idx as int
                ][j].out_idx) << old(self).fmap@[idx as int][j].ls) & old(self).fmap@[
                    idx as int
                ][j].ad)),
    {
        let pos = self.out_pos[idx];
        let mut slot = self.fmap.remove(idx);
        let n = slot.len();
        let mut j: usize = 0;
        while j < n
            invariant
                j <= n,
                n == slot@.len(),
                idx < A64_MAX_INSTRUCTIONS,
                out@.len() == old(out)@.len(),
                out@.len() <= 0x1000,
                pos <= out@.len(),
                forall|t: int| 0 <= t < n ==> (#[trigger] slot@[t]).out_idx < out@.len(),
                forall|k: int|
                    0 <= k < out@.len() && (forall|t: int|
                        0 <= t < n ==> k != (#[trigger] slot@[t]).out_idx) ==> out@[k] == old(
                    out,
                )@[k],
                slot@ == old(self).fmap@[idx as int]@,
                pos == old(self).out_pos@[idx as int],
                forall|t: int|
                    0 <= t < j && (forall|t2: int|
                        0 <= t2 < n && t2 != t ==> (#[trigger] slot@[t2]).out_idx
                            != slot@[t].out_idx) ==> (#[trigger] slot@[t]).ls >= 32 || out@[
                    slot@[t].out_idx as int
                ] == (old(out)@[slot@[t].out_idx as int] | ((spec_enc_word(pos - slot@[t].out_idx)
                    << slot@[t].ls) & slot@[t].ad)),
                forall|t: int|
                    j <= t < n && (forall|t2: int|
                        0 <= t2 < n && t2 != t ==> (#[trigger] slot@[t2]).out_idx
                            != slot@[t].out_idx) ==> out@[slot@[t].out_idx as int] == old(out)@[
                    slot@[t].out_idx as int
                ],
            decreases n - j,
        {
            let e_idx = slot[j].out_idx;
            let ls = slot[j].ls;
            let ad = slot[j].ad;
            let offset_words: i64 = pos as i64 - e_idx as i64;
            let enc: u32 = enc_word(offset_words);
            let shifted: u32 = if ls < 32 {
                enc << ls
            } else {
                0
            };
            out[e_idx] = out[e_idx] | (shifted & ad);
            j = j + 1;
        }
        self.fmap.insert(idx, Vec::new());
    }
}

/// Divides a multiple of four by four, rounding exactly.
fn div4_exact(a: i64) -> (r: i64)
    requires
        a % 4 == 0,
        -0x4000_0000_0000_0000 < a < 0x4000_0000_0000_0000,
    ensures
        r == a / 4,
{
    if a >= 0 {
        a / 4
    } else {
        let q: i64 = -((-a) / 4);
        proof {
            assert(q == a / 4) by (nonlinear_arith)
                requires
                    a % 4 == 0 && a < 0 && q == -((-a) / 4) && -0x4000_0000_0000_0000 < a,
            ;
        }
        q
    }
}

/// Two's-complement 32-bit image of a small signed word offset.
pub open spec fn spec_enc_word(off: int) -> u32
    recommends
        -0x8000_0000 <= off <= 0x7fff_ffff,
{
    if off >= 0 {
        off as u32
    } else {
        (off + 0x1_0000_0000) as u32
    }
}

/// Encodes a small signed word offset in two's complement.
pub fn enc_word(off: i64) -> (r: u32)
    requires
        -0x8000_0000 <= off <= 0x7fff_ffff,
    ensures
        r == spec_enc_word(off as int),
{
    if off >= 0 {
        off as u32
    } else {
        (off + 0x1_0000_0000) as u32
    }
}

/// Low word of a 64-bit value, as inlined into a literal pool.
pub open spec fn spec_lo_word(a: int) -> u32 {
    ((a % 0x1_0000_0000_0000_0000) % 0x1_0000_0000) as u32
}

/// High word of a 64-bit value, as inlined into a literal pool.
pub open spec fn spec_hi_word(a: int) -> u32 {
    (((a % 0x1_0000_0000_0000_0000) / 0x1_0000_0000) % 0x1_0000_0000) as u32
}

/// Pushes a 64-bit value as two little-endian literal-pool words, in
/// two's complement when it is negative.
fn push_addr_words(out: &mut Vec<u32>, a: i64)
    ensures
        final(out)@ == old(out)@.push(spec_lo_word(a as int)).push(spec_hi_word(a as int)),
{
    let au: u64 = if a >= 0 {
        a as u64
    } else {
        u64::MAX - ((-(a + 1)) as u64)
    };
    out.push((au % 0x1_0000_0000) as u32);
    out.push(((au / 0x1_0000_0000) % 0x1_0000_0000) as u32);
}

/// A copy of raw memory the embedder must perform to finish a trampoline:
/// `words` 32-bit words read at `addr` land at `out_idx` in the image.
pub struct LiteralCopy {
    pub out_idx: usize,
    pub addr: i64,
    pub words: usize,
}

/// Context well-formedness is monotone in the output length.
pub proof fn lemma_ctx_wf_mono(ctx: Context, a: int, b: int)
    requires
        ctx_wf(ctx, a),
        a <= b,
    ensures
        ctx_wf(ctx, b),
{
}

/// The absolute target of a `B` or `BL` instruction at `in_addr`.
pub open spec fn spec_b_target(ins: u32, in_addr: int) -> int {
    if (ins & 0x03ff_ffff) >= 0x0200_0000 {
        in_addr + 4 * ((ins & 0x03ff_ffff) - 0x0400_0000)
    } else {
        in_addr + 4 * (ins & 0x03ff_ffff)
    }
}

/// An unconditional branch or branch-and-link: `B` or `BL`.
pub open spec fn spec_is_branch_imm(ins: u32) -> bool {
    (ins & 0xfc00_0000) == 0x1400_0000 || (ins & 0xfc00_0000) == 0x9400_0000
}

/// An instruction none of the rewriters recognize: it is displaced
/// verbatim.
pub open spec fn spec_is_plain(ins: u32) -> bool {
    !spec_is_branch_imm(ins) && !spec_is_cond_comp_test(ins) && !spec_is_loadlit(ins)
        && !spec_is_pcreladdr(ins)
}

/// A conditional, compare or test branch: `B.cond`, `CBZ`/`CBNZ` or
/// `TBZ`/`TBNZ`.
pub open spec fn spec_is_cond_comp_test(ins: u32) -> bool {
    ||| (ins & 0xff00_0010) == 0x5400_0000
    ||| (ins & 0x7f00_0000) == 0x3400_0000
    ||| (ins & 0x7f00_0000) == 0x3500_0000
    ||| (ins & 0x7f00_0000) == 0x3600_0000
    ||| (ins & 0x7f00_0000) == 0x3700_0000
}

/// A literal load: the prefetch form, `LDR (literal)`, the SIMD form, or
/// `LDRSW (literal)`.
pub open spec fn spec_is_loadlit(ins: u32) -> bool {
    ||| (ins & 0xff00_0000) == 0xd800_0000
    ||| (ins & 0xbf00_0000) == 0x1800_0000
    ||| (ins & 0x3f00_0000) == 0x1c00_0000
    ||| (ins & 0xff00_0000) == 0x9800_0000
}

/// A PC-relative address computation: `ADR` or `ADRP`.
pub open spec fn spec_is_pcreladdr(ins: u32) -> bool {
    (ins & 0x9f00_0000) == 0x1000_0000 || (ins & 0x9f00_0000) == 0x9000_0000
}

/// The lane mask of a conditional, compare or test branch: the bits the
/// rewriter keeps; the rest is the offset field.
pub open spec fn spec_ct_lmask(ins: u32) -> u32 {
    if (ins & 0xff00_0010) == 0x5400_0000 || (ins & 0x7f00_0000) == 0x3400_0000 || (ins
        & 0x7f00_0000) == 0x3500_0000 {
        0xff00_001f
    } else {
        0xfff8_001f
    }
}

/// The absolute target of a conditional, compare or test branch: the
/// signed offset field (19 bits, or 14 for the test branches) scaled to
/// bytes.
pub open spec fn spec_ct_target(ins: u32, in_addr: int) -> int {
    let f = (ins & !spec_ct_lmask(ins)) >> 5;
    if spec_ct_lmask(ins) == 0xff00_001f {
        if f >= 0x4_0000 {
            in_addr + 4 * (f - 0x8_0000)
        } else {
            in_addr + 4 * f
        }
    } else {
        if f >= 0x2000 {
            in_addr + 4 * (f - 0x4000)
        } else {
            in_addr + 4 * f
        }
    }
}

/// The absolute target of an `ADR`.
pub open spec fn spec_adr_target(ins: u32, in_addr: int) -> int {
    let f = (ins >> 5) & 0x7_ffff;
    let lo = (ins >> 29) & 0x3;
    in_addr + (if f >= 0x4_0000 {
        4 * (f - 0x8_0000)
    } else {
        4 * f
    }) + lo
}

/// The page-aligned absolute target of an `ADRP`.
pub open spec fn spec_adrp_target(ins: u32, in_addr: int) -> int {
    let f = (ins >> 5) & 0x7_ffff;
    let lo = (ins >> 29) & 0x3;
    let full = (if f >= 0x4_0000 {
        4 * (f - 0x8_0000)
    } else {
        4 * f
    }) + lo;
    (in_addr - in_addr % 4096) + 4096 * full
}

/// The absolute literal address of a literal-pool load.
pub open spec fn spec_ll_target(ins: u32, in_addr: int) -> int {
    let f = (ins >> 5) & 0x7_ffff;
    if f >= 0x4_0000 {
        in_addr + 4 * (f - 0x8_0000)
    } else {
        in_addr + 4 * f
    }
}

/// The alignment mask of a literal-pool load's datum: 3, 7 or 15 by the
/// operand width.
pub open spec fn spec_ll_algn(ins: u32) -> int {
    if (ins & 0xbf00_0000) == 0x1800_0000 {
        if (ins & 0x4000_0000) != 0 {
            7
        } else {
            3
        }
    } else if (ins & 0x3f00_0000) == 0x1c00_0000 {
        if (ins & 0x4000_0000) != 0 {
            7
        } else if (ins & 0x8000_0000) != 0 {
            15
        } else {
            3
        }
    } else {
        7
    }
}

/// The opcode mask a rewritten literal-pool load keeps clear.
pub open spec fn spec_ll_mask(ins: u32) -> u32 {
    if (ins & 0xbf00_0000) == 0x1800_0000 {
        0xbf00_0000
    } else if (ins & 0x3f00_0000) == 0x1c00_0000 {
        0x3f00_0000
    } else {
        0xff00_0000
    }
}

/// Branch opcode with an encoded signed 26-bit word offset.
pub open spec fn spec_b_word(opc: u32, off: int) -> u32 {
    opc | (spec_enc_word(off) & 0x03ff_ffff)
}

/// How many instructions the installation displaces: one for the near
/// branch; for the far form, four, or five when a leading `NOP` aligns
/// the literal.
pub open spec fn spec_a64_count(symbol: u64, replace: u64) -> int {
    if !spec_a64_far(symbol, replace) {
        1
    } else if symbol % 8 == 0 {
        4
    } else {
        5
    }
}

/// The signed word distance from `symbol` to `replace`.
pub open spec fn spec_pc_offset(symbol: u64, replace: u64) -> int {
    (replace - symbol) / 4
}

/// A far installation is needed when the replacement is beyond the reach
/// of a single `B`.
pub open spec fn spec_a64_far(symbol: u64, replace: u64) -> bool {
    spec_pc_offset(symbol, replace) >= 0x1ff_ffff || spec_pc_offset(symbol, replace)
        <= -0x1ff_ffff
}

/// Rewrites `B` and `BL`: intra-window targets go through the fix-map,
/// near targets keep their opcode with an adjusted offset, far ones
/// become an absolute-literal jump (with the return address materialized
/// for `BL`).
#[verifier::rlimit(100)]
#[verifier::spinoff_prover]
fn fix_branch_imm(ins: u32, in_addr: i64, out: &mut Vec<u32>, outb: i64, ctx: &mut Context) -> (r:
    bool)
    requires
        ctx_wf(*old(ctx), old(out)@.len() as int),
        0 <= old(ctx).basep,
        old(ctx).basep % 4 == 0,
        old(ctx).endp <= old(ctx).basep + 4 * A64_MAX_INSTRUCTIONS,
        old(ctx).basep <= in_addr < old(ctx).endp,
        (in_addr - old(ctx).basep) % 4 == 0,
        old(ctx).endp < 0x1_0000_0000_0000,
        0 <= outb < 0x1_0000_0000_0000,
        outb % 4 == 0,
        old(out)@.len() <= 45,
    ensures
        ctx_wf(*final(ctx), final(out)@.len() as int),
        final(ctx).basep == old(ctx).basep,
        final(ctx).endp == old(ctx).endp,
        old(out)@.len() <= final(out)@.len() <= old(out)@.len() + 6,
        r == spec_is_branch_imm(ins),
        !r ==> final(out)@ == old(out)@ && *final(ctx) == *old(ctx),
        ({
            let opc = ins & 0xfc00_0000;
            let tgt = spec_b_target(ins, in_addr as int);
            let intra = old(ctx).basep <= tgt < old(ctx).endp;
            let cur = (in_addr - old(ctx).basep) / 4;
            let refi = (tgt - old(ctx).basep) / 4;
            &&& (r && intra && refi < cur && old(ctx).fmap@[cur]@.len() == 0 ==> final(out)@ == old(
                out,
            )@.push(opc | (spec_enc_word(old(ctx).out_pos@[refi] - old(out)@.len()) & 0x03ff_ffff)))
            &&& (r && intra && refi > cur && old(ctx).fmap@[cur]@.len() == 0 && old(ctx).fmap@[
                refi
            ]@.len() < A64_MAX_REFERENCES ==> final(out)@ == old(out)@.push(opc)
                && final(ctx).fmap@[refi]@ == old(ctx).fmap@[refi]@.push(
                FixEntry { out_idx: old(out)@.len() as usize, ls: 0, ad: 0x03ff_ffff },
            ))
            &&& ({
                let npo = (tgt - (outb + 4 * old(out)@.len())) / 4;
                r && !intra && -0x1ff_ffff < npo < 0x1ff_ffff && old(ctx).fmap@[cur]@.len() == 0
                    ==> final(out)@ == old(out)@.push(spec_b_word(opc, npo))
            })
            &&& ({
                let npo = (tgt - (outb + 4 * old(out)@.len())) / 4;
                let aligned = (outb + 4 * old(out)@.len() + 8) % 8 == 0;
                let far = npo >= 0x1ff_ffff || npo <= -0x1ff_ffff;
                &&& (r && !intra && far && opc == 0x1400_0000 && aligned && old(ctx).fmap@[
                    cur
                ]@.len() == 0 ==> final(out)@ == old(out)@ + seq![
                    0x5800_0051u32,
                    0xd61f_0220u32,
                    spec_lo_word(tgt),
                    spec_hi_word(tgt),
                ])
                &&& (r && !intra && far && opc == 0x1400_0000 && !aligned && old(ctx).fmap@[
                    cur
                ]@.len() == 0 ==> final(out)@ == old(out)@ + seq![
                    A64_NOP,
                    0x5800_0051u32,
                    0xd61f_0220u32,
                    spec_lo_word(tgt),
                    spec_hi_word(tgt),
                ])
                &&& (r && !intra && far && opc == 0x9400_0000 && !aligned && old(ctx).fmap@[
                    cur
                ]@.len() == 0 ==> final(out)@ == old(out)@ + seq![
                    0x5800_0071u32,
                    0x1000_009eu32,
                    0xd61f_0220u32,
                    spec_lo_word(tgt),
                    spec_hi_word(tgt),
                ])
                &&& (r && !intra && far && opc == 0x9400_0000 && aligned && old(ctx).fmap@[
                    cur
                ]@.len() == 0 ==> final(out)@ == old(out)@ + seq![
                    A64_NOP,
                    0x5800_0071u32,
                    0x1000_009eu32,
                    0xd61f_0220u32,
                    spec_lo_word(tgt),
                    spec_hi_word(tgt),
                ])
            })
        }),
{
    let opc = ins & 0xfc00_0000;
    if !(opc == 0x1400_0000 || opc == 0x9400_0000) {
        return false;
    }

    let current_idx = ctx.get_and_set_current_index(in_addr, out.len());
    let imm26: u32 = ins & 0x03ff_ffff;
    assert(imm26 < 0x0400_0000) by (bit_vector)
        requires
            imm26 == ins & 0x03ff_ffff,
    ;
    let boff: i64 = if imm26 >= 0x0200_0000 {
        (imm26 as i64 - 0x0400_0000) * 4
    } else {
        imm26 as i64 * 4
    };
    let absolute_addr: i64 = in_addr + boff;
    let mut new_pc_offset: i64 = (absolute_addr - (outb + 4 * (out.len() as i64))) / 4;
    let apo: i64 = if new_pc_offset >= 0 {
        new_pc_offset
    } else {
        -new_pc_offset
    };
    let special_fix_type = ctx.is_in_fixing_range(absolute_addr);

    if !special_fix_type && apo >= 0x1ff_ffff {
        let b_aligned = ((outb + 4 * (out.len() as i64) + 8) % 8) == 0;
        if opc == 0x1400_0000 {
            if !b_aligned {
                out.push(A64_NOP);
                ctx.reset_current_ins(current_idx, out.len());
            }
            out.push(0x5800_0051);
            out.push(0xd61f_0220);
            push_addr_words(out, absolute_addr);
        } else {
            if b_aligned {
                out.push(A64_NOP);
                ctx.reset_current_ins(current_idx, out.len());
            }
            out.push(0x5800_0071);
            out.push(0x1000_009e);
            out.push(0xd61f_0220);
            push_addr_words(out, absolute_addr);
        }
    } else {
        if special_fix_type {
            let ref_idx = ctx.get_ref_ins_index(absolute_addr);
            if ref_idx <= current_idx {
                new_pc_offset = ctx.out_pos[ref_idx] as i64 - out.len() as i64;
            } else {
                ctx.insert_fix_map(ref_idx, out.len(), 0, 0x03ff_ffff);
                new_pc_offset = 0;
            }
        }
        out.push(opc | (enc_word(new_pc_offset) & 0x03ff_ffff));
        proof {
            assert((spec_enc_word(0) & 0x03ff_ffff) == 0 && (opc | 0u32) == opc) by (bit_vector)
                requires
                    opc == 0x1400_0000u32 || opc == 0x9400_0000u32,
            ;
        }
    }

    ctx.process_fix_map(out, current_idx);
    true
}

/// Rewrites `B.cond`, `CBZ`/`CBNZ` and `TBZ`/`TBNZ`: near targets keep
/// their encoding with an adjusted offset field, intra-window targets go
/// through the fix-map, and far targets take the inverted-condition hop
/// over an absolute-literal jump.
#[verifier::rlimit(100)]
#[verifier::spinoff_prover]
fn fix_cond_comp_test_branch(
    ins: u32,
    in_addr: i64,
    out: &mut Vec<u32>,
    outb: i64,
    ctx: &mut Context,
) -> (r: bool)
    requires
        ctx_wf(*old(ctx), old(out)@.len() as int),
        0 <= old(ctx).basep,
        old(ctx).basep % 4 == 0,
        old(ctx).endp <= old(ctx).basep + 4 * A64_MAX_INSTRUCTIONS,
        old(ctx).basep <= in_addr < old(ctx).endp,
        (in_addr - old(ctx).basep) % 4 == 0,
        old(ctx).endp < 0x1_0000_0000_0000,
        0 <= outb < 0x1_0000_0000_0000,
        outb % 4 == 0,
        old(out)@.len() <= 45,
    ensures
        ctx_wf(*final(ctx), final(out)@.len() as int),
        final(ctx).basep == old(ctx).basep,
        final(ctx).endp == old(ctx).endp,
        old(out)@.len() <= final(out)@.len() <= old(out)@.len() + 7,
        r == spec_is_cond_comp_test(ins),
        !r ==> final(out)@ == old(out)@ && *final(ctx) == *old(ctx),
        ({
            let lm = spec_ct_lmask(ins);
            let tgt = spec_ct_target(ins, in_addr as int);
            let intra = old(ctx).basep <= tgt < old(ctx).endp;
            let cur = (in_addr - old(ctx).basep) / 4;
            let refi = (tgt - old(ctx).basep) / 4;
            &&& (r && intra && refi < cur && old(ctx).fmap@[cur]@.len() == 0 ==> final(out)@ == old(
                out,
            )@.push(((spec_enc_word(old(ctx).out_pos@[refi] - old(out)@.len()) << 5) & !lm) | (ins
                & lm)))
            &&& (r && intra && refi > cur && old(ctx).fmap@[cur]@.len() == 0 && old(ctx).fmap@[
                refi
            ]@.len() < A64_MAX_REFERENCES ==> final(out)@ == old(out)@.push(
                ((spec_enc_word(0) << 5) & !lm) | (ins & lm),
            ) && final(ctx).fmap@[refi]@ == old(ctx).fmap@[refi]@.push(
                FixEntry { out_idx: old(out)@.len() as usize, ls: 5, ad: !lm },
            ))
            &&& ({
                let npo = (tgt - (outb + 4 * old(out)@.len())) / 4;
                r && !intra && -((!lm >> 6) as int) < npo < (!lm >> 6) && old(ctx).fmap@[
                    cur
                ]@.len() == 0 ==> final(out)@ == old(out)@.push(
                    ((spec_enc_word(npo) << 5) & !lm) | (ins & lm),
                )
            })
            &&& ({
                let npo = (tgt - (outb + 4 * old(out)@.len())) / 4;
                let far = npo >= ((!lm >> 6) as int) || npo <= -((!lm >> 6) as int);
                let hop = (((8u32 >> 2) << 5) & !lm) | (ins & lm);
                &&& (r && !intra && far && (outb + 4 * old(out)@.len() + 16) % 8 == 0 && old(
                    ctx,
                ).fmap@[cur]@.len() == 0 ==> final(out)@ == old(out)@ + seq![
                    hop,
                    0x1400_0005u32,
                    0x5800_0051u32,
                    0xd61f_0220u32,
                    spec_lo_word(tgt),
                    spec_hi_word(tgt),
                ])
                &&& (r && !intra && far && (outb + 4 * old(out)@.len() + 16) % 8 != 0 && old(
                    ctx,
                ).fmap@[cur]@.len() == 0 ==> final(out)@ == old(out)@ + seq![
                    A64_NOP,
                    hop,
                    0x1400_0005u32,
                    0x5800_0051u32,
                    0xd61f_0220u32,
                    spec_lo_word(tgt),
                    spec_hi_word(tgt),
                ])
            })
        }),
{
    let mut lmask: u32 = 0xff00_001f;
    if (ins & 0xff00_0010) != 0x5400_0000 {
        let opc1 = ins & 0x7f00_0000;
        if opc1 != 0x3400_0000 && opc1 != 0x3500_0000 {
            if opc1 != 0x3600_0000 && opc1 != 0x3700_0000 {
                return false;
            }
            lmask = 0xfff8_001f;
        }
    }

    let current_idx = ctx.get_and_set_current_index(in_addr, out.len());
    let field: u32 = (ins & !lmask) >> 5;
    proof {
        assert(lmask == 0xff00_001fu32 ==> ((ins & !lmask) >> 5) < 0x8_0000) by (bit_vector);
        assert(lmask == 0xfff8_001fu32 ==> ((ins & !lmask) >> 5) < 0x4000) by (bit_vector);
    }
    let boff: i64 = if lmask == 0xff00_001f {
        if field >= 0x4_0000 {
            (field as i64 - 0x8_0000) * 4
        } else {
            field as i64 * 4
        }
    } else {
        if field >= 0x2000 {
            (field as i64 - 0x4000) * 4
        } else {
            field as i64 * 4
        }
    };
    let absolute_addr: i64 = in_addr + boff;
    let mut new_pc_offset: i64 = (absolute_addr - (outb + 4 * (out.len() as i64))) / 4;
    let apo: i64 = if new_pc_offset >= 0 {
        new_pc_offset
    } else {
        -new_pc_offset
    };
    let special_fix_type = ctx.is_in_fixing_range(absolute_addr);
    let limit: u32 = !lmask >> 6;
    assert((!lmask >> 6) < 0x0400_0000) by (bit_vector);

    if !special_fix_type && apo >= limit as i64 {
        if ((outb + 4 * (out.len() as i64) + 16) % 8) != 0 {
            out.push(A64_NOP);
            ctx.reset_current_ins(current_idx, out.len());
        }
        out.push((((8u32 >> 2) << 5) & !lmask) | (ins & lmask));
        out.push(0x1400_0005);
        out.push(0x5800_0051);
        out.push(0xd61f_0220);
        push_addr_words(out, absolute_addr);
    } else {
        if special_fix_type {
            let ref_idx = ctx.get_ref_ins_index(absolute_addr);
            if ref_idx <= current_idx {
                new_pc_offset = ctx.out_pos[ref_idx] as i64 - out.len() as i64;
            } else {
                ctx.insert_fix_map(ref_idx, out.len(), 5, !lmask);
                new_pc_offset = 0;
            }
        }
        out.push(((enc_word(new_pc_offset) << 5) & !lmask) | (ins & lmask));
    }

    ctx.process_fix_map(out, current_idx);
    true
}

/// Rewrites literal loads (`LDR`, `LDRSW` and the SIMD forms): a near,
/// suitably aligned literal keeps its encoding; otherwise the load reads
/// an inlined copy of its data, which the plan asks the embedder to copy
/// in, behind a branch that skips it.
#[verifier::rlimit(100)]
#[verifier::spinoff_prover]
fn fix_loadlit(
    ins: u32,
    in_addr: i64,
    out: &mut Vec<u32>,
    outb: i64,
    ctx: &mut Context,
    fixups: &mut Vec<LiteralCopy>,
) -> (r: bool)
    requires
        ctx_wf(*old(ctx), old(out)@.len() as int),
        0 <= old(ctx).basep,
        old(ctx).basep % 4 == 0,
        old(ctx).endp <= old(ctx).basep + 4 * A64_MAX_INSTRUCTIONS,
        old(ctx).basep <= in_addr < old(ctx).endp,
        (in_addr - old(ctx).basep) % 4 == 0,
        old(ctx).endp < 0x1_0000_0000_0000,
        0 <= outb < 0x1_0000_0000_0000,
        outb % 4 == 0,
        old(out)@.len() <= 45,
    ensures
        ctx_wf(*final(ctx), final(out)@.len() as int),
        final(ctx).basep == old(ctx).basep,
        final(ctx).endp == old(ctx).endp,
        old(out)@.len() <= final(out)@.len() <= old(out)@.len() + 9,
        r == spec_is_loadlit(ins),
        (ins & 0xff00_0000) == 0xd800_0000 && old(ctx).fmap@[((in_addr - old(ctx).basep)
            / 4)]@.len() == 0 ==> final(out)@ == old(out)@ && final(fixups)@ == old(fixups)@,
        ({
            let cur = (in_addr - old(ctx).basep) / 4;
            let tgt = spec_ll_target(ins, in_addr as int);
            let intra = old(ctx).basep <= tgt < old(ctx).endp;
            let npo = (tgt - (outb + 4 * old(out)@.len())) / 4;
            let algn = spec_ll_algn(ins);
            let apo = if npo >= 0 {
                npo
            } else {
                -npo
            };
            &&& (r && (ins & 0xff00_0000) != 0xd800_0000 && !intra && algn == 3 && apo
                < 0x3_ffff && old(ctx).fmap@[cur]@.len() == 0 ==> final(out)@ == old(out)@.push(
                ((spec_enc_word(npo) << 5) & !spec_ll_mask(ins)) | (ins & 0xff00_001f),
            ) && final(fixups)@ == old(fixups)@)
            &&& (r && (ins & 0xff00_0000) != 0xd800_0000 && (intra || apo + (algn + 1 - 4) / 4
                >= 0x3_ffff) && (outb + 4 * old(out)@.len() + 8) % (algn + 1) == 0 && old(
                ctx,
            ).fmap@[cur]@.len() == 0 ==> final(out)@ == old(out)@ + seq![
                (((8u32 >> 2) << 5) & !spec_ll_mask(ins)) | (ins & 0xff00_001f),
                (0x1400_0001 + (algn + 1) / 4) as u32,
            ] + Seq::new(((algn + 1) / 4) as nat, |i: int| 0u32) && final(fixups)@ == old(
                fixups,
            )@.push(
                LiteralCopy {
                    out_idx: (old(out)@.len() + 2) as usize,
                    addr: tgt as i64,
                    words: ((algn + 1) / 4) as usize,
                },
            ))
        }),
        !r ==> final(out)@ == old(out)@ && *final(ctx) == *old(ctx) && final(fixups)@ == old(
            fixups,
        )@,
{
    if (ins & 0xff00_0000) == 0xd800_0000 {
        let idx = ctx.get_and_set_current_index(in_addr, out.len());
        ctx.process_fix_map(out, idx);
        return true;
    }

    let mut mask: u32 = 0xbf00_0000;
    let mut faligned: i64 = if (ins & 0x4000_0000) != 0 {
        7
    } else {
        3
    };

    if (ins & 0xbf00_0000) != 0x1800_0000 {
        mask = 0x3f00_0000;
        if faligned != 7 {
            faligned = if (ins & 0x8000_0000) != 0 {
                15
            } else {
                3
            };
        }
        if (ins & 0x3f00_0000) != 0x1c00_0000 {
            if (ins & 0xff00_0000) != 0x9800_0000 {
                return false;
            }
            mask = 0xff00_0000;
            faligned = 7;
        }
    }

    proof {
        assert(faligned == spec_ll_algn(ins));
        assert(mask == spec_ll_mask(ins));
    }
    let current_idx = ctx.get_and_set_current_index(in_addr, out.len());
    let imm19: u32 = (ins >> 5) & 0x7_ffff;
    assert((ins >> 5) & 0x7_ffff < 0x8_0000) by (bit_vector);
    let boff: i64 = if imm19 >= 0x4_0000 {
        (imm19 as i64 - 0x8_0000) * 4
    } else {
        imm19 as i64 * 4
    };
    let absolute_addr: i64 = in_addr + boff;
    proof {
        assert(absolute_addr == spec_ll_target(ins, in_addr as int));
        let bp = old(ctx).basep as int;
        assert(in_addr as int % 4 == 0) by (nonlinear_arith)
            requires
                (in_addr - bp) % 4 == 0 && bp % 4 == 0,
        ;
        assert(boff as int % 4 == 0) by (nonlinear_arith)
            requires
                boff == (imm19 - 0x8_0000) * 4 || boff == imm19 * 4,
        ;
        assert((absolute_addr - (outb + 4 * out@.len())) % 4 == 0) by (nonlinear_arith)
            requires
                absolute_addr == in_addr + boff && in_addr as int % 4 == 0 && boff as int % 4 == 0
                    && outb as int % 4 == 0,
        ;
    }
    let new_pc_offset: i64 = div4_exact(absolute_addr - (outb + 4 * (out.len() as i64)));
    let apo: i64 = if new_pc_offset >= 0 {
        new_pc_offset
    } else {
        -new_pc_offset
    };
    let special_fix_type = ctx.is_in_fixing_range(absolute_addr);

    if special_fix_type || apo + (faligned + 1 - 4) / 4 >= 0x3_ffff {
        let m: i64 = faligned + 1;
        let rem: i64 = (outb + 4 * (out.len() as i64) + 8) % m;
        let nops: i64 = if rem == 0 {
            0
        } else {
            (m - rem) / 4
        };
        proof {
            if (outb + 4 * out@.len() + 8) % (spec_ll_algn(ins) + 1) == 0 {
                assert(rem == 0 && nops == 0);
            }
        }
        let mut t: i64 = 0;
        let ghost ctx_snap = *ctx;
        let ghost fix_snap = fixups@;
        while t < nops
            invariant
                0 <= t <= nops,
                nops <= 3,
                out@ == old(out)@ + Seq::new(t as nat, |i: int| A64_NOP),
                *ctx == ctx_snap,
                fixups@ == fix_snap,
            decreases nops - t,
        {
            out.push(A64_NOP);
            proof {
                assert(out@ =~= old(out)@ + Seq::new((t + 1) as nat, |i: int| A64_NOP));
            }
            t = t + 1;
        }
        proof {
            if nops == 0 {
                assert(out@ =~= old(out)@);
            }
        }
        proof {
            lemma_ctx_wf_mono(*ctx, old(out)@.len() as int, out@.len() as int);
        }
        ctx.reset_current_ins(current_idx, out.len());
        let ghost wf_len: int = out@.len() as int;
        let ns: i64 = (faligned + 1) / 4;
        out.push((((8u32 >> 2) << 5) & !mask) | (ins & 0xff00_001f));
        out.push(0x1400_0001 + ns as u32);
        fixups.push(
            LiteralCopy { out_idx: out.len(), addr: absolute_addr, words: ns as usize },
        );
        let mut s: i64 = 0;
        let ghost ctx_snap2 = *ctx;
        let ghost fix_snap2 = fixups@;
        let ghost data_base = out@;
        while s < ns
            invariant
                0 <= s <= ns,
                ns <= 4,
                wf_len <= old(out)@.len() + 3,
                out@.len() == wf_len + 2 + s,
                *ctx == ctx_snap2,
                fixups@ == fix_snap2,
                out@ == data_base + Seq::new(s as nat, |i: int| 0u32),
            decreases ns - s,
        {
            out.push(0);
            proof {
                assert(out@ =~= data_base + Seq::new((s + 1) as nat, |i: int| 0u32));
            }
            s = s + 1;
        }
        proof {
            lemma_ctx_wf_mono(*ctx, wf_len, out@.len() as int);
            assert(ctx_wf(*ctx, out@.len() as int));
        }
    } else {
        let falsh: i64 = faligned / 4;
        let m2: i64 = falsh + 1;
        let rr: i64 = new_pc_offset % m2;
        let nops: i64 = if rr < 0 {
            rr + m2
        } else {
            rr
        };
        proof {
            if faligned == 3 {
                assert(m2 == 1 && nops == 0);
            }
        }
        let mut new_offset: i64 = new_pc_offset - nops;
        let mut t: i64 = 0;
        let ghost ctx_snap3 = *ctx;
        let ghost fix_snap3 = fixups@;
        while t < nops
            invariant
                0 <= t <= nops,
                nops <= 3,
                out@ == old(out)@ + Seq::new(t as nat, |i: int| A64_NOP),
                *ctx == ctx_snap3,
                fixups@ == fix_snap3,
            decreases nops - t,
        {
            out.push(A64_NOP);
            proof {
                assert(out@ =~= old(out)@ + Seq::new((t + 1) as nat, |i: int| A64_NOP));
            }
            t = t + 1;
        }
        proof {
            if nops == 0 {
                assert(out@ =~= old(out)@);
            }
        }
        proof {
            lemma_ctx_wf_mono(*ctx, old(out)@.len() as int, out@.len() as int);
        }
        ctx.reset_current_ins(current_idx, out.len());
        let ghost wf_len2: int = out@.len() as int;
        out.push(((enc_word(new_offset) << 5) & !mask) | (ins & 0xff00_001f));
        proof {
            lemma_ctx_wf_mono(*ctx, wf_len2, out@.len() as int);
            assert(ctx_wf(*ctx, out@.len() as int));
            let tgt_g = spec_ll_target(ins, in_addr as int);
            let npo_g = (tgt_g - (outb + 4 * old(out)@.len())) / 4;
            if !(old(ctx).basep <= tgt_g < old(ctx).endp) && spec_ll_algn(ins) == 3 {
                assert(absolute_addr == tgt_g);
                assert(new_pc_offset == npo_g);
                assert(new_offset == npo_g);
                assert(out@ =~= old(out)@.push(
                    ((spec_enc_word(npo_g) << 5) & !spec_ll_mask(ins)) | (ins & 0xff00_001f),
                ));
            }
        }
    }

    ctx.process_fix_map(out, current_idx);
    true
}

/// Rewrites `ADR` and `ADRP`: an intra-window `ADR` goes through the
/// fix-map, an intra-window `ADRP` is copied verbatim (page distances do
/// not move), and everything out of range becomes a literal load of the
/// computed absolute address.
#[verifier::rlimit(100)]
#[verifier::spinoff_prover]
fn fix_pcreladdr(ins: u32, in_addr: i64, out: &mut Vec<u32>, outb: i64, ctx: &mut Context) -> (r:
    bool)
    requires
        ctx_wf(*old(ctx), old(out)@.len() as int),
        0 <= old(ctx).basep,
        old(ctx).basep % 4 == 0,
        old(ctx).endp <= old(ctx).basep + 4 * A64_MAX_INSTRUCTIONS,
        old(ctx).basep <= in_addr < old(ctx).endp,
        (in_addr - old(ctx).basep) % 4 == 0,
        old(ctx).endp < 0x1_0000_0000_0000,
        0 <= outb < 0x1_0000_0000_0000,
        outb % 4 == 0,
        old(out)@.len() <= 45,
    ensures
        ctx_wf(*final(ctx), final(out)@.len() as int),
        final(ctx).basep == old(ctx).basep,
        final(ctx).endp == old(ctx).endp,
        old(out)@.len() <= final(out)@.len() <= old(out)@.len() + 5,
        r == spec_is_pcreladdr(ins),
        (ins & 0x9f00_0000) == 0x9000_0000 && old(ctx).basep <= spec_adrp_target(
            ins,
            in_addr as int,
        ) < old(ctx).endp && old(ctx).fmap@[((in_addr - old(ctx).basep) / 4)]@.len() == 0
            ==> final(out)@ == old(out)@.push(ins),
        ({
            let cur = (in_addr - old(ctx).basep) / 4;
            let tgt = spec_adr_target(ins, in_addr as int);
            let intra = old(ctx).basep <= tgt < old(ctx).endp;
            let npo = tgt - (outb + 4 * old(out)@.len());
            let lit = 0x5800_0000u32 | (((8u32 >> 2) << 5) & !0x9f00_0000u32) | (ins & 0x1f);
            &&& ((ins & 0x9f00_0000) == 0x1000_0000 && !intra && -0xf_ffff < npo < 0xf_ffff
                && old(ctx).fmap@[cur]@.len() == 0 ==> final(out)@ == old(out)@.push(
                ((spec_enc_word(npo) << 3) & 0x00ff_ffff) | (ins & 0xff00_001f),
            ))
            &&& ((ins & 0x9f00_0000) == 0x1000_0000 && !intra && (npo >= 0xf_ffff || npo
                <= -0xf_ffff) && (outb + 4 * old(out)@.len() + 8) % 8 == 0 && old(ctx).fmap@[
                cur
            ]@.len() == 0 ==> final(out)@ == old(out)@ + seq![
                lit,
                0x1400_0003u32,
                spec_lo_word(tgt),
                spec_hi_word(tgt),
            ])
            &&& ((ins & 0x9f00_0000) == 0x9000_0000 && !(old(ctx).basep <= spec_adrp_target(
                ins,
                in_addr as int,
            ) < old(ctx).endp) && (outb + 4 * old(out)@.len() + 8) % 8 == 0 && old(ctx).fmap@[
                cur
            ]@.len() == 0 ==> final(out)@ == old(out)@ + seq![
                lit,
                0x1400_0003u32,
                spec_lo_word(spec_adrp_target(ins, in_addr as int)),
                spec_hi_word(spec_adrp_target(ins, in_addr as int)),
            ])
        }),
        !r ==> final(out)@ == old(out)@ && *final(ctx) == *old(ctx),
{
    let sel = ins & 0x9f00_0000;
    if sel != 0x1000_0000 && sel != 0x9000_0000 {
        return false;
    }

    let current_idx = ctx.get_and_set_current_index(in_addr, out.len());
    let lsb_bytes: i64 = ((ins >> 29) & 0x3) as i64;
    let imm19: u32 = (ins >> 5) & 0x7_ffff;
    assert((ins >> 5) & 0x7_ffff < 0x8_0000 && ((ins >> 29) & 0x3) < 4) by (bit_vector);
    let hi_off: i64 = if imm19 >= 0x4_0000 {
        (imm19 as i64 - 0x8_0000) * 4
    } else {
        imm19 as i64 * 4
    };

    if sel == 0x1000_0000 {
        let absolute_addr: i64 = in_addr + (hi_off + lsb_bytes);
        let mut new_pc_offset: i64 = absolute_addr - (outb + 4 * (out.len() as i64));
        let apo: i64 = if new_pc_offset >= 0 {
            new_pc_offset
        } else {
            -new_pc_offset
        };
        let special_fix_type = ctx.is_in_fixing_range(absolute_addr);

        if !special_fix_type && apo >= 0xf_ffff {
            if ((outb + 4 * (out.len() as i64) + 8) % 8) != 0 {
                out.push(A64_NOP);
                ctx.reset_current_ins(current_idx, out.len());
            }
            out.push(0x5800_0000 | (((8u32 >> 2) << 5) & !0x9f00_0000) | (ins & 0x1f));
            out.push(0x1400_0003);
            push_addr_words(out, absolute_addr);
        } else {
            if special_fix_type {
                let ref_idx = ctx.get_ref_ins_index(absolute_addr - (absolute_addr % 4));
                if ref_idx <= current_idx {
                    new_pc_offset = 4 * (ctx.out_pos[ref_idx] as i64 - out.len() as i64);
                } else {
                    ctx.insert_fix_map(ref_idx, out.len(), 5, 0x00ff_ffff);
                    new_pc_offset = 0;
                }
            }
            out.push(((enc_word(new_pc_offset) << 3) & 0x00ff_ffff) | (ins & 0xff00_001f));
        }
    } else {
        let page: i64 = in_addr - (in_addr % 0x1000);
        let absolute_addr: i64 = page + ((hi_off + lsb_bytes) * 0x1000);

        if ctx.is_in_fixing_range(absolute_addr) {
            out.push(ins);
        } else {
            if ((outb + 4 * (out.len() as i64) + 8) % 8) != 0 {
                out.push(A64_NOP);
                ctx.reset_current_ins(current_idx, out.len());
            }
            out.push(0x5800_0000 | (((8u32 >> 2) << 5) & !0x9f00_0000) | (ins & 0x1f));
            out.push(0x1400_0003);
            push_addr_words(out, absolute_addr);
        }
    }

    ctx.process_fix_map(out, current_idx);
    true
}


/// Reachability law: a replacement within the span of a single `B`
/// (just under 2^27 bytes away in either direction) is installed with a
/// 4-byte patch; anything farther takes the absolute-literal form, 16 or
/// 20 bytes by the alignment of the entry, whose literal words land
/// 8-byte aligned. The boundary sits at word offset 0x1ffffff: the exact
/// byte windows are stated here.
pub proof fn lemma_a64_reachability(symbol: u64, replace: u64)
    ensures
        -0x7ff_fff8 <= replace - symbol < 0x7ff_fffc ==> !spec_a64_far(symbol, replace),
        replace - symbol >= 0x7ff_fffc ==> spec_a64_far(symbol, replace),
        replace - symbol < -0x7ff_fffc ==> spec_a64_far(symbol, replace),
{
    let d = replace - symbol as int;
    assert(spec_pc_offset(symbol, replace) == d / 4);
    if -0x7ff_fff8 <= d < 0x7ff_fffc {
        assert(-0x1ff_fffe <= d / 4 < 0x1ff_ffff) by (nonlinear_arith)
            requires
                -0x7ff_fff8 <= d < 0x7ff_fffc,
        ;
    }
    if d >= 0x7ff_fffc {
        assert(d / 4 >= 0x1ff_ffff) by (nonlinear_arith)
            requires
                d >= 0x7ff_fffc,
        ;
    }
    if d < -0x7ff_fffc {
        assert(d / 4 <= -0x1ff_ffff - 1) by (nonlinear_arith)
            requires
                d < -0x7ff_fffc,
        ;
    }
}

/// A planned A64 trampoline: the relocated words to place at the chosen
/// base, and the raw-memory copies that complete inlined literals.
pub struct A64Trampoline {
    pub words: Vec<u32>,
    pub copies: Vec<LiteralCopy>,
}

/// A planned A64 hook: the number of displaced prologue bytes, the words
/// to write over them, and the trampoline when one was asked for.
pub struct A64Hook {
    pub used: usize,
    pub patch: Vec<u32>,
    pub trampoline: Option<A64Trampoline>,
}

/// Relocates the `count` displaced instructions of the window at `basep`
/// into a fresh image that will live at `outb`, resolving intra-window
/// references against each instruction's relocated position, and appends
/// the tail jump back to the first un-displaced instruction.
#[verifier::rlimit(100)]
#[verifier::spinoff_prover]
pub fn fix_instructions(prologue: &Vec<u32>, basep: i64, count: usize, outb: i64) -> (r: (
    Vec<u32>,
    Vec<LiteralCopy>,
))
    requires
        prologue@.len() >= count,
        1 <= count <= A64_MAX_INSTRUCTIONS,
        0 <= basep,
        basep % 4 == 0,
        basep + 4 * count < 0x1_0000_0000_0000,
        0 <= outb < 0x1_0000_0000_0000,
        outb % 4 == 0,
    ensures
        r.0@.len() <= A64_MAX_TRAMPOLINE_WORDS,
        (forall|k: int| 0 <= k < count ==> spec_is_plain(#[trigger] prologue@[k]))
            ==> r.0@.len() >= count && r.0@.subrange(0, count as int) == prologue@.subrange(
            0,
            count as int,
        ),
        ({
            let callback = basep + 4 * count;
            let n = r.0@.len() as int;
            ||| (n >= 1 && r.0@[n - 1] == spec_b_word(
                0x1400_0000,
                (callback - (outb + 4 * (n - 1))) / 4,
            ))
            ||| (n >= 4 && r.0@.subrange(n - 4, n) == seq![
                0x5800_0051u32,
                0xd61f_0220u32,
                spec_lo_word(callback as int),
                spec_hi_word(callback as int),
            ])
        }),
{
    let mut ctx = Context::new(basep, count);
    let mut out: Vec<u32> = Vec::new();
    let mut fixups: Vec<LiteralCopy> = Vec::new();

    let ghost all_plain: bool = forall|t: int| 0 <= t < count ==> spec_is_plain(
        #[trigger] prologue@[t],
    );
    let mut k: usize = 0;
    while k < count
        invariant
            k <= count,
            1 <= count <= A64_MAX_INSTRUCTIONS,
            prologue@.len() >= count,
            ctx_wf(ctx, out@.len() as int),
            ctx.basep == basep,
            ctx.endp == basep + 4 * count,
            0 <= basep,
            basep % 4 == 0,
            basep + 4 * count < 0x1_0000_0000_0000,
            0 <= outb < 0x1_0000_0000_0000,
            outb % 4 == 0,
            out@.len() <= 9 * k,
            all_plain == (forall|t: int| 0 <= t < count ==> spec_is_plain(
                #[trigger] prologue@[t],
            )),
            all_plain ==> out@ == prologue@.subrange(0, k as int) && (forall|s: int|
                0 <= s < A64_MAX_INSTRUCTIONS ==> (#[trigger] ctx.fmap@[s])@.len() == 0),
        decreases count - k,
    {
        let ins = prologue[k];
        let in_addr: i64 = basep + 4 * (k as i64);
        if fix_branch_imm(ins, in_addr, &mut out, outb, &mut ctx) {
        } else if fix_cond_comp_test_branch(ins, in_addr, &mut out, outb, &mut ctx) {
        } else if fix_loadlit(ins, in_addr, &mut out, outb, &mut ctx, &mut fixups) {
        } else if fix_pcreladdr(ins, in_addr, &mut out, outb, &mut ctx) {
        } else {
            let idx = ctx.get_and_set_current_index(in_addr, out.len());
            ctx.process_fix_map(&mut out, idx);
            out.push(ins);
            proof {
                if all_plain {
                    assert(out@ =~= prologue@.subrange(0, k + 1));
                }
            }
        }
        k = k + 1;
    }
    proof {
        if all_plain {
            assert(out@ == prologue@.subrange(0, count as int));
        }
    }

    let callback: i64 = basep + 4 * (count as i64);
    let pc_offset: i64 = (callback - (outb + 4 * (out.len() as i64))) / 4;
    let apo: i64 = if pc_offset >= 0 {
        pc_offset
    } else {
        -pc_offset
    };
    if apo >= 0x1ff_ffff {
        if ((outb + 4 * (out.len() as i64) + 8) % 8) != 0 {
            out.push(A64_NOP);
        }
        let ghost body = out@;
        out.push(0x5800_0051);
        out.push(0xd61f_0220);
        push_addr_words(&mut out, callback);
        proof {
            assert(out@.subrange(out@.len() - 4, out@.len() as int) =~= seq![
                0x5800_0051u32,
                0xd61f_0220u32,
                spec_lo_word(callback as int),
                spec_hi_word(callback as int),
            ]);
            if all_plain {
                assert(out@.subrange(0, count as int) =~= prologue@.subrange(0, count as int));
            }
        }
    } else {
        let ghost body = out@;
        let pc_offset2: i64 = (callback - (outb + 4 * (out.len() as i64))) / 4;
        out.push(0x1400_0000 | (enc_word(pc_offset2) & 0x03ff_ffff));
        proof {
            assert(out@[out@.len() - 1] == spec_b_word(
                0x1400_0000,
                (basep + 4 * count - (outb + 4 * (out@.len() - 1))) / 4,
            ));
            if all_plain {
                assert(out@.subrange(0, count as int) =~= prologue@.subrange(0, count as int));
            }
        }
    }

    (out, fixups)
}

/// Rewrites one A64 prologue and plans its trampoline.
///
/// `symbol` is the address of the target function, `replace` the address
/// of the replacement, `prologue` the first five words at `symbol`, and
/// `tramp_base`, when given, the word-aligned slot the embedder set aside
/// for the trampoline image.
///
/// When the replacement is within branch range, the patch is the single
/// word `B imm26` and four bytes are displaced. Otherwise the patch is
/// `LDR X17, [PC, #8]; BR X17` followed by the replacement address as two
/// literal words, preceded by one `NOP` exactly when the literal would
/// otherwise land unaligned; the literal words always land 8-aligned.
#[verifier::rlimit(100)]
#[verifier::spinoff_prover]
pub fn hook_function_aarch64(
    symbol: u64,
    replace: u64,
    prologue: &Vec<u32>,
    tramp_base: Option<u64>,
) -> (r: Result<A64Hook, SubstrateError>)
    requires
        prologue@.len() >= A64_MAX_INSTRUCTIONS,
        symbol % 4 == 0,
        symbol < 0xffff_ffff_ff00,
        replace < 0x1_0000_0000_0000,
        tramp_base matches Some(base) ==> base % 4 == 0 && base < 0x1_0000_0000_0000,
    ensures
        r is Ok <==> symbol != 0,
        r matches Err(e) ==> e is NullPointer,
        r matches Ok(h) ==> {
            let far = spec_a64_far(symbol, replace);
            &&& (!far ==> h.used == 4 && h.patch@ == seq![
                spec_b_word(0x1400_0000, spec_pc_offset(symbol, replace)),
            ])
            &&& (far && symbol % 8 == 0 ==> h.used == 16 && h.patch@ == seq![
                0x5800_0051u32,
                0xd61f_0220u32,
                spec_lo_word(replace as int),
                spec_hi_word(replace as int),
            ])
            &&& (far && symbol % 8 != 0 ==> h.used == 20 && h.patch@ == seq![
                A64_NOP,
                0x5800_0051u32,
                0xd61f_0220u32,
                spec_lo_word(replace as int),
                spec_hi_word(replace as int),
            ])
            &&& (far ==> (symbol + h.used - 8) % 8 == 0)
            &&& (h.trampoline is Some <==> tramp_base is Some)
            &&& (h.trampoline matches Some(t) ==> 1 <= t.words@.len()
                <= A64_MAX_TRAMPOLINE_WORDS)
            &&& (h.trampoline matches Some(t) ==> {
                let cnt = spec_a64_count(symbol, replace);
                let callback = symbol + 4 * cnt;
                let n = t.words@.len() as int;
                &&& ((forall|k: int| 0 <= k < cnt ==> spec_is_plain(#[trigger] prologue@[k])) ==> n
                    >= cnt && t.words@.subrange(0, cnt) == prologue@.subrange(0, cnt))
                &&& ((n >= 1 && t.words@[n - 1] == spec_b_word(
                    0x1400_0000,
                    (callback - (tramp_base.unwrap() + 4 * (n - 1))) / 4,
                )) || (n >= 4 && t.words@.subrange(n - 4, n) == seq![
                    0x5800_0051u32,
                    0xd61f_0220u32,
                    spec_lo_word(callback as int),
                    spec_hi_word(callback as int),
                ]))
            })
        },
{
    if symbol == 0 {
        return Err(SubstrateError::NullPointer);
    }

    let delta: i64 = replace as i64 - symbol as i64;
    let pc_offset: i64 = if delta >= 0 {
        delta / 4
    } else {
        (delta - 3) / 4
    };
    let apo: i64 = if pc_offset >= 0 {
        pc_offset
    } else {
        -pc_offset
    };
    let far = apo >= 0x1ff_ffff;

    let count: usize = if far {
        if (symbol + 8) % 8 != 0 {
            5
        } else {
            4
        }
    } else {
        1
    };

    let trampoline: Option<A64Trampoline> = match tramp_base {
        Some(base) => {
            let (words, copies) = fix_instructions(
                prologue,
                symbol as i64,
                if far {
                    count
                } else {
                    1
                },
                base as i64,
            );
            Some(A64Trampoline { words, copies })
        },
        None => None,
    };

    let mut patch: Vec<u32> = Vec::new();
    let used: usize;
    if far {
        if count == 5 {
            patch.push(A64_NOP);
        }
        patch.push(0x5800_0051);
        patch.push(0xd61f_0220);
        patch.push((replace % 0x1_0000_0000) as u32);
        patch.push(((replace / 0x1_0000_0000) % 0x1_0000_0000) as u32);
        used = 4 * count;
    } else {
        patch.push(0x1400_0000 | (enc_word(pc_offset) & 0x03ff_ffff));
        used = 4;
    }

    proof {
        assert(pc_offset == spec_pc_offset(symbol, replace));
        if !far {
            assert(patch@ =~= seq![spec_b_word(0x1400_0000, spec_pc_offset(symbol, replace))]);
        }
    }

    Ok(A64Hook { used, patch, trampoline })
}

} // verus!
