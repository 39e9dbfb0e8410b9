//! x86-64 backend: patch-shape selection and machine-code emission.
//!
//! A hook either fits a 5-byte near relative jump (`E9 disp32`) or needs an
//! absolute push-immediate / return sequence (`68 lo32 [C7 44 24 04 hi32] C3`).
//! Every emitter appends to a byte vector and states the emitted bytes
//! exactly; the address at which the bytes will finally live is passed in,
//! since relative forms depend on it.

use vstd::prelude::*;

use crate::disasm::hde64::{hde64_disasm, read_le32, Hde64s};

verus! {

/// The distance from `b` to `a` as the processor computes it: modulo
/// 2^64.
pub open spec fn spec_wsub(a: u64, b: u64) -> u64 {
    ((a - b) % 0x1_0000_0000_0000_0000) as u64
}

/// A signed offset added to an address, modulo 2^64.
pub open spec fn spec_woff(a: u64, d: int) -> u64 {
    ((a + d) % 0x1_0000_0000_0000_0000) as u64
}

/// Addition modulo 2^64.
pub open spec fn spec_wadd(a: u64, b: u64) -> u64 {
    ((a + b) % 0x1_0000_0000_0000_0000) as u64
}

/// A wrapped difference that fits the signed 32-bit field of a near
/// jump: small forward or small backward.
pub open spec fn spec_fits_i32(d: u64) -> bool {
    d <= 0x7fff_ffff || d >= 0xffff_ffff_8000_0000
}

/// The displacement a jump at `source` encodes to reach `target`.
pub open spec fn spec_jump_delta(target: u64, source: u64) -> u64 {
    spec_wsub(spec_wsub(target, source), 5)
}

/// Little-endian byte image of a 32-bit value.
pub open spec fn le32(x: u32) -> Seq<u8> {
    seq![
        (x % 0x100) as u8,
        ((x / 0x100) % 0x100) as u8,
        ((x / 0x1_0000) % 0x100) as u8,
        ((x / 0x100_0000) % 0x100) as u8,
    ]
}

/// Low 32 bits of an address.
pub open spec fn lo32(x: u64) -> u32 {
    (x % 0x1_0000_0000) as u32
}

/// High 32 bits of an address.
pub open spec fn hi32(x: u64) -> u32 {
    (x / 0x1_0000_0000) as u32
}

/// Bytes of `JMP rel32` with the given encoded displacement.
pub open spec fn spec_skip(rel: u32) -> Seq<u8> {
    seq![0xe9u8] + le32(rel)
}

/// Bytes of the absolute push: `68 lo32`, and when the address has high
/// bits, `C7 44 24 04 hi32` (a `MOV [rsp+4], imm32` filling the upper half
/// of the pushed slot).
pub open spec fn spec_push_pointer(target: u64) -> Seq<u8> {
    if hi32(target) == 0 {
        seq![0x68u8] + le32(lo32(target))
    } else {
        seq![0x68u8] + le32(lo32(target)) + seq![0xc7u8, 0x44u8, 0x24u8, 0x04u8] + le32(
            hi32(target),
        )
    }
}

/// Bytes of a jump to `target` emitted at address `source`: the near form
/// when the displacement fits, otherwise push-immediate plus `C3` (RET).
pub open spec fn spec_jump(target: u64, source: u64) -> Seq<u8> {
    if spec_fits_i32(spec_jump_delta(target, source)) {
        spec_skip(lo32(spec_jump_delta(target, source)))
    } else {
        spec_push_pointer(target) + seq![0xc3u8]
    }
}

/// Size in bytes of the absolute push for `target`.
pub open spec fn spec_size_of_push_pointer(target: u64) -> int {
    if hi32(target) == 0 {
        5
    } else {
        13
    }
}

/// Size in bytes of a jump to `target` whose emission address is unknown:
/// the worst case over all sources.
pub open spec fn spec_size_of_jump_blind(target: u64) -> int {
    spec_size_of_push_pointer(target) + 1
}

/// Size in bytes of a jump to `target` emitted at `source`.
pub open spec fn spec_size_of_jump(target: u64, source: u64) -> int {
    if spec_fits_i32(spec_jump_delta(target, source)) {
        5
    } else {
        spec_size_of_push_pointer(target) + 1
    }
}

/// Bytes of `POP reg` for a 4-bit register number: a REX.B prefix when the
/// register is one of R8..R15.
pub open spec fn spec_pop(reg: u8) -> Seq<u8>
    recommends
        reg < 16,
{
    if reg >= 8 {
        seq![0x41u8, (0x58 + (reg - 8)) as u8]
    } else {
        seq![(0x58 + reg) as u8]
    }
}

/// Bytes of `MOV target, [source]` on 64-bit registers.
pub open spec fn spec_move64(source: u8, target: u8) -> Seq<u8>
    recommends
        source < 16,
        target < 16,
{
    seq![
        (0x48 + (if target >= 8 { 4u8 } else { 0u8 }) + (if source >= 8 { 1u8 } else { 0u8 })) as u8,
        0x8bu8,
        (((target % 8) * 8) + (source % 8)) as u8,
    ]
}

/// Advancing an address and then adding a signed offset, each modulo
/// 2^64, equals adding their sum.
pub proof fn lemma_woff_wadd(a: u64, b: u64, d: int)
    ensures
        spec_woff(spec_wadd(a, b), d) == spec_woff(a, b + d),
{
    let m: int = 0x1_0000_0000_0000_0000;
    assert((((a + b) % m) + d) % m == ((a + b) + d) % m) by (nonlinear_arith)
        requires
            m == 0x1_0000_0000_0000_0000,
    ;
}

/// Subtraction modulo 2^64.
pub fn wsub64(a: u64, b: u64) -> (r: u64)
    ensures
        r == spec_wsub(a, b),
{
    if a >= b {
        a - b
    } else {
        u64::MAX - (b - a) + 1
    }
}

/// Addition modulo 2^64.
pub fn wadd64(a: u64, b: u64) -> (r: u64)
    ensures
        r == spec_wadd(a, b),
{
    if a <= u64::MAX - b {
        a + b
    } else {
        b - (u64::MAX - a) - 1
    }
}

/// Whether `target` is reachable from `source` with a rel32 displacement:
/// their wrapped difference is a small forward or small backward offset.
pub fn is_32bit_offset(target: u64, source: u64) -> (r: bool)
    ensures
        r == spec_fits_i32(spec_wsub(target, source)),
{
    let d = wsub64(target, source);
    d <= 0x7fff_ffff || d >= 0xffff_ffff_8000_0000
}

/// Size of the 5-byte near relative jump.
pub fn size_of_skip() -> (r: usize)
    ensures
        r == 5,
{
    5
}

/// Size of the absolute push for `target`.
pub fn size_of_push_pointer(target: u64) -> (r: usize)
    ensures
        r == spec_size_of_push_pointer(target),
{
    if target / 0x1_0000_0000 == 0 {
        5
    } else {
        13
    }
}

/// Worst-case size of a jump to `target`, before its emission address is
/// known.
pub fn size_of_jump_blind(target: u64) -> (r: usize)
    ensures
        r == spec_size_of_jump_blind(target),
{
    size_of_push_pointer(target) + 1
}

/// Size of a jump to `target` emitted at `source`.
pub fn size_of_jump(target: u64, source: u64) -> (r: usize)
    ensures
        r == spec_size_of_jump(target, source),
{
    if is_32bit_offset(target, wadd64(source, 5)) {
        proof {
            lemma_wsub_chain(target, source);
        }
        size_of_skip()
    } else {
        proof {
            lemma_wsub_chain(target, source);
        }
        size_of_push_pointer(target) + 1
    }
}

/// Subtracting an address and then five more, each modulo 2^64, equals
/// subtracting the address already advanced by five.
pub proof fn lemma_wsub_chain(target: u64, source: u64)
    ensures
        spec_wsub(target, spec_wadd(source, 5)) == spec_jump_delta(target, source),
{
}

/// Size of `POP reg`.
pub fn size_of_pop(target: u8) -> (r: usize)
    requires
        target < 16,
    ensures
        r == spec_pop(target).len(),
{
    if (target >> 3) != 0 {
        assert(target >= 8) by (bit_vector)
            requires
                target < 16 && (target >> 3) != 0,
        ;
        2
    } else {
        assert(target < 8) by (bit_vector)
            requires
                target < 16 && (target >> 3) == 0,
        ;
        1
    }
}

/// Size of the register-to-register 64-bit move.
pub fn size_of_move64() -> (r: usize)
    ensures
        r == 3,
{
    3
}

/// Appends one byte.
pub fn write_u8(buf: &mut Vec<u8>, value: u8)
    ensures
        final(buf)@ == old(buf)@.push(value),
{
    buf.push(value);
}

/// Appends a 32-bit value in little-endian order.
pub fn write_u32(buf: &mut Vec<u8>, value: u32)
    ensures
        final(buf)@ == old(buf)@ + le32(value),
{
    buf.push((value % 0x100) as u8);
    buf.push(((value / 0x100) % 0x100) as u8);
    buf.push(((value / 0x1_0000) % 0x100) as u8);
    buf.push(((value / 0x100_0000) % 0x100) as u8);
    assert(final(buf)@ =~= old(buf)@ + le32(value));
}

/// Appends the bytes of `data[from..from + len]`.
pub fn write_bytes(buf: &mut Vec<u8>, data: &Vec<u8>, from: usize, len: usize)
    requires
        from + len <= data@.len(),
    ensures
        final(buf)@ == old(buf)@ + data@.subrange(from as int, from + len),
{
    let dlen: usize = data.len();
    let mut i: usize = 0;
    while i < len
        invariant
            i <= len,
            from + len <= dlen,
            dlen == data@.len(),
            buf@ == old(buf)@ + data@.subrange(from as int, from + i),
        decreases len - i,
    {
        buf.push(data[from + i]);
        i = i + 1;
        assert(buf@ =~= old(buf)@ + data@.subrange(from as int, from + i));
    }
}

/// Appends `JMP rel32` with the already-encoded displacement.
pub fn write_skip(buf: &mut Vec<u8>, rel: u32)
    ensures
        final(buf)@ == old(buf)@ + spec_skip(rel),
{
    write_u8(buf, 0xe9);
    write_u32(buf, rel);
    assert(final(buf)@ =~= old(buf)@ + spec_skip(rel));
}

/// Appends the absolute push of `target`.
pub fn push_pointer(buf: &mut Vec<u8>, target: u64)
    ensures
        final(buf)@ == old(buf)@ + spec_push_pointer(target),
        final(buf)@.len() == old(buf)@.len() + spec_size_of_push_pointer(target),
{
    write_u8(buf, 0x68);
    write_u32(buf, (target % 0x1_0000_0000) as u32);

    let high: u32 = (target / 0x1_0000_0000) as u32;
    if high != 0 {
        write_u8(buf, 0xc7);
        write_u8(buf, 0x44);
        write_u8(buf, 0x24);
        write_u8(buf, 0x04);
        write_u32(buf, high);
    }
    assert(final(buf)@ =~= old(buf)@ + spec_push_pointer(target));
}

/// Appends a jump to `target`, choosing the near or the absolute form by
/// reachability from `source`, the address where the first emitted byte
/// will live.
pub fn write_jump(buf: &mut Vec<u8>, source: u64, target: u64)
    ensures
        final(buf)@ == old(buf)@ + spec_jump(target, source),
        final(buf)@.len() == old(buf)@.len() + spec_size_of_jump(target, source),
{
    proof {
        lemma_wsub_chain(target, source);
    }
    if is_32bit_offset(target, wadd64(source, 5)) {
        let delta: u64 = wsub64(wsub64(target, source), 5);
        write_skip(buf, (delta % 0x1_0000_0000) as u32);
    } else {
        push_pointer(buf, target);
        write_u8(buf, 0xc3);
        assert(final(buf)@ =~= old(buf)@ + spec_jump(target, source));
    }
}

/// Appends `POP reg`.
pub fn write_pop(buf: &mut Vec<u8>, target: u8)
    requires
        target < 16,
    ensures
        final(buf)@ == old(buf)@ + spec_pop(target),
{
    if (target >> 3) != 0 {
        assert(target >= 8 && (0x40u8 | ((target & 0x08) >> 3)) == 0x41) by (bit_vector)
            requires
                target < 16 && (target >> 3) != 0,
        ;
        write_u8(buf, 0x40 | ((target & 0x08) >> 3));
    } else {
        assert(target < 8) by (bit_vector)
            requires
                target < 16 && (target >> 3) == 0,
        ;
    }
    assert((0x58u8 | (target & 0x07)) == 0x58 + (if target >= 8 { (target - 8) as u8 } else { target })) by (bit_vector)
        requires
            target < 16,
    ;
    write_u8(buf, 0x58 | (target & 0x07));
    assert(final(buf)@ =~= old(buf)@ + spec_pop(target));
}

/// Appends `MOV target, [source]` on 64-bit registers.
pub fn write_move64(buf: &mut Vec<u8>, source: u8, target: u8)
    requires
        source < 16,
        target < 16,
    ensures
        final(buf)@ == old(buf)@ + spec_move64(source, target),
{
    assert((0x48u8 | ((target & 0x08) >> 3 << 2) | ((source & 0x08) >> 3)) == 0x48 + (if target
        >= 8 {
        4u8
    } else {
        0u8
    }) + (if source >= 8 {
        1u8
    } else {
        0u8
    })) by (bit_vector)
        requires
            source < 16 && target < 16,
    ;
    assert((((target & 0x07) << 3) | (source & 0x07)) == ((target % 8) * 8) + (source % 8))
        by (bit_vector)
        requires
            source < 16 && target < 16,
    ;
    write_u8(buf, 0x48 | ((target & 0x08) >> 3 << 2) | ((source & 0x08) >> 3));
    write_u8(buf, 0x8b);
    write_u8(buf, ((target & 0x07) << 3) | (source & 0x07));
    assert(final(buf)@ =~= old(buf)@ + spec_move64(source, target));
}


/// Patch-shape law: the patch is the 5-byte near jump exactly when the
/// mod-2^64 displacement from the end of that jump fits a signed 32
/// bits; otherwise it is the absolute push-and-return form, 14 bytes
/// when the replacement has high address bits and 6 when it does not.
/// For addresses below 2^63 the fit condition is the plain signed
/// difference; the byte image always has exactly the computed size.
pub proof fn lemma_x86_patch_shape(target: u64, source: u64)
    ensures
        spec_fits_i32(spec_jump_delta(target, source)) <==> spec_size_of_jump(target, source)
            == 5,
        !spec_fits_i32(spec_jump_delta(target, source)) && hi32(target) != 0
            ==> spec_size_of_jump(target, source) == 14,
        !spec_fits_i32(spec_jump_delta(target, source)) && hi32(target) == 0
            ==> spec_size_of_jump(target, source) == 6,
        target < 0x8000_0000_0000_0000 && source < 0x8000_0000_0000_0000 ==> (spec_fits_i32(
            spec_jump_delta(target, source),
        ) <==> -0x8000_0000 <= target - source - 5 <= 0x7fff_ffff),
        spec_jump(target, source).len() == spec_size_of_jump(target, source),
{
}

/// What the caller gets back for the original function: the resolved
/// destination of a jump the prologue already begins with, the address of
/// the pointer slot of an indirect-jump thunk (the embedder reads the
/// pointer stored there), or a freshly built trampoline image to place at
/// the chosen base address.
pub enum X86Trampoline {
    Direct(u64),
    IndirectSlot(u64),
    Built(Vec<u8>),
}

/// A planned x86-64 hook: how many prologue bytes are displaced, the bytes
/// to write over them, and what to hand back as the original function.
pub struct X86Hook {
    pub used: usize,
    pub blank: usize,
    pub patch: Vec<u8>,
    pub trampoline: Option<X86Trampoline>,
}

/// Sign-extends a 32-bit displacement.
pub open spec fn spec_sext32(d: u32) -> int {
    if d >= 0x8000_0000 {
        d - 0x1_0000_0000
    } else {
        d as int
    }
}

/// Sign-extends an 8-bit displacement.
pub open spec fn spec_sext8(d: u8) -> int {
    if d >= 0x80 {
        d - 0x100
    } else {
        d as int
    }
}

/// The padding that fills the displaced bytes the jump does not cover.
pub open spec fn spec_nop_pad(n: int) -> Seq<u8> {
    Seq::new(n as nat, |i: int| 0x90u8)
}

/// The full patch for a hook at `source` jumping to `target`, padded with
/// `0x90` up to `used` bytes.
pub open spec fn spec_patch(target: u64, source: u64, used: int) -> Seq<u8> {
    spec_jump(target, source) + spec_nop_pad(used - spec_size_of_jump(target, source))
}

/// Bytes still to cover before the patch jump fits: the measure by which
/// prologue consumption advances.
pub open spec fn spec_remaining(required: int, used: int) -> int {
    if used < required {
        required - used
    } else {
        0
    }
}

/// Decoded prologue instructions with their offsets: each entry stays
/// inside the displaced window and has at least one byte.
pub open spec fn decodes_wf(ds: Seq<(usize, Hde64s)>, used: int) -> bool {
    forall|j: int|
        0 <= j < ds.len() ==> (#[trigger] ds[j]).0 + ds[j].1.len <= used && 1 <= ds[j].1.len
            && ds[j].1.len <= 39 && ds[j].1.rex_r <= 1 && ds[j].1.modrm_reg <= 7
}

/// Rewrites one x86-64 prologue and plans its trampoline.
///
/// `source` is the address of the target function, `target` the address of
/// the replacement, `prologue` the bytes found at `source` (at least 64 of
/// them), and `tramp_base`, when given, the address at which the embedder
/// will place the returned trampoline image.
///
/// The patch is a reachability-chosen jump padded with `0x90`: the plan
/// displaces whole instructions until the jump is covered. When the
/// prologue already starts with `E9 rel32` or with the indirect thunk
/// `FF 25 disp32` and a trampoline was asked for, nothing is patched and
/// the already-installed destination is handed back instead.
#[verifier::rlimit(100)]
#[verifier::spinoff_prover]
pub fn hook_function_x86_64(
    source: u64,
    target: u64,
    prologue: &Vec<u8>,
    tramp_base: Option<u64>,
) -> (r: Result<X86Hook, crate::error::SubstrateError>)
    requires
        prologue@.len() >= 64,
    ensures
        r is Ok <==> source != 0,
        r matches Err(e) ==> e is NullPointer,
        r matches Ok(h) ==> {
            let required = spec_size_of_jump(target, source);
            &&& (tramp_base is Some && prologue@[0] == 0xe9 ==> h.used == 4 && h.patch@.len() == 0
                && (h.trampoline matches Some(X86Trampoline::Direct(d)) && d == spec_woff(
                source,
                5 + spec_sext32(crate::disasm::hde64::spec_le32_at(prologue@, 1)),
            )))
            &&& (tramp_base is Some && prologue@[0] == 0xff && prologue@[1] == 0x25 ==> h.used == 6
                && h.patch@.len() == 0 && (h.trampoline matches Some(
                X86Trampoline::IndirectSlot(s),
            ) && s == spec_woff(
                source,
                6 + spec_sext32(crate::disasm::hde64::spec_le32_at(prologue@, 2)),
            )))
            &&& (!(tramp_base is Some && (prologue@[0] == 0xe9 || (prologue@[0] == 0xff
                && prologue@[1] == 0x25))) ==> {
                &&& h.patch@ == spec_patch(target, source, h.used as int)
                &&& h.patch@.len() == h.used
                &&& required <= h.used < required + 39
                &&& h.blank == h.used - required
                &&& (tramp_base is None ==> h.trampoline is None)
                &&& (tramp_base matches Some(base) ==> (h.trampoline matches Some(
                    X86Trampoline::Built(bts),
                ) && (exists|body: Seq<u8>|
                    bts@ == #[trigger] (body + spec_jump(
                        spec_wadd(source, h.used as u64),
                        spec_wadd(base, body.len() as u64),
                    )) && body.len() <= 44 * 52) && (prologue@[0] == 0x8b && (prologue@[1] & 0xc7)
                    == 0x05 ==> bts@.subrange(
                    0,
                    spec_reloc_rip_mov(
                        spec_woff(
                            source,
                            6 + spec_sext32(crate::disasm::hde64::spec_le32_at(prologue@, 2)),
                        ),
                        ((prologue@[1] & 0x3f) >> 3) as u8,
                    ).len() as int,
                ) == spec_reloc_rip_mov(
                    spec_woff(
                        source,
                        6 + spec_sext32(crate::disasm::hde64::spec_le32_at(prologue@, 2)),
                    ),
                    ((prologue@[1] & 0x3f) >> 3) as u8,
                ))))
            })
        },
{
    if source == 0 {
        return Err(crate::error::SubstrateError::NullPointer);
    }

    let required: usize = size_of_jump(target, source);

    let mut decodes: Vec<(usize, Hde64s)> = Vec::new();
    let mut used: usize = 0;
    while used < required
        invariant
            prologue@.len() >= 64,
            required <= 14,
            used <= 13 + 39,
            decodes_wf(decodes@, used as int),
            decodes@.len() <= used,
            decodes@.len() == 0 ==> used == 0,
            used < required ==> used <= 13,
            used >= required ==> required <= used < required + 39,
            required == spec_size_of_jump(target, source),
            decodes@.len() > 0 ==> decodes@[0].0 == 0,
            decodes@.len() > 0 && prologue@[0] == 0x8b && (prologue@[1] & 0xc7) == 0x05 ==> {
                let d = decodes@[0].1;
                d.opcode == 0x8b && d.modrm == prologue@[1] && d.modrm_reg == ((prologue@[1]
                    & 0x3f) >> 3) && d.rex_r == 0 && d.disp
                    == crate::disasm::hde64::spec_le32_at(prologue@, 2) && d.len == 6
            },
        decreases spec_remaining(required as int, used as int),
    {
        let mut decode = empty_descriptor();
        let width = hde64_disasm(prologue, used, &mut decode);
        if width == 0 {
            return Err(crate::error::SubstrateError::DisassemblyFailed);
        }
        let ghost old_ds = decodes@;
        let ghost old_used = used as int;
        decodes.push((used, decode));
        used = used + width as usize;
        proof {
            assert forall|j: int| 0 <= j < decodes@.len() implies (#[trigger] decodes@[j]).0
                + decodes@[j].1.len <= used as int && 1 <= decodes@[j].1.len && decodes@[j].1.len
                <= 39 && decodes@[j].1.rex_r <= 1 && decodes@[j].1.modrm_reg <= 7 by {
                if j < old_ds.len() {
                    assert(decodes@[j] == old_ds[j]);
                }
            }
            if old_ds.len() > 0 {
                assert(decodes@[0] == old_ds[0]);
            } else {
                assert(decodes@[0].0 == old_used);
            }
        }
    }
    let blank = used - required;

    let mut trampoline: Option<X86Trampoline> = None;
    if let Some(base) = tramp_base {
        if prologue[0] == 0xe9 {
            let dest: u64 = add_sext32(wadd64(source, 5), read_le32(prologue, 1));
            proof {
                lemma_woff_wadd(
                    source,
                    5,
                    spec_sext32(crate::disasm::hde64::spec_le32_at(prologue@, 1)),
                );
            }
            return Ok(
                X86Hook {
                    used: 4,
                    blank: 0,
                    patch: Vec::new(),
                    trampoline: Some(X86Trampoline::Direct(dest)),
                },
            );
        }
        if prologue[0] == 0xff && prologue[1] == 0x25 {
            let slot: u64 = add_sext32(wadd64(source, 6), read_le32(prologue, 2));
            proof {
                lemma_woff_wadd(
                    source,
                    6,
                    spec_sext32(crate::disasm::hde64::spec_le32_at(prologue@, 2)),
                );
            }
            return Ok(
                X86Hook {
                    used: 6,
                    blank: 0,
                    patch: Vec::new(),
                    trampoline: Some(X86Trampoline::IndirectSlot(slot)),
                },
            );
        }

        let buf = build_x86_trampoline(prologue, source, base, used, &decodes);
        trampoline = Some(X86Trampoline::Built(buf));
    }

    let mut patch: Vec<u8> = Vec::new();
    write_jump(&mut patch, source, target);
    let mut k: usize = 0;
    while k < blank
        invariant
            k <= blank,
            patch@ == spec_jump(target, source) + spec_nop_pad(k as int),
        decreases blank - k,
    {
        write_u8(&mut patch, 0x90);
        assert(patch@ =~= spec_jump(target, source) + spec_nop_pad(k + 1));
        k = k + 1;
    }
    assert(patch@ =~= spec_patch(target, source, used as int));

    Ok(X86Hook { used, blank, patch, trampoline })
}

/// Emitted image of a relocated `MOV reg, [rip+disp]`: push the absolute
/// source address, pop it into the destination register, then load through
/// it, leaving the register as the original load would.
pub open spec fn spec_reloc_rip_mov(destiny: u64, reg: u8) -> Seq<u8> {
    spec_push_pointer(destiny) + spec_pop(reg) + spec_move64(reg, reg)
}

/// Relocates `MOV reg, [rip+disp]`.
fn reloc_rip_mov(buf: &mut Vec<u8>, destiny: u64, reg: u8)
    requires
        reg < 16,
    ensures
        final(buf)@ == old(buf)@ + spec_reloc_rip_mov(destiny, reg),
        final(buf)@.len() <= old(buf)@.len() + 18,
{
    push_pointer(buf, destiny);
    write_pop(buf, reg);
    write_move64(buf, reg, reg);
    assert(final(buf)@ =~= old(buf)@ + spec_reloc_rip_mov(destiny, reg));
}

/// Emitted image of a relocated `CALL rel32`: a call over the next five
/// bytes materializes the return address, then a jump reaches the
/// original callee. `here` is the address of the first emitted byte.
pub open spec fn spec_reloc_call(destiny: u64, here: u64) -> Seq<u8> {
    seq![0xe8u8] + le32(5) + spec_skip(spec_size_of_jump(destiny, spec_wadd(here, 10)) as u32)
        + spec_jump(destiny, spec_wadd(here, 10))
}

/// Relocates `CALL rel32` with a non-zero displacement.
fn reloc_call(buf: &mut Vec<u8>, base: u64, destiny: u64)
    ensures
        final(buf)@ == old(buf)@ + spec_reloc_call(
            destiny,
            spec_wadd(base, old(buf)@.len() as u64),
        ),
        final(buf)@.len() <= old(buf)@.len() + 24,
        old(buf)@.len() <= final(buf)@.len(),
{
    let here: u64 = wadd64(base, buf.len() as u64);
    write_u8(buf, 0xe8);
    write_u32(buf, 5);
    let current_pos: u64 = wadd64(here, 10);
    let skip = size_of_jump(destiny, current_pos);
    write_skip(buf, skip as u32);
    write_jump(buf, current_pos, destiny);
    assert(final(buf)@ =~= old(buf)@ + spec_reloc_call(destiny, here));
}

/// Emitted image of a relocated conditional short branch: the original
/// condition skips two bytes; the fall-through `EB` hops over a full
/// jump to the original destination. `here` is the address of the first
/// emitted byte.
pub open spec fn spec_reloc_cond(b0: u8, destiny: u64, here: u64) -> Seq<u8> {
    seq![b0, 2u8, 0xebu8, spec_size_of_jump(destiny, spec_wadd(here, 4)) as u8] + spec_jump(
        destiny,
        spec_wadd(here, 4),
    )
}

/// Relocates a conditional short branch.
fn reloc_cond(buf: &mut Vec<u8>, base: u64, b0: u8, destiny: u64)
    ensures
        final(buf)@ == old(buf)@ + spec_reloc_cond(
            b0,
            destiny,
            spec_wadd(base, old(buf)@.len() as u64),
        ),
        final(buf)@.len() <= old(buf)@.len() + 18,
        old(buf)@.len() <= final(buf)@.len(),
{
    let here: u64 = wadd64(base, buf.len() as u64);
    write_u8(buf, b0);
    write_u8(buf, 2);
    write_u8(buf, 0xeb);
    let current_pos: u64 = wadd64(here, 4);
    let skip = size_of_jump(destiny, current_pos);
    write_u8(buf, skip as u8);
    write_jump(buf, current_pos, destiny);
    assert(final(buf)@ =~= old(buf)@ + spec_reloc_cond(b0, destiny, here));
}

/// Emits the relocated image of one displaced instruction: RIP-relative
/// loads become an absolute push, pop and indirect move; calls and
/// branches are rewritten to reach their original destination from the
/// trampoline; everything else is copied verbatim. What was already in
/// the buffer is left untouched.
#[verifier::rlimit(100)]
#[verifier::spinoff_prover]
fn relocate_ins(
    buf: &mut Vec<u8>,
    prologue: &Vec<u8>,
    source: u64,
    base: u64,
    used: usize,
    offset: usize,
    decode: &Hde64s,
) -> (nothing: ())
    requires
        prologue@.len() >= 64,
        offset + decode.len <= used,
        used <= 52,
        1 <= decode.len,
        decode.len <= 39,
        decode.rex_r <= 1,
        decode.modrm_reg <= 7,
        old(buf)@.len() <= 44 * 52,
    ensures
        final(buf)@.len() <= old(buf)@.len() + 44,
        old(buf)@.len() <= final(buf)@.len(),
        final(buf)@.subrange(0, old(buf)@.len() as int) == old(buf)@,
        (decode.modrm & 0xc7) == 0x05 && decode.opcode == 0x8b ==> final(buf)@ == old(buf)@
            + spec_reloc_rip_mov(
            spec_woff(source, offset + decode.len + spec_sext32(decode.disp)),
            ((decode.rex_r << 3) | decode.modrm_reg) as u8,
        ),
{
    let width = decode.len as usize;
    let mut copied = false;
    if (decode.modrm & 0xc7) == 0x05 && decode.opcode == 0x8b {
        let destiny: u64 = add_sext32(wadd64(source, (offset + width) as u64), decode.disp);
        let rr: u8 = decode.rex_r;
        let mr: u8 = decode.modrm_reg;
        let reg: u8 = (rr << 3) | mr;
        assert(((rr << 3) | mr) < 16) by (bit_vector)
            requires
                rr <= 1 && mr <= 7,
        ;
        proof {
            lemma_woff_wadd(source, (offset + width) as u64, spec_sext32(decode.disp));
        }
        reloc_rip_mov(buf, destiny, reg);
        copied = true;
    }

    if !copied {
        relocate_branch_or_copy(buf, prologue, source, base, used, offset, decode);
    }
    proof {
        assert(final(buf)@.subrange(0, old(buf)@.len() as int) =~= old(buf)@);
    }
}

/// Relocates a displaced call or branch, or copies the instruction
/// verbatim when it is not position-dependent. What was already in the
/// buffer is left untouched.
#[verifier::rlimit(100)]
#[verifier::spinoff_prover]
fn relocate_branch_or_copy(
    buf: &mut Vec<u8>,
    prologue: &Vec<u8>,
    source: u64,
    base: u64,
    used: usize,
    offset: usize,
    decode: &Hde64s,
) -> (nothing: ())
    requires
        prologue@.len() >= 64,
        offset + decode.len <= used,
        used <= 52,
        1 <= decode.len,
        decode.len <= 39,
        old(buf)@.len() <= 44 * 52 + 18,
    ensures
        final(buf)@.len() <= old(buf)@.len() + 39,
        old(buf)@.len() <= final(buf)@.len(),
        final(buf)@.subrange(0, old(buf)@.len() as int) == old(buf)@,
{
    let width = decode.len as usize;
    let b0 = prologue[offset];
    {
        if b0 == 0xe8 {
            let relative = read_le32(prologue, offset + 1);
            if relative == 0 {
                push_pointer(buf, wadd64(source, (offset + width) as u64));
            } else {
                let destiny: u64 = add_sext32(wadd64(source, (offset + width) as u64), relative);
                reloc_call(buf, base, destiny);
            }
        } else if b0 == 0xeb {
            let destiny: u64 = add_sext8(
                wadd64(source, (offset + width) as u64),
                prologue[offset + 1],
            );
            let here: u64 = wadd64(base, buf.len() as u64);
            write_jump(buf, here, destiny);
        } else if b0 == 0xe9 {
            let destiny: u64 = add_sext32(
                wadd64(source, (offset + width) as u64),
                read_le32(prologue, offset + 1),
            );
            let here: u64 = wadd64(base, buf.len() as u64);
            write_jump(buf, here, destiny);
        } else if b0 == 0xe3 || (b0 & 0xf0) == 0x70 {
            let destiny: u64 = add_sext8(
                wadd64(source, (offset + width) as u64),
                prologue[offset + 1],
            );
            reloc_cond(buf, base, b0, destiny);
        } else {
            write_bytes(buf, prologue, offset, width);
        }
    }
    proof {
        assert(final(buf)@.subrange(0, old(buf)@.len() as int) =~= old(buf)@);
    }
}

/// Builds the trampoline image: each displaced instruction relocated in
/// order, then a jump back to the first un-displaced byte. When the
/// leading instruction is `MOV reg, [rip+disp]`, the image starts with
/// its exact relocation.
#[verifier::rlimit(100)]
#[verifier::spinoff_prover]
fn build_x86_trampoline(
    prologue: &Vec<u8>,
    source: u64,
    base: u64,
    used: usize,
    decodes: &Vec<(usize, Hde64s)>,
) -> (buf: Vec<u8>)
    requires
        prologue@.len() >= 64,
        decodes_wf(decodes@, used as int),
        decodes@.len() <= 52,
        used <= 52,
        decodes@.len() > 0 ==> decodes@[0].0 == 0,
        decodes@.len() > 0 && prologue@[0] == 0x8b && (prologue@[1] & 0xc7) == 0x05 ==> {
            let d = decodes@[0].1;
            d.opcode == 0x8b && d.modrm == prologue@[1] && d.modrm_reg == ((prologue@[1] & 0x3f)
                >> 3) && d.rex_r == 0 && d.disp == crate::disasm::hde64::spec_le32_at(prologue@, 2)
                && d.len == 6
        },
    ensures
        (exists|body: Seq<u8>|
            buf@ == #[trigger] (body + spec_jump(
                spec_wadd(source, used as u64),
                spec_wadd(base, body.len() as u64),
            )) && body.len() <= 44 * 52),
        decodes@.len() > 0 && prologue@[0] == 0x8b && (prologue@[1] & 0xc7) == 0x05
            ==> buf@.subrange(
            0,
            spec_reloc_rip_mov(
                spec_woff(source, 6 + spec_sext32(crate::disasm::hde64::spec_le32_at(prologue@, 2))),
                ((prologue@[1] & 0x3f) >> 3) as u8,
            ).len() as int,
        ) == spec_reloc_rip_mov(
            spec_woff(source, 6 + spec_sext32(crate::disasm::hde64::spec_le32_at(prologue@, 2))),
            ((prologue@[1] & 0x3f) >> 3) as u8,
        ),
{
    let ghost rip_first: bool = decodes@.len() > 0 && prologue@[0] == 0x8b && (prologue@[1]
        & 0xc7) == 0x05;
    let ghost rip_image: Seq<u8> = spec_reloc_rip_mov(
        spec_woff(source, 6 + spec_sext32(crate::disasm::hde64::spec_le32_at(prologue@, 2))),
        ((prologue@[1] & 0x3f) >> 3) as u8,
    );

    let mut buf: Vec<u8> = Vec::new();
    let n_dec = decodes.len();
    let mut i: usize = 0;
    while i < n_dec
        invariant
            i <= n_dec,
            n_dec == decodes@.len(),
            n_dec <= 52,
            decodes_wf(decodes@, used as int),
            used <= 52,
            prologue@.len() >= 64,
            buf@.len() <= 44 * i,
            rip_first == (decodes@.len() > 0 && prologue@[0] == 0x8b && (prologue@[1] & 0xc7)
                == 0x05),
            rip_image == spec_reloc_rip_mov(
                spec_woff(
                    source,
                    6 + spec_sext32(crate::disasm::hde64::spec_le32_at(prologue@, 2)),
                ),
                ((prologue@[1] & 0x3f) >> 3) as u8,
            ),
            n_dec > 0 ==> decodes@[0].0 == 0,
            rip_first ==> {
                let d = decodes@[0].1;
                d.opcode == 0x8b && d.modrm == prologue@[1] && d.modrm_reg == ((prologue@[1]
                    & 0x3f) >> 3) && d.rex_r == 0 && d.disp
                    == crate::disasm::hde64::spec_le32_at(prologue@, 2) && d.len == 6
            },
            i > 0 && rip_first ==> buf@.len() >= rip_image.len() && buf@.subrange(
                0,
                rip_image.len() as int,
            ) == rip_image,
        decreases n_dec - i,
    {
        let offset = decodes[i].0;
        let decode = decodes[i].1;
        assert(offset + decode.len <= used && 1 <= decode.len && decode.len <= 39 && decode.rex_r
            <= 1 && decode.modrm_reg <= 7);
        let ghost pre = buf@;
        relocate_ins(&mut buf, prologue, source, base, used, offset, &decode);
        proof {
            if rip_first {
                if i == 0 {
                    let dm: u8 = decode.modrm;
                    let p1: u8 = prologue@[1];
                    assert((dm & 0xc7) == 0x05) by (bit_vector)
                        requires
                            dm == p1 && (p1 & 0xc7) == 0x05,
                    ;
                    let drr: u8 = decode.rex_r;
                    let dmr: u8 = decode.modrm_reg;
                    assert(((drr << 3) | dmr) == dmr) by (bit_vector)
                        requires
                            drr == 0 && dmr <= 7,
                    ;
                    assert(buf@.subrange(0, rip_image.len() as int) =~= rip_image);
                } else {
                    assert(buf@.subrange(0, rip_image.len() as int) =~= pre.subrange(
                        0,
                        pre.len() as int,
                    ).subrange(0, rip_image.len() as int));
                    assert(buf@.subrange(0, rip_image.len() as int) =~= rip_image);
                }
            }
        }
        i = i + 1;
    }
    let ghost body = buf@;
    let here: u64 = wadd64(base, buf.len() as u64);
    write_jump(&mut buf, here, wadd64(source, used as u64));
    proof {
        assert(buf@ == body + spec_jump(
            spec_wadd(source, used as u64),
            spec_wadd(base, body.len() as u64),
        ));
        if rip_first {
            assert(buf@.subrange(0, rip_image.len() as int) =~= body.subrange(
                0,
                rip_image.len() as int,
            ));
        }
    }
    buf
}

/// A zeroed instruction descriptor, ready to be filled by the decoder.
pub fn empty_descriptor() -> (r: Hde64s)
    ensures
        r.len == 0,
{
    Hde64s {
        len: 0,
        p_rep: 0,
        p_lock: 0,
        p_seg: 0,
        p_66: 0,
        p_67: 0,
        rex: 0,
        rex_w: 0,
        rex_r: 0,
        rex_x: 0,
        rex_b: 0,
        opcode: 0,
        opcode2: 0,
        modrm: 0,
        modrm_mod: 0,
        modrm_reg: 0,
        modrm_rm: 0,
        sib: 0,
        sib_scale: 0,
        sib_index: 0,
        sib_base: 0,
        imm: 0,
        disp: 0,
        flags: 0,
    }
}

/// Adds a sign-extended 32-bit displacement to an address, modulo 2^64.
fn add_sext32(a: u64, d: u32) -> (r: u64)
    ensures
        r == spec_woff(a, spec_sext32(d)),
{
    if d >= 0x8000_0000 {
        wsub64(a, 0x1_0000_0000 - d as u64)
    } else {
        wadd64(a, d as u64)
    }
}

/// Adds a sign-extended 8-bit displacement to an address, modulo 2^64.
fn add_sext8(a: u64, d: u8) -> (r: u64)
    ensures
        r == spec_woff(a, spec_sext8(d)),
{
    if d >= 0x80 {
        wsub64(a, 0x100 - d as u64)
    } else {
        wadd64(a, d as u64)
    }
}

} // verus!
