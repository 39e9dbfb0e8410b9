use substrate::arch::aarch64::{fix_instructions, hook_function_aarch64, A64_NOP};
use substrate::error::SubstrateError;

fn nop_prologue() -> Vec<u32> {
    vec![A64_NOP; 5]
}

#[test]
fn near_patch_is_single_branch() {
    let h = hook_function_aarch64(0x1000, 0x1100, &nop_prologue(), None).unwrap();
    assert_eq!(h.used, 4);
    // B +0x100: imm26 = 0x40
    assert_eq!(h.patch, vec![0x1400_0040]);
    assert!(h.trampoline.is_none());
}

#[test]
fn near_patch_backward_branch() {
    let h = hook_function_aarch64(0x2000, 0x1000, &nop_prologue(), None).unwrap();
    assert_eq!(h.used, 4);
    // B -0x1000: imm26 = -0x400 in two's complement
    assert_eq!(h.patch, vec![0x1400_0000 | (0x0400_0000 - 0x400)]);
}

#[test]
fn far_patch_aligned_entry() {
    let h = hook_function_aarch64(0x1_0000_0000, 0x8_0000_0000, &nop_prologue(), None).unwrap();
    assert_eq!(h.used, 16);
    assert_eq!(h.patch, vec![0x5800_0051, 0xd61f_0220, 0x0000_0000, 0x0000_0008]);
    // the literal words land 8-aligned
    assert_eq!((0x1_0000_0000u64 + h.used as u64 - 8) % 8, 0);
}

#[test]
fn far_patch_unaligned_entry_gets_leading_nop() {
    let h = hook_function_aarch64(0x1_0000_0004, 0x8_0000_0000, &nop_prologue(), None).unwrap();
    assert_eq!(h.used, 20);
    assert_eq!(
        h.patch,
        vec![A64_NOP, 0x5800_0051, 0xd61f_0220, 0x0000_0000, 0x0000_0008]
    );
    assert_eq!((0x1_0000_0004u64 + h.used as u64 - 8) % 8, 0);
}

#[test]
fn intra_window_cross_references_are_fixed_up() {
    // B +8; NOP; B -4; NOP: the forward branch waits for its target slot
    // through the fix-map, the backward branch resolves directly
    let prologue = vec![0x1400_0002, A64_NOP, 0x17ff_ffff, A64_NOP, A64_NOP];
    let symbol = 0x4_0000_0000u64;
    let replace = 0x9_0000_0000u64;
    let base = 0x5_0000_0000u64;
    let h = hook_function_aarch64(symbol, replace, &prologue, Some(base)).unwrap();
    assert_eq!(h.used, 16);
    let t = h.trampoline.expect("trampoline");
    assert!(t.copies.is_empty());
    // input 0 branches forward to input 2 (relocated two words ahead);
    // input 2 branches back to input 1 (one word behind); the tail is a
    // far jump to symbol + 16
    assert_eq!(
        t.words,
        vec![
            0x1400_0002,
            A64_NOP,
            0x17ff_ffff,
            A64_NOP,
            0x5800_0051,
            0xd61f_0220,
            0x0000_0010,
            0x0000_0004,
        ]
    );
}

#[test]
fn near_hook_relocates_one_instruction() {
    // near replacement: one displaced NOP, then a far tail jump home
    let symbol = 0x4_0000_0000u64;
    let replace = symbol + 0x100;
    let base = 0x5_0000_0000u64;
    let h = hook_function_aarch64(symbol, replace, &nop_prologue(), Some(base)).unwrap();
    assert_eq!(h.used, 4);
    assert_eq!(h.patch, vec![0x1400_0040]);
    let t = h.trampoline.expect("trampoline");
    // NOP, then an aligning NOP so the literal lands 8-aligned, then the
    // absolute jump to symbol + 4
    assert_eq!(
        t.words,
        vec![
            A64_NOP,
            A64_NOP,
            0x5800_0051,
            0xd61f_0220,
            0x0000_0004,
            0x0000_0004,
        ]
    );
}

#[test]
fn null_symbol_is_refused() {
    let r = hook_function_aarch64(0, 0x1100, &nop_prologue(), None);
    assert!(matches!(r, Err(SubstrateError::NullPointer)));
}

#[test]
fn trampoline_fits_the_pool_slot() {
    // a window full of literal loads expands the most; it must still fit
    // the fixed slot
    let prologue = vec![0x1800_0040u32, 0x1800_0040, 0x1800_0040, 0x1800_0040, 0x1800_0040];
    let h = hook_function_aarch64(
        0x4_0000_0000,
        0x9_0000_0000,
        &prologue,
        Some(0x5_0000_0000),
    )
    .unwrap();
    let t = h.trampoline.expect("trampoline");
    assert!(t.words.len() <= 50);
}

#[test]
fn backward_conditional_branch_stays_intra_window() {
    // NOP; B.EQ -4: the conditional's signed offset points at the window's
    // first slot, so it is kept as is rather than taking the far form
    let prologue = vec![A64_NOP, 0x54ff_ffe0];
    let (words, copies) = fix_instructions(&prologue, 0x1000, 2, 0x2000);
    assert!(copies.is_empty());
    assert_eq!(words, vec![A64_NOP, 0x54ff_ffe0, 0x17ff_fc00]);
}

#[test]
fn far_branch_becomes_literal_jump() {
    // a single displaced `B +8` whose target is far from the trampoline:
    // rewritten as the absolute-literal jump, then the far tail home
    let prologue = vec![0x1400_0002u32];
    let (words, copies) = fix_instructions(&prologue, 0x4_0000_0000, 1, 0x5_0000_0000);
    assert!(copies.is_empty());
    assert_eq!(
        words,
        vec![
            0x5800_0051, 0xd61f_0220, 0x0000_0008, 0x0000_0004, // jump to symbol + 8
            0x5800_0051, 0xd61f_0220, 0x0000_0004, 0x0000_0004, // tail to symbol + 4
        ]
    );
}

#[test]
fn far_literal_load_inlines_its_datum() {
    // `LDR w0, [PC, #8]` far from the trampoline: the load reads an
    // inlined copy of its datum, which the embedder is asked to copy in
    let prologue = vec![0x1800_0040u32];
    let (words, copies) = fix_instructions(&prologue, 0x4_0000_0000, 1, 0x5_0000_0000);
    assert_eq!(copies.len(), 1);
    assert_eq!(copies[0].out_idx, 2);
    assert_eq!(copies[0].addr, 0x4_0000_0008);
    assert_eq!(copies[0].words, 1);
    assert_eq!(
        words,
        vec![
            0x1800_0040, // LDR w0, [PC, #8], now aimed at the inline slot
            0x1400_0002, // skip over the datum
            0x0000_0000, // the embedder's copy lands here
            0xd503_201f, // alignment for the tail literal
            0x5800_0051, 0xd61f_0220, 0x0000_0004, 0x0000_0004,
        ]
    );
}
