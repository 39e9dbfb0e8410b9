use substrate::arch::arm::{a_ldr_rd_rn_im, hook_function_arm, ArmTrampoline};
use substrate::arch::thumb::{hook_function_thumb, ThumbTrampoline};
use substrate::error::SubstrateError;

#[test]
fn arm_patch_is_literal_pool_load() {
    let prologue = vec![0xe1a0_0000u32, 0xe1a0_0000];
    let h = hook_function_arm(0x1_0000, 0x2_0000, &prologue, None).unwrap();
    assert_eq!(h.used, 8);
    assert_eq!(h.patch_offset, 0);
    assert_eq!(h.patch, vec![0xe51f_f004, 0x2_0000]);
    assert!(h.trampoline.is_none());
}

#[test]
fn arm_patch_word_encoding() {
    // LDR PC, [PC, #-4]
    assert_eq!(a_ldr_rd_rn_im(15, 15, 4 - 8), 0xe51f_f004);
}

#[test]
fn arm_short_circuit_rewrites_only_the_literal() {
    let prologue = vec![0xe51f_f004u32, 0x00c0_ffee];
    let h = hook_function_arm(0x1_0000, 0x2_0000, &prologue, Some(0x9_0000)).unwrap();
    assert_eq!(h.used, 4);
    assert_eq!(h.patch_offset, 4);
    assert_eq!(h.patch, vec![0x2_0000]);
    match h.trampoline {
        Some(ArmTrampoline::Direct(d)) => assert_eq!(d, 0x00c0_ffee),
        _ => panic!("expected the stored destination"),
    }
}

#[test]
fn arm_pc_relative_load_uses_literal_slot() {
    // LDR r0, [PC, #4]; MOV r0, r0
    let prologue = vec![0xe59f_0004u32, 0xe1a0_0000];
    let h = hook_function_arm(0x1_0000, 0x2_0000, &prologue, Some(0x9_0000)).unwrap();
    assert_eq!(h.used, 8);
    let t = match h.trampoline {
        Some(ArmTrampoline::Built(v)) => v,
        _ => panic!("expected a built trampoline"),
    };
    // the load reads the PC value it would have seen from the tail slot,
    // then performs the original access through r0
    assert_eq!(
        t,
        vec![
            0xe59f_000c, // LDR r0, [PC, #12]
            0xe590_0004, // LDR r0, [r0, #4]
            0xe1a0_0000, // MOV r0, r0 (copied)
            0xe51f_f004, // LDR PC, [PC, #-4]
            0x0001_0008, // resume address: symbol + 8
            0x0001_0008, // literal: the PC the load would have observed
        ]
    );
}

#[test]
fn arm_null_symbol_is_refused() {
    let prologue = vec![0xe1a0_0000u32, 0xe1a0_0000];
    let r = hook_function_arm(0, 0x2_0000, &prologue, None);
    assert!(matches!(r, Err(SubstrateError::NullPointer)));
}

fn thumb_nops() -> Vec<u16> {
    vec![0xbf00u16; 16]
}

#[test]
fn thumb_aligned_entry_patch() {
    // T = 0x2004 (4-aligned), R = 0x3001
    let h = hook_function_thumb(0x2004, 0x3001, &thumb_nops(), None).unwrap();
    assert_eq!(h.used, 12);
    assert_eq!(h.patch_offset, 0);
    assert_eq!(
        h.patch,
        vec![0x4778, 0x46c0, 0xf004, 0xe51f, 0x3001, 0x0000]
    );
    // as bytes: 78 47 C0 46 04 F0 1F E5 01 30 00 00
    let bytes: Vec<u8> = h.patch.iter().flat_map(|w| w.to_le_bytes()).collect();
    assert_eq!(
        bytes,
        vec![0x78, 0x47, 0xc0, 0x46, 0x04, 0xf0, 0x1f, 0xe5, 0x01, 0x30, 0x00, 0x00]
    );
}

#[test]
fn thumb_unaligned_entry_gets_leading_nop() {
    let h = hook_function_thumb(0x2006, 0x3001, &thumb_nops(), None).unwrap();
    assert_eq!(h.used, 14);
    assert_eq!(
        h.patch,
        vec![0x46c0, 0x4778, 0x46c0, 0xf004, 0xe51f, 0x3001, 0x0000]
    );
    // the word holding the replacement is 4-byte aligned
    assert_eq!((0x2006 + 2 + 8) % 4, 0);
}

#[test]
fn thumb_short_circuit_rewrites_only_the_literal() {
    let mut p = vec![0x4778u16, 0x46c0, 0xf004, 0xe51f, 0x5001, 0x0000];
    p.resize(16, 0xbf00);
    let h = hook_function_thumb(0x0200_0000, 0x3001, &p, Some(0x0900_0000)).unwrap();
    assert_eq!(h.used, 4);
    assert_eq!(h.patch_offset, 8);
    assert_eq!(h.patch, vec![0x3001, 0x0000]);
    match h.trampoline {
        Some(ThumbTrampoline::Direct(d)) => assert_eq!(d, 0x5001),
        _ => panic!("expected the stored destination"),
    }
}

#[test]
fn thumb_trampoline_of_plain_code() {
    let h = hook_function_thumb(0x0200_0000, 0x3001, &thumb_nops(), Some(0x0900_0000)).unwrap();
    assert_eq!(h.used, 12);
    let (v, entry) = match h.trampoline {
        Some(ThumbTrampoline::Built { halfwords, entry }) => (halfwords, entry),
        _ => panic!("expected a built trampoline"),
    };
    assert_eq!(entry, 0x0900_0001);
    assert_eq!(
        v,
        vec![
            0xbf00, 0xbf00, 0xbf00, 0xbf00, 0xbf00, 0xbf00, // displaced NOPs
            0x4778, 0x46c0, // BX PC; NOP
            0xf004, 0xe51f, // LDR PC, [PC, #-4]
            0x000d, 0x0200, // resume: symbol + used, Thumb bit set
        ]
    );
}

#[test]
fn thumb_pc_relative_ldr_reloc() {
    // LDR r0, [PC, #4] then NOPs
    let mut p = vec![0x4801u16];
    p.resize(16, 0xbf00);
    let h = hook_function_thumb(0x0200_0000, 0x3001, &p, Some(0x0900_0000)).unwrap();
    let (v, entry) = match h.trampoline {
        Some(ThumbTrampoline::Built { halfwords, entry }) => (halfwords, entry),
        _ => panic!("expected a built trampoline"),
    };
    assert_eq!(entry, 0x0900_0003); // one pad halfword, Thumb bit set
    assert_eq!(
        v,
        vec![
            0x0000, // alignment pad
            0x4806, // LDR r0, [PC, #24]
            0x6800, // LDR r0, [r0]
            0xbf00, 0xbf00, 0xbf00, 0xbf00, 0xbf00, // remaining displaced NOPs
            0x4778, 0x46c0, // BX PC; NOP
            0xf004, 0xe51f, // LDR PC, [PC, #-4]
            0x000d, 0x0200, // resume: symbol + used, Thumb bit set
            0x0008, 0x0200, // literal: aligned PC value + imm8 * 4
        ]
    );
}

#[test]
fn thumb_high_register_add_is_refused() {
    let mut p = vec![0x44f8u16];
    p.resize(16, 0xbf00);
    let r = hook_function_thumb(0x0200_0000, 0x3001, &p, Some(0x0900_0000));
    assert!(matches!(r, Err(SubstrateError::HookFailed(_))));
}

#[test]
fn thumb_null_symbol_is_refused() {
    let r = hook_function_thumb(0, 0x3001, &thumb_nops(), None);
    assert!(matches!(r, Err(SubstrateError::NullPointer)));
}

#[test]
fn thumb_wide_push_is_not_mistaken_for_add() {
    // PUSH.W {r3-r7, r10, lr}: its second halfword matches the ADD rd, PC
    // mask, but it is not an instruction start
    let mut p = vec![0xe92du16, 0x44f8];
    p.resize(16, 0xbf00);
    let h = hook_function_thumb(0x0200_0000, 0x3001, &p, Some(0x0900_0000)).unwrap();
    assert_eq!(h.used, 12);
}
