use substrate::arch::x86_64::{
    hook_function_x86_64, is_32bit_offset, size_of_jump, size_of_jump_blind, size_of_pop,
    size_of_push_pointer, X86Trampoline,
};
use substrate::error::SubstrateError;

fn nop_prologue() -> Vec<u8> {
    vec![0x90u8; 64]
}

#[test]
fn near_patch_is_five_bytes_with_nop_fill() {
    // T and R a page apart: the near jump fits and the displaced
    // instructions are whole one-byte NOPs
    let h = hook_function_x86_64(0x7FFF_0000_1000, 0x7FFF_0000_2000, &nop_prologue(), None)
        .unwrap();
    assert_eq!(h.used, 5);
    assert_eq!(h.blank, 0);
    assert_eq!(h.patch, vec![0xe9, 0xfb, 0x0f, 0x00, 0x00]);
    assert!(h.trampoline.is_none());
}

#[test]
fn near_patch_pads_partial_instruction() {
    // push rbp; mov rbp, rsp; sub rsp, 0x20 — the third instruction
    // straddles the patch, so eight bytes are displaced
    let mut p = vec![0x55, 0x48, 0x89, 0xe5, 0x48, 0x83, 0xec, 0x20];
    p.resize(64, 0x90);
    let h = hook_function_x86_64(0x7FFF_0000_1000, 0x7FFF_0000_2000, &p, None).unwrap();
    assert_eq!(h.used, 8);
    assert_eq!(h.blank, 3);
    assert_eq!(h.patch, vec![0xe9, 0xfb, 0x0f, 0x00, 0x00, 0x90, 0x90, 0x90]);
}

#[test]
fn far_patch_is_push_and_return() {
    let h = hook_function_x86_64(0x7FFF_0000_1000, 0x5000_0000_2000, &nop_prologue(), None)
        .unwrap();
    assert_eq!(h.used, 14);
    assert_eq!(h.blank, 0);
    assert_eq!(
        h.patch,
        vec![0x68, 0x00, 0x20, 0x00, 0x00, 0xc7, 0x44, 0x24, 0x04, 0x00, 0x50, 0x00, 0x00, 0xc3]
    );
}

#[test]
fn far_patch_low_target_is_six_bytes() {
    // the displacement does not fit but the target has no high bits:
    // push imm32 and return
    let h = hook_function_x86_64(0x7FFF_0000_1000, 0x2000_3000, &nop_prologue(), None).unwrap();
    assert_eq!(h.used, 6);
    assert_eq!(h.patch, vec![0x68, 0x00, 0x30, 0x00, 0x20, 0xc3]);
}

#[test]
fn short_circuit_direct_jump() {
    let mut p = vec![0xe9, 0x10, 0x00, 0x00, 0x00];
    p.resize(64, 0x90);
    let h = hook_function_x86_64(
        0x7FFF_0000_1000,
        0x7FFF_0000_2000,
        &p,
        Some(0x7FFF_0000_5000),
    )
    .unwrap();
    assert_eq!(h.used, 4);
    assert!(h.patch.is_empty());
    match h.trampoline {
        Some(X86Trampoline::Direct(d)) => assert_eq!(d, 0x7FFF_0000_1000 + 5 + 0x10),
        _ => panic!("expected a direct destination"),
    }
}

#[test]
fn short_circuit_indirect_thunk() {
    let mut p = vec![0xff, 0x25, 0x08, 0x00, 0x00, 0x00];
    p.resize(64, 0x90);
    let h = hook_function_x86_64(
        0x7FFF_0000_1000,
        0x7FFF_0000_2000,
        &p,
        Some(0x7FFF_0000_5000),
    )
    .unwrap();
    assert_eq!(h.used, 6);
    assert!(h.patch.is_empty());
    match h.trampoline {
        Some(X86Trampoline::IndirectSlot(s)) => assert_eq!(s, 0x7FFF_0000_1000 + 6 + 8),
        _ => panic!("expected an indirect slot"),
    }
}

#[test]
fn rip_relative_load_is_relocated() {
    // mov rax, [rip+0x10]: the trampoline pushes the absolute source
    // address, pops it into rax, and loads through it
    let mut p = vec![0x48, 0x8b, 0x05, 0x10, 0x00, 0x00, 0x00];
    p.resize(64, 0x90);
    let h = hook_function_x86_64(
        0x7FFF_0000_1000,
        0x7FFF_0000_2000,
        &p,
        Some(0x7FFF_0000_5000),
    )
    .unwrap();
    assert_eq!(h.used, 7);
    let tramp = match h.trampoline {
        Some(X86Trampoline::Built(b)) => b,
        _ => panic!("expected a built trampoline"),
    };
    // push 0x7FFF00001017 (= next ip + disp), pop rax, mov rax, [rax],
    // then a near jump back to source + 7
    let expected = vec![
        0x68, 0x17, 0x10, 0x00, 0x00, 0xc7, 0x44, 0x24, 0x04, 0xff, 0x7f, 0x00, 0x00, 0x58, 0x48,
        0x8b, 0x00, 0xe9, 0xf1, 0xbf, 0xff, 0xff,
    ];
    assert_eq!(tramp, expected);
}

#[test]
fn verbatim_instructions_are_copied() {
    let mut p = vec![0x55, 0x48, 0x89, 0xe5, 0x48, 0x83, 0xec, 0x20];
    p.resize(64, 0x90);
    let h = hook_function_x86_64(
        0x7FFF_0000_1000,
        0x7FFF_0000_2000,
        &p,
        Some(0x7FFF_0000_5000),
    )
    .unwrap();
    let tramp = match h.trampoline {
        Some(X86Trampoline::Built(b)) => b,
        _ => panic!("expected a built trampoline"),
    };
    // the three displaced instructions verbatim, then a jump to source+8:
    // rel32 = 0x7FFF00001008 - (0x7FFF00005008 + 5) = -0x4005
    assert_eq!(
        tramp,
        vec![
            0x55, 0x48, 0x89, 0xe5, 0x48, 0x83, 0xec, 0x20, 0xe9, 0xfb, 0xbf, 0xff, 0xff
        ]
    );
}

#[test]
fn null_source_is_refused() {
    let r = hook_function_x86_64(0, 0x7FFF_0000_2000, &nop_prologue(), None);
    assert!(matches!(r, Err(SubstrateError::NullPointer)));
}

#[test]
fn reachability_helpers() {
    assert!(is_32bit_offset(0x7FFF_0000_2000, 0x7FFF_0000_1000));
    assert!(!is_32bit_offset(0x5000_0000_2000, 0x7FFF_0000_1000));
    assert_eq!(size_of_push_pointer(0x1000), 5);
    assert_eq!(size_of_push_pointer(0x5000_0000_2000), 13);
    assert_eq!(size_of_jump_blind(0x1000), 6);
    assert_eq!(size_of_jump_blind(0x5000_0000_2000), 14);
    assert_eq!(size_of_jump(0x7FFF_0000_2000, 0x7FFF_0000_1000), 5);
    assert_eq!(size_of_jump(0x5000_0000_2000, 0x7FFF_0000_1000), 14);
    assert_eq!(size_of_pop(0), 1);
    assert_eq!(size_of_pop(8), 2);
}

#[test]
fn low_address_targets_are_supported() {
    // non-PIE text: a hook at 0x40_0000 reaching nearby code
    let h = hook_function_x86_64(0x40_0000, 0x41_0000, &nop_prologue(), None).unwrap();
    assert_eq!(h.used, 5);
    assert_eq!(h.patch, vec![0xe9, 0xfb, 0xff, 0x00, 0x00]);

    // and reaching far above 4 GiB
    let h = hook_function_x86_64(0x40_0000, 0x5000_0000_2000, &nop_prologue(), None).unwrap();
    assert_eq!(h.used, 14);
}

#[test]
fn short_circuit_backward_jump_is_sign_extended() {
    // E9 with displacement -0x100: the destination lies before the hook
    let mut p = vec![0xe9, 0x00, 0xff, 0xff, 0xff];
    p.resize(64, 0x90);
    let h = hook_function_x86_64(
        0x7FFF_0000_1000,
        0x7FFF_0000_2000,
        &p,
        Some(0x7FFF_0000_5000),
    )
    .unwrap();
    match h.trampoline {
        Some(X86Trampoline::Direct(d)) => assert_eq!(d, 0x7FFF_0000_1000 + 5 - 0x100),
        _ => panic!("expected a direct destination"),
    }
}
