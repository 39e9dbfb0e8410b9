use substrate::arch::x86_64::empty_descriptor;
use substrate::disasm::arm_decoder::{
    get_arm_instruction_width, get_instruction_width, get_thumb_instruction_width,
    is_arm_pc_relative, is_thumb2_pc_relative_b, is_thumb_32bit, is_thumb_pc_relative_add,
    is_thumb_pc_relative_b, is_thumb_pc_relative_bl, is_thumb_pc_relative_cbz,
    is_thumb_pc_relative_ldr, is_thumb_pc_relative_ldrw,
};
use substrate::disasm::hde64::{hde64_disasm, F_ERROR, F_ERROR_LOCK, F_ERROR_OPCODE};

fn decode(bytes: &[u8]) -> (u32, substrate::disasm::hde64::Hde64s) {
    let mut code = bytes.to_vec();
    code.resize(64, 0);
    let mut hs = empty_descriptor();
    let len = hde64_disasm(&code, 0, &mut hs);
    (len, hs)
}

#[test]
fn one_byte_opcodes() {
    assert_eq!(decode(&[0x90]).0, 1); // nop
    assert_eq!(decode(&[0x55]).0, 1); // push rbp
    assert_eq!(decode(&[0xc3]).0, 1); // ret
}

#[test]
fn relative_branches() {
    let (len, hs) = decode(&[0xeb, 0x7f]);
    assert_eq!(len, 2);
    assert_eq!(hs.imm, 0x7f);

    let (len, hs) = decode(&[0x75, 0x05]);
    assert_eq!(len, 2);
    assert_eq!(hs.imm, 0x05);

    let (len, _) = decode(&[0xe3, 0x10]);
    assert_eq!(len, 2);
}

#[test]
fn near_jump_and_call() {
    let (len, hs) = decode(&[0xe9, 0xfb, 0x0f, 0x00, 0x00]);
    assert_eq!(len, 5);
    assert_eq!(hs.imm, 0x0ffb);

    let (len, hs) = decode(&[0xe8, 0x10, 0x00, 0x00, 0x00]);
    assert_eq!(len, 5);
    assert_eq!(hs.imm, 0x10);
}

#[test]
fn modrm_instructions() {
    let (len, hs) = decode(&[0x48, 0x8b, 0x05, 0x10, 0x00, 0x00, 0x00]);
    assert_eq!(len, 7);
    assert_eq!(hs.opcode, 0x8b);
    assert_eq!(hs.modrm, 0x05);
    assert_eq!(hs.modrm_reg, 0);
    assert_eq!(hs.disp, 0x10);

    let (len, hs) = decode(&[0x8b, 0x3d, 0x08, 0x00, 0x00, 0x00]);
    assert_eq!(len, 6);
    assert_eq!(hs.modrm, 0x3d);
    assert_eq!(hs.modrm_reg, 7);
    assert_eq!(hs.disp, 0x08);

    let (len, hs) = decode(&[0xff, 0x25, 0x10, 0x00, 0x00, 0x00]);
    assert_eq!(len, 6);
    assert_eq!(hs.modrm, 0x25);
    assert_eq!(hs.disp, 0x10);

    assert_eq!(decode(&[0x48, 0x89, 0xe5]).0, 3); // mov rbp, rsp
    assert_eq!(decode(&[0x48, 0x83, 0xec, 0x20]).0, 4); // sub rsp, 0x20
}

#[test]
fn prefixes_and_immediates() {
    assert_eq!(decode(&[0xf3, 0x90]).0, 2); // pause
    assert_eq!(decode(&[0x68, 0x78, 0x56, 0x34, 0x12]).0, 5); // push imm32
    let (len, hs) = decode(&[0x48, 0xb8, 1, 2, 3, 4, 5, 6, 7, 8]);
    assert_eq!(len, 10); // mov rax, imm64
    assert_eq!(hs.imm, 0x0807_0605_0403_0201);
    // far-patch store: C7 44 24 04 imm32
    assert_eq!(decode(&[0xc7, 0x44, 0x24, 0x04, 0x00, 0x50, 0x00, 0x00]).0, 8);
}

#[test]
fn arm_predicate() {
    assert!(is_arm_pc_relative(0xe59f_0004)); // LDR r0, [PC, #4]
    assert!(!is_arm_pc_relative(0xe590_0004)); // LDR r0, [r0, #4]
    assert!(!is_arm_pc_relative(0xf59f_0004)); // unconditional space
    assert!(!is_arm_pc_relative(0xe1a0_0000)); // MOV r0, r0
}

#[test]
fn thumb_predicates() {
    assert!(is_thumb_32bit(0xf000));
    assert!(is_thumb_32bit(0xe800));
    assert!(!is_thumb_32bit(0xe000)); // unconditional B (T16)
    assert!(!is_thumb_32bit(0xbf00));

    assert!(is_thumb_pc_relative_ldr(0x4801));
    assert!(!is_thumb_pc_relative_ldr(0x6800));

    assert!(is_thumb_pc_relative_b(0xd0fe)); // BEQ
    assert!(!is_thumb_pc_relative_b(0xdefe)); // UDF space
    assert!(!is_thumb_pc_relative_b(0xe000));

    assert!(is_thumb_pc_relative_cbz(0xb100));
    assert!(is_thumb_pc_relative_cbz(0xb900)); // CBNZ
    assert!(!is_thumb_pc_relative_cbz(0xbf00));

    assert!(is_thumb_pc_relative_add(0x4478)); // ADD r0, PC
    assert!(!is_thumb_pc_relative_add(0x4440));

    assert!(is_thumb_pc_relative_ldrw(0xf85f));
    assert!(!is_thumb_pc_relative_ldrw(0xf850));

    assert!(is_thumb2_pc_relative_b(&[0xf000, 0x8000]));
    assert!(is_thumb2_pc_relative_b(&[0xf43f, 0x9fff]));
    assert!(!is_thumb2_pc_relative_b(&[0xf000, 0xd000])); // that is a BL
    assert!(!is_thumb2_pc_relative_b(&[0xf000]));

    assert!(is_thumb_pc_relative_bl(&[0xf000, 0xd000]));
    assert!(is_thumb_pc_relative_bl(&[0xf000, 0xc000])); // BLX
    assert!(!is_thumb_pc_relative_bl(&[0xf000, 0x8000]));
    assert!(!is_thumb_pc_relative_bl(&[0xf000]));
}

#[test]
fn widths() {
    assert_eq!(get_thumb_instruction_width(0xf000), 4);
    assert_eq!(get_thumb_instruction_width(0xbf00), 2);
    assert_eq!(get_arm_instruction_width(0x1000), 4);
    assert_eq!(get_instruction_width(0x1000, 0xf000), 4);
    assert_eq!(get_instruction_width(0x1001, 0xf000), 4);
    assert_eq!(get_instruction_width(0x1001, 0xbf00), 2);
}

#[test]
fn error_classification() {
    // an unassigned opcode is flagged but still given a length
    let (len, hs) = decode(&[0x62, 0x00]);
    assert_eq!(len, 1);
    assert_eq!(hs.flags & (F_ERROR | F_ERROR_OPCODE), F_ERROR | F_ERROR_OPCODE);

    // LOCK on a register-form ADD is illegal
    let (len, hs) = decode(&[0xf0, 0x01, 0xc0]);
    assert_eq!(len, 3);
    assert_eq!(hs.flags & (F_ERROR | F_ERROR_LOCK), F_ERROR | F_ERROR_LOCK);

    // LOCK on the memory form is accepted
    let (_, hs) = decode(&[0xf0, 0x01, 0x00]);
    assert_eq!(hs.flags & F_ERROR, 0);
}
