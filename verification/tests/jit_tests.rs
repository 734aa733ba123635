use memcopy::jit::compile_ct_memcmp;
use memcopy::jit::generate_mte_memcmp;
use memcopy::jit::CodeGenerator;

#[test]
fn test_emit_mov() {
    let mut gen = CodeGenerator::new();
    gen.emit_mov(0, 1);
    assert_eq!(gen.buffer, vec![0x48, 0x8B, 0xC1]);
    gen.emit_mov(3, 2);
    assert_eq!(&gen.buffer[3..], &[0x48, 0x8B, 0xDA]);
}

#[test]
fn test_emit_xor_and_or() {
    let mut gen = CodeGenerator::new();
    gen.emit_xor(2, 3);
    gen.emit_or(1, 2);
    assert_eq!(gen.buffer, vec![0x48, 0x31, 0xD3, 0x48, 0x09, 0xCA]);
}

#[test]
fn test_register_map_is_permutation() {
    for _ in 0..32 {
        let gen = CodeGenerator::new();
        let mut regs = gen.reg_map.clone();
        regs.sort();
        assert_eq!(regs, vec![0, 1, 2, 3]);
    }
}

#[test]
fn test_compile_ct_memcmp_shape() {
    let code = compile_ct_memcmp(64);
    assert_eq!(code.len(), 31);
    // seven three-byte register instructions, each REX.W-prefixed
    for k in 0..7 {
        assert_eq!(code[3 * k], 0x48);
    }
    // cmp rax, imm32 with the length as little-endian immediate
    assert_eq!(&code[21..24], &[0x48, 0x81, 0xF8]);
    assert_eq!(&code[24..28], &[64, 0, 0, 0]);
    // jb back to the loop head, then ret
    assert_eq!(code[28], 0x72);
    assert_eq!(code[29], 0xF0);
    assert_eq!(code[30], 0xC3);
}

#[test]
fn test_compile_length_immediate() {
    let code = compile_ct_memcmp(0x0102_0304);
    assert_eq!(&code[24..28], &[0x04, 0x03, 0x02, 0x01]);
}

#[test]
fn test_generate_mte_memcmp_shape() {
    let code = generate_mte_memcmp(64);
    assert_eq!(code.len(), 43);
    assert_eq!(
        &code[..12],
        &[0xE8, 0x07, 0x00, 0x58, 0xE8, 0x03, 0x00, 0x91, 0x09, 0x01, 0x40, 0xF9]
    );
    // the common comparison body follows the prelude
    assert_eq!(&code[33..36], &[0x48, 0x81, 0xF8]);
    assert_eq!(code[42], 0xC3);
}

#[test]
fn test_generate_with_fixed_registers() {
    let mut gen = CodeGenerator::new();
    gen.reg_map = vec![0, 1, 2, 3];
    gen.generate_ct_memcmp(4);
    assert_eq!(
        gen.buffer,
        vec![
            0x48, 0x8B, 0xC0, // mov r0, r0: counter setup
            0x48, 0x8B, 0xC9, // mov r1, r1: accumulator setup
            0x48, 0x8B, 0xD0, // mov r2, r0: load lhs byte
            0x48, 0x8B, 0xD9, // mov r3, r1: load rhs byte
            0x48, 0x31, 0xD3, // xor r2, r3
            0x48, 0x09, 0xCA, // or r1, r2
            0x48, 0x8B, 0xC1, // mov r0, r0 + 1: counter increment
            0x48, 0x81, 0xF8, 0x04, 0x00, 0x00, 0x00, // cmp rax, 4
            0x72, 0xF0, // jb loop head
            0xC3, // ret
        ]
    );
}

#[test]
fn test_diversified_codegen_same_shape() {
    // register diversification never changes opcodes, only ModRM operands
    let a = compile_ct_memcmp(16);
    let b = compile_ct_memcmp(16);
    assert_eq!(a.len(), b.len());
    for k in 0..7 {
        assert_eq!(a[3 * k], b[3 * k]);
        assert_eq!(a[3 * k + 1], b[3 * k + 1]);
        // ModRM always encodes mode 11
        assert_eq!(a[3 * k + 2] & 0xC0, 0xC0);
        assert_eq!(b[3 * k + 2] & 0xC0, 0xC0);
    }
    assert_eq!(&a[21..], &b[21..]);
}
