//! Code generator for an obfuscated variant of the comparison routine.
//!
//! The generator emits x86-64 machine code implementing the same calling
//! contract as the baseline comparison, with the working registers drawn in a
//! randomized order so that successive compilations differ at the instruction
//! encoding level while the emission logic itself stays strategy-agnostic.
//! This module produces and specifies the code bytes; mapping them into an
//! executable buffer is the unverified front end's job.

use vstd::prelude::*;

use rand::seq::SliceRandom;

verus! {

/// ModRM byte of a register-to-register instruction: mode 11, `dst` in the
/// reg field, `src` in the r/m field.
pub open spec fn modrm(dst: u8, src: u8) -> u8 {
    0xC0u8 | (dst << 3u8) | src
}

/// Encoding of `mov dst, src` on 64-bit operands.
pub open spec fn mov_bytes(dst: u8, src: u8) -> Seq<u8> {
    seq![0x48u8, 0x8Bu8, modrm(dst, src)]
}

/// Encoding of `xor dst, src` on 64-bit operands.
pub open spec fn xor_bytes(dst: u8, src: u8) -> Seq<u8> {
    seq![0x48u8, 0x31u8, modrm(dst, src)]
}

/// Encoding of `or dst, src` on 64-bit operands.
pub open spec fn or_bytes(dst: u8, src: u8) -> Seq<u8> {
    seq![0x48u8, 0x09u8, modrm(dst, src)]
}

/// Encoding of the loop tail: `cmp rax, imm32` with the comparison length as
/// the little-endian immediate, then the short backward conditional jump to
/// the loop head, whose displacement octet is fixed by the 15-byte distance
/// from the loop head to the byte after the jump's opcode.
pub open spec fn cmp_jb_bytes(size: u32) -> Seq<u8> {
    seq![
        0x48u8,
        0x81u8,
        0xF8u8,
        (size & 0xFF) as u8,
        ((size >> 8u32) & 0xFF) as u8,
        ((size >> 16u32) & 0xFF) as u8,
        ((size >> 24u32) & 0xFF) as u8,
        0x72u8,
        0xF0u8,
    ]
}

/// The whole comparison body emitted for working registers `r0..r3` and
/// comparison length `size`: loop counter and accumulator setup, the
/// xor-accumulate loop body, counter increment, loop test, and return.
pub open spec fn ct_memcmp_code(r0: u8, r1: u8, r2: u8, r3: u8, size: u32) -> Seq<u8> {
    mov_bytes(r0, 0) + mov_bytes(r1, 1) + mov_bytes(r2, 0) + mov_bytes(r3, 1) + xor_bytes(r2, r3)
        + or_bytes(r1, r2) + mov_bytes(r0, (r0 + 1) as u8) + cmp_jb_bytes(size) + seq![0xC3u8]
}

/// Fixed prelude of the memory-tagging variant: loads the tagged base
/// address before the common comparison body.
pub open spec fn mte_prelude() -> Seq<u8> {
    seq![
        0xE8u8,
        0x07u8,
        0x00u8,
        0x58u8,
        0xE8u8,
        0x03u8,
        0x00u8,
        0x91u8,
        0x09u8,
        0x01u8,
        0x40u8,
        0xF9u8,
    ]
}

/// Relies on rand's `SliceRandom::shuffle`, a Fisher–Yates pass of in-place
/// swaps: the result holds exactly the elements it started from — here one
/// copy of each register index 0 through 3 — in an order drawn from the
/// thread-local generator.
#[verifier::external_body]
fn shuffled_registers() -> (regs: Vec<u8>)
    ensures
        regs@.len() == 4,
        forall|i: int| 0 <= i < 4 ==> regs@[i] < 4,
        forall|i: int, j: int| 0 <= i < j < 4 ==> regs@[i] != regs@[j],
{
    let mut regs: Vec<u8> = vec![0, 1, 2, 3];
    regs.shuffle(&mut rand::thread_rng());
    regs
}

/// Emits instruction bytes against a randomized register assignment.
pub struct CodeGenerator {
    /// The machine code emitted so far.
    pub buffer: Vec<u8>,
    /// The diversification strategy: a permutation of the four working
    /// register indices, fixing which architectural register plays which
    /// role in the emitted code.
    pub reg_map: Vec<u8>,
}

impl CodeGenerator {
    /// Well-formed: one register index per role, each a valid encodable
    /// register, no role sharing a register with another.
    pub open spec fn wf(self) -> bool {
        &&& self.reg_map@.len() == 4
        &&& forall|i: int| 0 <= i < 4 ==> self.reg_map@[i] < 4
        &&& forall|i: int, j: int| 0 <= i < j < 4 ==> self.reg_map@[i] != self.reg_map@[j]
    }

    /// A fresh generator with an empty buffer and a randomized register
    /// assignment.
    pub fn new() -> (g: Self)
        ensures
            g.wf(),
            g.buffer@ == Seq::<u8>::empty(),
    {
        let mut g = CodeGenerator { buffer: Vec::new(), reg_map: Vec::new() };
        g.randomize_registers();
        g
    }

    /// Draws a fresh register assignment; the emitted code is untouched.
    pub fn randomize_registers(&mut self)
        ensures
            final(self).wf(),
            final(self).buffer@ == old(self).buffer@,
    {
        self.reg_map = shuffled_registers();
    }

    /// Appends `mov dst, src`.
    pub fn emit_mov(&mut self, dst: u8, src: u8)
        requires
            dst < 8,
            src < 8,
        ensures
            final(self).buffer@ == old(self).buffer@ + mov_bytes(dst, src),
            final(self).reg_map@ == old(self).reg_map@,
    {
        self.buffer.push(0x48);
        self.buffer.push(0x8B);
        self.buffer.push(0xC0 | (dst << 3u8) | src);
        proof {
            assert(final(self).buffer@ =~= old(self).buffer@ + mov_bytes(dst, src));
        }
    }

    /// Appends `xor dst, src`.
    pub fn emit_xor(&mut self, dst: u8, src: u8)
        requires
            dst < 8,
            src < 8,
        ensures
            final(self).buffer@ == old(self).buffer@ + xor_bytes(dst, src),
            final(self).reg_map@ == old(self).reg_map@,
    {
        self.buffer.push(0x48);
        self.buffer.push(0x31);
        self.buffer.push(0xC0 | (dst << 3u8) | src);
        proof {
            assert(final(self).buffer@ =~= old(self).buffer@ + xor_bytes(dst, src));
        }
    }

    /// Appends `or dst, src`.
    pub fn emit_or(&mut self, dst: u8, src: u8)
        requires
            dst < 8,
            src < 8,
        ensures
            final(self).buffer@ == old(self).buffer@ + or_bytes(dst, src),
            final(self).reg_map@ == old(self).reg_map@,
    {
        self.buffer.push(0x48);
        self.buffer.push(0x09);
        self.buffer.push(0xC0 | (dst << 3u8) | src);
        proof {
            assert(final(self).buffer@ =~= old(self).buffer@ + or_bytes(dst, src));
        }
    }

    /// Appends the whole comparison body for length `size` under the current
    /// register assignment.
    pub fn generate_ct_memcmp(&mut self, size: usize)
        requires
            old(self).wf(),
            old(self).buffer@.len() <= 100,
        ensures
            final(self).wf(),
            final(self).reg_map@ == old(self).reg_map@,
            final(self).buffer@ == old(self).buffer@ + ct_memcmp_code(
                old(self).reg_map@[0],
                old(self).reg_map@[1],
                old(self).reg_map@[2],
                old(self).reg_map@[3],
                size as u32,
            ),
    {
        let r0 = self.reg_map[0];
        let r1 = self.reg_map[1];
        let r2 = self.reg_map[2];
        let r3 = self.reg_map[3];
        self.emit_mov(r0, 0);
        self.emit_mov(r1, 1);

        let loop_start = self.buffer.len();

        self.emit_mov(r2, 0);
        self.emit_mov(r3, 1);
        self.emit_xor(r2, r3);
        self.emit_or(r1, r2);
        self.emit_mov(r0, r0 + 1);

        let here = self.buffer.len();
        // two's-complement octet of the backward displacement from the byte
        // after the jump to the loop head
        let disp = (256 + loop_start - here - 1) as u8;
        let sz = size as u32;
        self.buffer.push(0x48);
        self.buffer.push(0x81);
        self.buffer.push(0xF8);
        self.buffer.push((sz & 0xFF) as u8);
        self.buffer.push(((sz >> 8u32) & 0xFF) as u8);
        self.buffer.push(((sz >> 16u32) & 0xFF) as u8);
        self.buffer.push(((sz >> 24u32) & 0xFF) as u8);
        self.buffer.push(0x72);
        self.buffer.push(disp);

        self.buffer.push(0xC3);
        proof {
            assert(final(self).buffer@ =~= old(self).buffer@ + ct_memcmp_code(
                old(self).reg_map@[0],
                old(self).reg_map@[1],
                old(self).reg_map@[2],
                old(self).reg_map@[3],
                size as u32,
            ));
        }
    }
}

/// Compiles the obfuscated comparison for length `size`: the emitted machine
/// code under some randomized assignment of the four working registers. The
/// front end maps these bytes into an executable buffer.
pub fn compile_ct_memcmp(size: usize) -> (code: Vec<u8>)
    ensures
        exists|r0: u8, r1: u8, r2: u8, r3: u8|
            {
                &&& r0 < 4 && r1 < 4 && r2 < 4 && r3 < 4
                &&& code@ == #[trigger] ct_memcmp_code(r0, r1, r2, r3, size as u32)
            },
        code@.len() == 31,
{
    let mut gen = CodeGenerator::new();
    gen.generate_ct_memcmp(size);
    proof {
        let m = gen.reg_map@;
        assert(gen.buffer@ == ct_memcmp_code(m[0], m[1], m[2], m[3], size as u32));
    }
    gen.buffer
}

/// Compiles the memory-tagging variant: the fixed tag-load prelude followed
/// by the common comparison body under some randomized register assignment.
pub fn generate_mte_memcmp(size: usize) -> (code: Vec<u8>)
    ensures
        exists|r0: u8, r1: u8, r2: u8, r3: u8|
            {
                &&& r0 < 4 && r1 < 4 && r2 < 4 && r3 < 4
                &&& code@ == mte_prelude() + #[trigger] ct_memcmp_code(r0, r1, r2, r3, size as u32)
            },
        code@.len() == 43,
{
    let mut gen = CodeGenerator::new();
    let prelude: [u8; 12] = [0xE8, 0x07, 0x00, 0x58, 0xE8, 0x03, 0x00, 0x91, 0x09, 0x01, 0x40, 0xF9];
    gen.buffer.extend_from_slice(&prelude);
    proof {
        assert(gen.buffer@ =~= mte_prelude());
    }
    gen.generate_ct_memcmp(size);
    proof {
        let m = gen.reg_map@;
        assert(gen.buffer@ == mte_prelude() + ct_memcmp_code(m[0], m[1], m[2], m[3], size as u32));
    }
    gen.buffer
}

} // verus!
