use vstd::prelude::*;
use crate::bus::Bus;
use crate::decode::{
    CpuError, R16, R16Stk, R8, condition_holds, stk_value, with_stk, dec16, inc16, pair_value, r8_value, with_pair, with_r8,
};
use crate::registers::{
    Cpu, Flag, flag_of, flags_only, hi, high_byte, join, lemma_join_parts, lemma_split_join, lo, low_byte,
    make_word,
};

verus! {

/// What one step does when it completes: the new register file, the bytes
/// stored on the bus, in order, and the cycles spent; or why it failed.
pub type StepOutcome = Result<(Cpu, Seq<(u16, u8)>, u8), CpuError>;

/// Cycles that a step costs while the CPU is halted.
pub const HALT_IDLE_CYCLES: u8 = 1;

/// A non-negative value reduced to 16 bits.
pub open spec fn wrap16(v: int) -> u16 {
    (v % 0x10000) as u16
}

/// The F byte made of the four flags.
pub open spec fn flag_byte(z: bool, n: bool, h: bool, c: bool) -> u8 {
    ((if z { 128int } else { 0 }) + (if n { 64int } else { 0 }) + (if h { 32int } else { 0 }) + (if c {
        16int
    } else {
        0
    })) as u8
}

/// The byte after the opcode.
pub open spec fn imm8(cpu: Cpu, bus: Bus) -> u8 {
    bus.byte_at(wrap16(cpu.pc + 1) as int)
}

/// The little-endian word after the opcode.
pub open spec fn imm16(cpu: Cpu, bus: Bus) -> u16 {
    join(bus.byte_at(wrap16(cpu.pc + 2) as int), imm8(cpu, bus))
}

/// Reads the little-endian word at `address`.
fn read_word(bus: &mut Bus, address: u16) -> (r: Result<u16, CpuError>)
    requires
        old(bus).wf(),
    ensures
        *final(bus) == *old(bus),
        r == Ok::<u16, CpuError>(join(old(bus).byte_at(wrap16(address + 1) as int), old(bus).byte_at(address as int))),
{
    let l = fetch(bus, address)?;
    let h = fetch(bus, pc_plus(address, 1))?;
    Ok(make_word(h, l))
}

/// Target of a relative jump: the signed offset `e` counts from the end of
/// the two-byte instruction.
pub open spec fn rel_target(pc: u16, e: u8) -> u16 {
    if e < 128 {
        wrap16(pc + 2 + e)
    } else {
        wrap16(pc + 2 + e + 0xFF00)
    }
}

/// The eight accumulator operations ADD, ADC, SUB, SBC, AND, XOR, OR, CP on
/// `a` and `b`: the new A and the new F.
#[verifier::opaque]
pub open spec fn alu(op: u8, a: u8, b: u8, carry: bool) -> (u8, u8) {
    let c: int = if carry { 1 } else { 0 };
    if op == 0 {
        let r = ((a + b) % 256) as u8;
        (r, flag_byte(r == 0, false, a % 16 + b % 16 > 15, a + b > 255))
    } else if op == 1 {
        let r = ((a + b + c) % 256) as u8;
        (r, flag_byte(r == 0, false, a % 16 + b % 16 + c > 15, a + b + c > 255))
    } else if op == 2 || op == 7 {
        let r = ((a + 256 - b) % 256) as u8;
        (if op == 2 { r } else { a }, flag_byte(r == 0, true, a % 16 < b % 16, a < b))
    } else if op == 3 {
        let r = ((a + 512 - b - c) % 256) as u8;
        (r, flag_byte(r == 0, true, a % 16 < b % 16 + c, a < b + c))
    } else if op == 4 {
        let r = a & b;
        (r, flag_byte(r == 0, false, true, false))
    } else if op == 5 {
        let r = a ^ b;
        (r, flag_byte(r == 0, false, false, false))
    } else {
        let r = a | b;
        (r, flag_byte(r == 0, false, false, false))
    }
}

/// The CPU with its program counter moved.
pub open spec fn at_pc(cpu: Cpu, pc: u16) -> Cpu {
    Cpu { pc, ..cpu }
}

/// A byte stored at HL when the operand is `[HL]`.
pub open spec fn hl_store(cpu: Cpu, r: u8, v: u8) -> Seq<(u16, u8)> {
    if r == 6 {
        seq![(cpu.hl, v)]
    } else {
        Seq::empty()
    }
}

/// The eight shifts and rotations of the prefixed table (RLC, RRC, RL, RR,
/// SLA, SRA, SWAP, SRL) on `v`: the result and the bit shifted out into C.
pub open spec fn shift_op(op: u8, v: u8, carry: bool) -> (u8, bool) {
    let c: int = if carry { 1 } else { 0 };
    if op == 0 {
        (((v * 2) % 256 + v / 128) as u8, v >= 128)
    } else if op == 1 {
        ((v / 2 + (v % 2) * 128) as u8, v % 2 == 1)
    } else if op == 2 {
        (((v * 2) % 256 + c) as u8, v >= 128)
    } else if op == 3 {
        ((v / 2 + c * 128) as u8, v % 2 == 1)
    } else if op == 4 {
        (((v * 2) % 256) as u8, v >= 128)
    } else if op == 5 {
        ((v / 2 + (v / 128) * 128) as u8, v % 2 == 1)
    } else if op == 6 {
        (((v % 16) * 16 + v / 16) as u8, false)
    } else {
        ((v / 2) as u8, v % 2 == 1)
    }
}

/// RLCA, RRCA, RLA and RRA: rotations of A that clear Z, N and H.
#[verifier::opaque]
pub open spec fn rotate_a(cpu: Cpu, op: u8) -> StepOutcome {
    let res = shift_op((op / 8) % 8, hi(cpu.af), flag_of(cpu.af, Flag::Carry));
    Ok((at_pc(Cpu { af: join(res.0, flag_byte(false, false, false, res.1)), ..cpu }, wrap16(cpu.pc + 1)), Seq::empty(), 1))
}

/// DAA: decimal adjustment of A after a BCD addition or subtraction.
#[verifier::opaque]
pub open spec fn daa(cpu: Cpu) -> StepOutcome {
    let a = hi(cpu.af);
    let n = flag_of(cpu.af, Flag::Subtraction);
    let h = flag_of(cpu.af, Flag::HalfCarry);
    let c = flag_of(cpu.af, Flag::Carry);
    let hi_adj: int = if (!n && (c || a > 0x99)) || (n && c) { 0x60 } else { 0 };
    let lo_adj: int = if (!n && (h || a % 16 > 9)) || (n && h) { 6 } else { 0 };
    let r = if n { ((a + 256 - hi_adj - lo_adj) % 256) as u8 } else { ((a + hi_adj + lo_adj) % 256) as u8 };
    let c2 = if n { c } else { hi_adj == 0x60 };
    Ok((at_pc(Cpu { af: join(r, flag_byte(r == 0, n, false, c2)), ..cpu }, wrap16(cpu.pc + 1)), Seq::empty(), 1))
}

/// ADD HL, r16: Z is kept, H and C come from bits 11 and 15.
#[verifier::opaque]
pub open spec fn add_hl(cpu: Cpu, op: u8) -> StepOutcome {
    let v = pair_value(cpu, R16::of(((op / 8) % 8) / 2));
    let h = cpu.hl;
    let f = flag_byte(flag_of(cpu.af, Flag::Zero), false, h % 4096 + v % 4096 > 4095, h + v > 65535);
    Ok((at_pc(Cpu { hl: wrap16(h + v), af: join(hi(cpu.af), f), ..cpu }, wrap16(cpu.pc + 1)), Seq::empty(), 2))
}

/// LD [n16], SP: SP's low byte, then its high byte.
#[verifier::opaque]
pub open spec fn store_sp(cpu: Cpu, bus: Bus) -> StepOutcome {
    let a = imm16(cpu, bus);
    Ok((at_pc(cpu, wrap16(cpu.pc + 3)), seq![(a, lo(cpu.sp)), (wrap16(a + 1), hi(cpu.sp))], 5))
}

/// ADD SP, e8 and LD HL, SP+e8: the signed byte is added to SP; H and C
/// come from the unsigned addition of the low byte.
#[verifier::opaque]
pub open spec fn sp_offset(cpu: Cpu, bus: Bus, op: u8) -> StepOutcome {
    let e = imm8(cpu, bus);
    let sum = if e < 128 { wrap16(cpu.sp + e) } else { wrap16(cpu.sp + e + 0xFF00) };
    let f = flag_byte(false, false, cpu.sp % 16 + e % 16 > 15, cpu.sp % 256 + e > 255);
    let flagged = Cpu { af: join(hi(cpu.af), f), ..cpu };
    if op == 0xE8 {
        Ok((at_pc(Cpu { sp: sum, ..flagged }, wrap16(cpu.pc + 2)), Seq::empty(), 4))
    } else {
        Ok((at_pc(Cpu { hl: sum, ..flagged }, wrap16(cpu.pc + 2)), Seq::empty(), 3))
    }
}

/// The prefixed table (opcode 0xCB, then a second byte): shifts and
/// rotations, BIT, RES and SET on an 8-bit operand.
#[verifier::opaque]
pub open spec fn prefixed(cpu: Cpu, bus: Bus) -> StepOutcome {
    let cb = imm8(cpu, bus);
    let x = cb / 64;
    let y = (cb / 8) % 8;
    let z = cb % 8;
    let v = r8_value(cpu, bus, R8::of(z));
    let cf = flag_of(cpu.af, Flag::Carry);
    let pc2 = wrap16(cpu.pc + 2);
    if x == 1 {
        let f = flag_byte((v >> y) & 1 == 0, false, true, cf);
        Ok((at_pc(Cpu { af: join(hi(cpu.af), f), ..cpu }, pc2), Seq::empty(), if z == 6 { 3 } else { 2 }))
    } else {
        let sh = shift_op(y, v, cf);
        let r = if x == 0 { sh.0 } else if x == 2 { v & !(1u8 << y) } else { v | (1u8 << y) };
        let base = if x == 0 { Cpu { af: join(hi(cpu.af), flag_byte(r == 0, false, false, sh.1)), ..cpu } } else { cpu };
        Ok((at_pc(with_r8(base, R8::of(z), r), pc2), hl_store(cpu, z, r), if z == 6 { 4 } else { 2 }))
    }
}

/// Opcodes 0x00 to 0x3F with low three bits 0: NOP, LD [n16], SP, STOP and
/// the relative jumps.
pub open spec fn block0_control(cpu: Cpu, bus: Bus, op: u8) -> StepOutcome {
    let y = (op / 8) % 8;
    let pc2 = wrap16(cpu.pc + 2);
    if y == 0 {
        Ok((at_pc(cpu, wrap16(cpu.pc + 1)), Seq::empty(), 1))
    } else if y == 1 {
        store_sp(cpu, bus)
    } else if y == 2 {
        Ok((Cpu { pc: pc2, halted: true, ..cpu }, Seq::empty(), 1))
    } else if y == 3 {
        Ok((at_pc(cpu, rel_target(cpu.pc, imm8(cpu, bus))), Seq::empty(), 3))
    } else {
        if condition_holds(cpu.af, (y - 4) as u8) {
            Ok((at_pc(cpu, rel_target(cpu.pc, imm8(cpu, bus))), Seq::empty(), 3))
        } else {
            Ok((at_pc(cpu, pc2), Seq::empty(), 2))
        }
    }
}

/// LD r16, n16 and ADD HL, r16.
pub open spec fn load16(cpu: Cpu, bus: Bus, op: u8) -> StepOutcome {
    let y = (op / 8) % 8;
    if y % 2 == 0 {
        Ok((with_pair(at_pc(cpu, wrap16(cpu.pc + 3)), R16::of(y / 2), imm16(cpu, bus)), Seq::empty(), 3))
    } else {
        add_hl(cpu, op)
    }
}

/// LD [r16mem], A and LD A, [r16mem].
pub open spec fn load_indirect(cpu: Cpu, bus: Bus, op: u8) -> StepOutcome {
    let y = (op / 8) % 8;
    let p = y / 2;
    let pc1 = wrap16(cpu.pc + 1);
    let addr = if p == 0 { cpu.bc } else if p == 1 { cpu.de } else { cpu.hl };
    let moved = if p == 2 {
        Cpu { hl: inc16(cpu.hl), ..cpu }
    } else if p == 3 {
        Cpu { hl: dec16(cpu.hl), ..cpu }
    } else {
        cpu
    };
    if y % 2 == 0 {
        Ok((at_pc(moved, pc1), seq![(addr, hi(cpu.af))], 2))
    } else {
        Ok((at_pc(with_r8(moved, R8::A, bus.byte_at(addr as int)), pc1), Seq::empty(), 2))
    }
}

/// INC r16 and DEC r16.
pub open spec fn step16(cpu: Cpu, op: u8) -> StepOutcome {
    let y = (op / 8) % 8;
    let v = pair_value(cpu, R16::of(y / 2));
    Ok((at_pc(with_pair(cpu, R16::of(y / 2), if y % 2 == 0 { inc16(v) } else { dec16(v) }), wrap16(cpu.pc + 1)), Seq::empty(), 2))
}

/// Opcodes 0x00 to 0x3F with low three bits 1, 2 or 3: the 16-bit loads,
/// the loads through an addressing pair, and the 16-bit increments.
pub open spec fn block0_pairs(cpu: Cpu, bus: Bus, op: u8) -> StepOutcome {
    let z = op % 8;
    if z == 1 {
        load16(cpu, bus, op)
    } else if z == 2 {
        load_indirect(cpu, bus, op)
    } else {
        step16(cpu, op)
    }
}

/// INC r8 and DEC r8: Z, N and H follow the result, C is kept.
pub open spec fn step8(cpu: Cpu, bus: Bus, op: u8) -> StepOutcome {
    let y = (op / 8) % 8;
    let z = op % 8;
    let v = r8_value(cpu, bus, R8::of(y));
    let r = if z == 4 { ((v + 1) % 256) as u8 } else { ((v + 255) % 256) as u8 };
    let f = if z == 4 {
        flag_byte(r == 0, false, v % 16 == 15, flag_of(cpu.af, Flag::Carry))
    } else {
        flag_byte(r == 0, true, v % 16 == 0, flag_of(cpu.af, Flag::Carry))
    };
    let flagged = Cpu { af: join(hi(cpu.af), f), ..cpu };
    Ok((at_pc(with_r8(flagged, R8::of(y), r), wrap16(cpu.pc + 1)), hl_store(cpu, y, r), if y == 6 { 3 } else { 1 }))
}

/// LD r8, n8.
pub open spec fn load8(cpu: Cpu, bus: Bus, op: u8) -> StepOutcome {
    let y = (op / 8) % 8;
    let v = imm8(cpu, bus);
    Ok((at_pc(with_r8(cpu, R8::of(y), v), wrap16(cpu.pc + 2)), hl_store(cpu, y, v), if y == 6 { 3 } else { 2 }))
}

/// Opcodes 0x00 to 0x3F with low three bits 4, 5 or 6: the 8-bit
/// increments and decrements, and the loads of an immediate byte.
pub open spec fn block0_bytes(cpu: Cpu, bus: Bus, op: u8) -> StepOutcome {
    if op % 8 == 6 {
        load8(cpu, bus, op)
    } else {
        step8(cpu, bus, op)
    }
}

/// Opcodes 0x00 to 0x3F with low three bits 7: the rotations of A, DAA,
/// CPL, SCF and CCF.
pub open spec fn block0_flags(cpu: Cpu, op: u8) -> StepOutcome {
    let y = (op / 8) % 8;
    let a = hi(cpu.af);
    let zf = flag_of(cpu.af, Flag::Zero);
    let cf = flag_of(cpu.af, Flag::Carry);
    let pc1 = wrap16(cpu.pc + 1);
    if y < 4 {
        rotate_a(cpu, op)
    } else if y == 4 {
        daa(cpu)
    } else if y == 5 {
        Ok((at_pc(Cpu { af: join(!a, flag_byte(zf, true, true, cf)), ..cpu }, pc1), Seq::empty(), 1))
    } else if y == 6 {
        Ok((at_pc(Cpu { af: join(a, flag_byte(zf, false, false, true)), ..cpu }, pc1), Seq::empty(), 1))
    } else {
        Ok((at_pc(Cpu { af: join(a, flag_byte(zf, false, false, !cf)), ..cpu }, pc1), Seq::empty(), 1))
    }
}

/// Opcodes 0x00 to 0x3F.
pub open spec fn block0(cpu: Cpu, bus: Bus, op: u8) -> StepOutcome {
    let z = op % 8;
    if z == 0 {
        block0_control(cpu, bus, op)
    } else if z <= 3 {
        block0_pairs(cpu, bus, op)
    } else if z <= 6 {
        block0_bytes(cpu, bus, op)
    } else {
        block0_flags(cpu, op)
    }
}

/// Opcodes 0x40 to 0x7F: HALT and the register-to-register loads.
pub open spec fn block1(cpu: Cpu, bus: Bus, op: u8) -> StepOutcome {
    let y = (op / 8) % 8;
    let z = op % 8;
    let pc1 = wrap16(cpu.pc + 1);
    if y == 6 && z == 6 {
        Ok((Cpu { pc: pc1, halted: true, ..cpu }, Seq::empty(), 1))
    } else {
        let v = r8_value(cpu, bus, R8::of(z));
        Ok((at_pc(with_r8(cpu, R8::of(y), v), pc1), hl_store(cpu, y, v), if y == 6 || z == 6 { 2 } else { 1 }))
    }
}

/// Opcodes 0x80 to 0xBF: the accumulator operations on an 8-bit operand.
pub open spec fn block2(cpu: Cpu, bus: Bus, op: u8) -> StepOutcome {
    let y = (op / 8) % 8;
    let z = op % 8;
    let v = r8_value(cpu, bus, R8::of(z));
    let res = alu(y, hi(cpu.af), v, flag_of(cpu.af, Flag::Carry));
    Ok((at_pc(Cpu { af: join(res.0, res.1), ..cpu }, wrap16(cpu.pc + 1)), Seq::empty(), if z == 6 { 2 } else { 1 }))
}

/// The absolute jumps: JP n16, JP cc n16 and JP HL.
pub open spec fn block3_jumps(cpu: Cpu, bus: Bus, op: u8) -> StepOutcome {
    let y = (op / 8) % 8;
    if op == 0xC3 {
        Ok((at_pc(cpu, imm16(cpu, bus)), Seq::empty(), 4))
    } else if op == 0xE9 {
        Ok((at_pc(cpu, cpu.hl), Seq::empty(), 1))
    } else if condition_holds(cpu.af, y) {
        Ok((at_pc(cpu, imm16(cpu, bus)), Seq::empty(), 4))
    } else {
        Ok((at_pc(cpu, wrap16(cpu.pc + 3)), Seq::empty(), 3))
    }
}

/// The little-endian word at the top of the stack.
pub open spec fn top_word(cpu: Cpu, bus: Bus) -> u16 {
    join(bus.byte_at(wrap16(cpu.sp + 1) as int), bus.byte_at(cpu.sp as int))
}

/// The two stores that push a word below `sp`: high byte first.
pub open spec fn push_stores(sp: u16, v: u16) -> Seq<(u16, u8)> {
    seq![(wrap16(sp + 0xFFFF), hi(v)), (wrap16(sp + 0xFFFE), lo(v))]
}

/// RET cc, RET and RETI.
#[verifier::opaque]
pub open spec fn return_forms(cpu: Cpu, bus: Bus, op: u8) -> StepOutcome {
    let popped = Cpu { pc: top_word(cpu, bus), sp: wrap16(cpu.sp + 2), ..cpu };
    if op == 0xC9 {
        Ok((popped, Seq::empty(), 4))
    } else if op == 0xD9 {
        Ok((Cpu { ime: true, ..popped }, Seq::empty(), 4))
    } else if condition_holds(cpu.af, (op / 8) % 8) {
        Ok((popped, Seq::empty(), 5))
    } else {
        Ok((at_pc(cpu, wrap16(cpu.pc + 1)), Seq::empty(), 2))
    }
}

/// POP r16stk.
#[verifier::opaque]
pub open spec fn pop(cpu: Cpu, bus: Bus, op: u8) -> StepOutcome {
    let moved = Cpu { sp: wrap16(cpu.sp + 2), pc: wrap16(cpu.pc + 1), ..cpu };
    Ok((with_stk(moved, R16Stk::of(((op / 8) % 8) / 2), top_word(cpu, bus)), Seq::empty(), 3))
}

/// PUSH r16stk.
#[verifier::opaque]
pub open spec fn push(cpu: Cpu, op: u8) -> StepOutcome {
    let v = stk_value(cpu, R16Stk::of(((op / 8) % 8) / 2));
    Ok((Cpu { sp: wrap16(cpu.sp + 0xFFFE), pc: wrap16(cpu.pc + 1), ..cpu }, push_stores(cpu.sp, v), 4))
}

/// CALL n16, CALL cc n16 and RST: push the return address and jump.
#[verifier::opaque]
pub open spec fn calls(cpu: Cpu, bus: Bus, op: u8) -> StepOutcome {
    let y = (op / 8) % 8;
    let sp2 = wrap16(cpu.sp + 0xFFFE);
    if op % 8 == 7 {
        Ok((Cpu { sp: sp2, pc: (y * 8) as u16, ..cpu }, push_stores(cpu.sp, wrap16(cpu.pc + 1)), 4))
    } else if op == 0xCD || condition_holds(cpu.af, y) {
        Ok((Cpu { sp: sp2, pc: imm16(cpu, bus), ..cpu }, push_stores(cpu.sp, wrap16(cpu.pc + 3)), 6))
    } else {
        Ok((at_pc(cpu, wrap16(cpu.pc + 3)), Seq::empty(), 3))
    }
}

/// The loads between A and the high page or an absolute address, and LD SP, HL.
#[verifier::opaque]
pub open spec fn far_loads(cpu: Cpu, bus: Bus, op: u8) -> StepOutcome {
    let a = hi(cpu.af);
    let high = (0xFF00 + imm8(cpu, bus)) as u16;
    let via_c = (0xFF00 + lo(cpu.bc)) as u16;
    if op == 0xE0 {
        Ok((at_pc(cpu, wrap16(cpu.pc + 2)), seq![(high, a)], 3))
    } else if op == 0xF0 {
        Ok((at_pc(with_r8(cpu, R8::A, bus.byte_at(high as int)), wrap16(cpu.pc + 2)), Seq::empty(), 3))
    } else if op == 0xE2 {
        Ok((at_pc(cpu, wrap16(cpu.pc + 1)), seq![(via_c, a)], 2))
    } else if op == 0xF2 {
        Ok((at_pc(with_r8(cpu, R8::A, bus.byte_at(via_c as int)), wrap16(cpu.pc + 1)), Seq::empty(), 2))
    } else if op == 0xEA {
        Ok((at_pc(cpu, wrap16(cpu.pc + 3)), seq![(imm16(cpu, bus), a)], 4))
    } else if op == 0xFA {
        Ok((at_pc(with_r8(cpu, R8::A, bus.byte_at(imm16(cpu, bus) as int)), wrap16(cpu.pc + 3)), Seq::empty(), 4))
    } else {
        Ok((at_pc(Cpu { sp: cpu.hl, ..cpu }, wrap16(cpu.pc + 1)), Seq::empty(), 2))
    }
}

/// Whether an opcode of 0xC0 to 0xFF is one of the return forms.
pub open spec fn is_return(op: u8) -> bool {
    (op % 8 == 0 && (op / 8) % 8 < 4) || op == 0xC9 || op == 0xD9
}

/// Whether an opcode of 0xC0 to 0xFF is one of the call forms or RST.
pub open spec fn is_call(op: u8) -> bool {
    (op % 8 == 4 && (op / 8) % 8 < 4) || op == 0xCD || op % 8 == 7
}

/// Whether an opcode of 0xC0 to 0xFF is one of the far loads.
pub open spec fn is_far_load(op: u8) -> bool {
    op == 0xE0 || op == 0xF0 || op == 0xE2 || op == 0xF2 || op == 0xEA || op == 0xFA || op == 0xF9
}

/// Opcodes 0xC0 to 0xFF: the accumulator
/// operations on an immediate byte, the jumps, calls and returns, the stack
/// forms, the far loads, the SP offsets, the prefixed table, DI and EI. The
/// eleven opcodes that the processor does not define are refused.
pub open spec fn block3(cpu: Cpu, bus: Bus, op: u8) -> StepOutcome {
    let y = (op / 8) % 8;
    let z = op % 8;
    let pc1 = wrap16(cpu.pc + 1);
    if z == 6 {
        let res = alu(y, hi(cpu.af), imm8(cpu, bus), flag_of(cpu.af, Flag::Carry));
        Ok((at_pc(Cpu { af: join(res.0, res.1), ..cpu }, wrap16(cpu.pc + 2)), Seq::empty(), 2))
    } else if op == 0xC3 || op == 0xE9 || (z == 2 && y < 4) {
        block3_jumps(cpu, bus, op)
    } else if is_return(op) {
        return_forms(cpu, bus, op)
    } else if is_call(op) {
        calls(cpu, bus, op)
    } else if z == 1 && y % 2 == 0 {
        pop(cpu, bus, op)
    } else if z == 5 && y % 2 == 0 {
        push(cpu, op)
    } else if is_far_load(op) {
        far_loads(cpu, bus, op)
    } else if op == 0xE8 || op == 0xF8 {
        sp_offset(cpu, bus, op)
    } else if op == 0xCB {
        prefixed(cpu, bus)
    } else if op == 0xF3 {
        Ok((Cpu { pc: pc1, ime: false, ..cpu }, Seq::empty(), 1))
    } else if op == 0xFB {
        Ok((Cpu { pc: pc1, ime: true, ..cpu }, Seq::empty(), 1))
    } else {
        Err(CpuError::IllegalOpcode(op))
    }
}

/// One step of the engine. While halted it idles, or wakes when an interrupt
/// is pending; otherwise it runs the instruction at PC.
pub open spec fn step_spec(cpu: Cpu, bus: Bus) -> StepOutcome {
    if cpu.halted {
        if cpu.interrupt_pending {
            Ok((Cpu { halted: false, interrupt_pending: false, ..cpu }, Seq::empty(), HALT_IDLE_CYCLES))
        } else {
            Ok((cpu, Seq::empty(), HALT_IDLE_CYCLES))
        }
    } else {
        let op = bus.byte_at(cpu.pc as int);
        if op < 0x40 {
            block0(cpu, bus, op)
        } else if op < 0x80 {
            block1(cpu, bus, op)
        } else if op < 0xC0 {
            block2(cpu, bus, op)
        } else {
            block3(cpu, bus, op)
        }
    }
}

/// The bus after the stores of a step, made in order (a step makes at most two).
pub open spec fn stored(b0: Bus, b1: Bus, st: Seq<(u16, u8)>) -> bool {
    if st.len() == 0 {
        b1 == b0
    } else if st.len() == 1 {
        b0.written(b1, st[0].0 as int, st[0].1)
    } else {
        st.len() == 2 && exists|mid: Bus| b0.written(mid, st[0].0 as int, st[0].1) && #[trigger] mid.written(b1, st[1].0 as int, st[1].1)
    }
}

/// The states before and after a step agree with its outcome: on success the
/// new registers, the stores in order and the cycle count; on failure
/// nothing changed.
pub open spec fn follows(c0: Cpu, b0: Bus, c1: Cpu, b1: Bus, r: Result<u8, CpuError>, s: StepOutcome) -> bool {
    match s {
        Ok(t) => r == Ok::<u8, CpuError>(t.2) && c1 == t.0 && stored(b0, b1, t.1),
        Err(e) => r == Err::<u8, CpuError>(e) && c1 == c0 && b1 == b0,
    }
}

/// The four flags as an F byte.
pub fn make_flags(z: bool, n: bool, h: bool, c: bool) -> (r: u8)
    ensures
        r == flag_byte(z, n, h, c),
        r % 16 == 0,
{
    let mut f: u8 = 0;
    if z {
        f = f + 128;
    }
    if n {
        f = f + 64;
    }
    if h {
        f = f + 32;
    }
    if c {
        f = f + 16;
    }
    f
}

/// Runs one of the eight accumulator operations.
pub fn run_alu(op: u8, a: u8, b: u8, carry: bool) -> (r: (u8, u8))
    requires
        op < 8,
    ensures
        r == alu(op, a, b, carry),
        r.1 % 16 == 0,
{
    reveal(alu);
    let c: u8 = if carry { 1 } else { 0 };
    if op == 0 {
        let r = ((a as u16 + b as u16) % 256) as u8;
        (r, make_flags(r == 0, false, a % 16 + b % 16 > 15, a as u16 + b as u16 > 255))
    } else if op == 1 {
        let r = ((a as u16 + b as u16 + c as u16) % 256) as u8;
        (r, make_flags(r == 0, false, a % 16 + b % 16 + c > 15, a as u16 + b as u16 + c as u16 > 255))
    } else if op == 2 || op == 7 {
        let r = ((a as u16 + 256 - b as u16) % 256) as u8;
        (if op == 2 { r } else { a }, make_flags(r == 0, true, a % 16 < b % 16, a < b))
    } else if op == 3 {
        let r = ((a as u16 + 512 - b as u16 - c as u16) % 256) as u8;
        (r, make_flags(r == 0, true, a % 16 < b % 16 + c, (a as u16) < b as u16 + c as u16))
    } else if op == 4 {
        let r = a & b;
        (r, make_flags(r == 0, false, true, false))
    } else if op == 5 {
        let r = a ^ b;
        (r, make_flags(r == 0, false, false, false))
    } else {
        let r = a | b;
        (r, make_flags(r == 0, false, false, false))
    }
}

/// The F byte that an accumulator operation yields has its low bits clear.
pub proof fn lemma_alu_flags(op: u8, a: u8, b: u8, carry: bool)
    ensures
        alu(op, a, b, carry).1 % 16 == 0,
{
    reveal(alu);
}

/// A word whose low byte has its four low bits clear has them clear too.
proof fn lemma_join_wf(h: u8, l: u8)
    requires
        l % 16 == 0,
    ensures
        join(h, l) % 16 == 0,
        lo(join(h, l)) == l,
{
    lemma_join_parts(h, l);
}

/// Storing an 8-bit register keeps the low bits of F clear.
proof fn lemma_with_r8_wf(cpu: Cpu, r: R8, v: u8)
    requires
        cpu.wf(),
    ensures
        with_r8(cpu, r, v).wf(),
{
    lemma_split_join(cpu.af);
    lemma_join_parts(v, lo(cpu.af));
}

proof fn lemma_block0_pairs_wf(cpu: Cpu, bus: Bus, op: u8)
    requires
        cpu.wf(),
        op % 8 == 2,
    ensures
        load_indirect(cpu, bus, op) is Ok ==> load_indirect(cpu, bus, op)->Ok_0.0.wf(),
{
    let y = (op / 8) % 8;
    let addr = if y / 2 == 0 { cpu.bc } else if y / 2 == 1 { cpu.de } else { cpu.hl };
    let moved = if y / 2 == 2 {
        Cpu { hl: inc16(cpu.hl), ..cpu }
    } else if y / 2 == 3 {
        Cpu { hl: dec16(cpu.hl), ..cpu }
    } else {
        cpu
    };
    lemma_with_r8_wf(moved, R8::A, bus.byte_at(addr as int));
}

proof fn lemma_block0_bytes_wf(cpu: Cpu, bus: Bus, op: u8)
    requires
        cpu.wf(),
        4 <= op % 8 <= 6,
    ensures
        load8(cpu, bus, op) is Ok ==> load8(cpu, bus, op)->Ok_0.0.wf(),
        step8(cpu, bus, op) is Ok ==> step8(cpu, bus, op)->Ok_0.0.wf(),
{
    let y = (op / 8) % 8;
    let z = op % 8;
    lemma_with_r8_wf(cpu, R8::of(y), imm8(cpu, bus));
    {
        let v = r8_value(cpu, bus, R8::of(y));
        let r = if z == 4 { ((v + 1) % 256) as u8 } else { ((v + 255) % 256) as u8 };
        let f = if z == 4 {
            flag_byte(r == 0, false, v % 16 == 15, flag_of(cpu.af, Flag::Carry))
        } else {
            flag_byte(r == 0, true, v % 16 == 0, flag_of(cpu.af, Flag::Carry))
        };
        lemma_join_wf(hi(cpu.af), f);
        let flagged = Cpu { af: join(hi(cpu.af), f), ..cpu };
        lemma_with_r8_wf(flagged, R8::of(y), r);
    }
}

proof fn lemma_rotate_a_wf(cpu: Cpu, op: u8)
    ensures
        rotate_a(cpu, op)->Ok_0.0.wf(),
{
    reveal(rotate_a);
    let res = shift_op((op / 8) % 8, hi(cpu.af), flag_of(cpu.af, Flag::Carry));
    lemma_join_wf(res.0, flag_byte(false, false, false, res.1));
}

proof fn lemma_daa_wf(cpu: Cpu)
    ensures
        daa(cpu)->Ok_0.0.wf(),
{
    reveal(daa);
    let n = flag_of(cpu.af, Flag::Subtraction);
    let a = hi(cpu.af);
    let h = flag_of(cpu.af, Flag::HalfCarry);
    let c = flag_of(cpu.af, Flag::Carry);
    let hi_adj: int = if (!n && (c || a > 0x99)) || (n && c) { 0x60 } else { 0 };
    let lo_adj: int = if (!n && (h || a % 16 > 9)) || (n && h) { 6 } else { 0 };
    let r = if n { ((a + 256 - hi_adj - lo_adj) % 256) as u8 } else { ((a + hi_adj + lo_adj) % 256) as u8 };
    let c2 = if n { c } else { hi_adj == 0x60 };
    lemma_join_wf(r, flag_byte(r == 0, n, false, c2));
}

proof fn lemma_add_hl_wf(cpu: Cpu, op: u8)
    ensures
        add_hl(cpu, op)->Ok_0.0.wf(),
{
    reveal(add_hl);
    let v = pair_value(cpu, R16::of(((op / 8) % 8) / 2));
    lemma_join_wf(hi(cpu.af), flag_byte(flag_of(cpu.af, Flag::Zero), false, cpu.hl % 4096 + v % 4096 > 4095, cpu.hl + v > 65535));
}

proof fn lemma_sp_offset_wf(cpu: Cpu, bus: Bus, op: u8)
    ensures
        sp_offset(cpu, bus, op)->Ok_0.0.wf(),
{
    reveal(sp_offset);
    let e = imm8(cpu, bus);
    lemma_join_wf(hi(cpu.af), flag_byte(false, false, cpu.sp % 16 + e % 16 > 15, cpu.sp % 256 + e > 255));
}

/// The stack forms keep the low bits of F clear.
proof fn lemma_stack_wf(cpu: Cpu, bus: Bus, op: u8)
    requires
        cpu.wf(),
    ensures
        store_sp(cpu, bus)->Ok_0.0.wf(),
        return_forms(cpu, bus, op)->Ok_0.0.wf(),
        calls(cpu, bus, op)->Ok_0.0.wf(),
        pop(cpu, bus, op)->Ok_0.0.wf(),
        push(cpu, op)->Ok_0.0.wf(),
{
    reveal(store_sp);
    reveal(return_forms);
    reveal(calls);
    reveal(pop);
    reveal(push);
    assert(flags_only(top_word(cpu, bus)) % 16 == 0);
}

proof fn lemma_far_loads_wf(cpu: Cpu, bus: Bus, op: u8)
    requires
        cpu.wf(),
    ensures
        far_loads(cpu, bus, op)->Ok_0.0.wf(),
{
    reveal(far_loads);
    let high = (0xFF00 + imm8(cpu, bus)) as u16;
    let via_c = (0xFF00 + lo(cpu.bc)) as u16;
    lemma_with_r8_wf(cpu, R8::A, bus.byte_at(high as int));
    lemma_with_r8_wf(cpu, R8::A, bus.byte_at(via_c as int));
    lemma_with_r8_wf(cpu, R8::A, bus.byte_at(imm16(cpu, bus) as int));
}

proof fn lemma_block0_flags_wf(cpu: Cpu, op: u8)
    requires
        cpu.wf(),
    ensures
        block0_flags(cpu, op) is Ok ==> block0_flags(cpu, op)->Ok_0.0.wf(),
{
    let a = hi(cpu.af);
    let zf = flag_of(cpu.af, Flag::Zero);
    let cf = flag_of(cpu.af, Flag::Carry);
    lemma_join_wf(!a, flag_byte(zf, true, true, cf));
    lemma_join_wf(a, flag_byte(zf, false, false, true));
    lemma_join_wf(a, flag_byte(zf, false, false, !cf));
    lemma_rotate_a_wf(cpu, op);
    lemma_daa_wf(cpu);
}

proof fn lemma_block1_wf(cpu: Cpu, bus: Bus, op: u8)
    requires
        cpu.wf(),
    ensures
        block1(cpu, bus, op) is Ok ==> block1(cpu, bus, op)->Ok_0.0.wf(),
{
    lemma_with_r8_wf(cpu, R8::of((op / 8) % 8), r8_value(cpu, bus, R8::of(op % 8)));
}

proof fn lemma_block2_wf(cpu: Cpu, bus: Bus, op: u8)
    requires
        cpu.wf(),
    ensures
        block2(cpu, bus, op) is Ok ==> block2(cpu, bus, op)->Ok_0.0.wf(),
{
    let y = (op / 8) % 8;
    let res = alu(y, hi(cpu.af), r8_value(cpu, bus, R8::of(op % 8)), flag_of(cpu.af, Flag::Carry));
    lemma_alu_flags(y, hi(cpu.af), r8_value(cpu, bus, R8::of(op % 8)), flag_of(cpu.af, Flag::Carry));
    lemma_join_wf(res.0, res.1);
}

proof fn lemma_prefixed_wf(cpu: Cpu, bus: Bus)
    requires
        cpu.wf(),
    ensures
        prefixed(cpu, bus)->Ok_0.0.wf(),
{
    reveal(prefixed);
    let cb = imm8(cpu, bus);
    let x = cb / 64;
    let y = (cb / 8) % 8;
    let z = cb % 8;
    let v = r8_value(cpu, bus, R8::of(z));
    let cf = flag_of(cpu.af, Flag::Carry);
    lemma_join_wf(hi(cpu.af), flag_byte((v >> y) & 1 == 0, false, true, cf));
    let sh = shift_op(y, v, cf);
    let r = if x == 0 { sh.0 } else if x == 2 { v & !(1u8 << y) } else { v | (1u8 << y) };
    lemma_join_wf(hi(cpu.af), flag_byte(r == 0, false, false, sh.1));
    let base = if x == 0 { Cpu { af: join(hi(cpu.af), flag_byte(r == 0, false, false, sh.1)), ..cpu } } else { cpu };
    lemma_with_r8_wf(base, R8::of(z), r);
}

proof fn lemma_block3_wf(cpu: Cpu, bus: Bus, op: u8)
    requires
        cpu.wf(),
    ensures
        block3(cpu, bus, op) is Ok ==> block3(cpu, bus, op)->Ok_0.0.wf(),
{
    let y = (op / 8) % 8;
    let res = alu(y, hi(cpu.af), imm8(cpu, bus), flag_of(cpu.af, Flag::Carry));
    lemma_alu_flags(y, hi(cpu.af), imm8(cpu, bus), flag_of(cpu.af, Flag::Carry));
    lemma_join_wf(res.0, res.1);
    lemma_stack_wf(cpu, bus, op);
    lemma_far_loads_wf(cpu, bus, op);
    lemma_sp_offset_wf(cpu, bus, op);
    lemma_prefixed_wf(cpu, bus);
}

/// A step that completes leaves the four low bits of F clear.
pub proof fn lemma_step_keeps_flags_clear(cpu: Cpu, bus: Bus)
    requires
        cpu.wf(),
    ensures
        step_spec(cpu, bus) is Ok ==> step_spec(cpu, bus)->Ok_0.0.wf(),
{
    let op = bus.byte_at(cpu.pc as int);
    let z = op % 8;
    if !cpu.halted {
        if op < 0x40 {
            if z == 0 {
                lemma_stack_wf(cpu, bus, op);
            } else if z == 1 {
                lemma_add_hl_wf(cpu, op);
            } else if z == 2 {
                lemma_block0_pairs_wf(cpu, bus, op);
            } else if 4 <= z <= 6 {
                lemma_block0_bytes_wf(cpu, bus, op);
            } else if z == 7 {
                lemma_block0_flags_wf(cpu, op);
            }
        } else if op < 0x80 {
            lemma_block1_wf(cpu, bus, op);
        } else if op < 0xC0 {
            lemma_block2_wf(cpu, bus, op);
        } else {
            lemma_block3_wf(cpu, bus, op);
        }
    }
}

/// While halted with no interrupt pending, a step changes nothing and costs
/// the fixed idle cycles, however many steps are taken.
pub proof fn lemma_halted_idles(cpu: Cpu, bus: Bus)
    requires
        cpu.halted,
        !cpu.interrupt_pending,
    ensures
        step_spec(cpu, bus) == Ok::<(Cpu, Seq<(u16, u8)>, u8), CpuError>((cpu, Seq::empty(), HALT_IDLE_CYCLES)),
{
}

/// The address `n` bytes past `pc`, wrapping.
fn pc_plus(pc: u16, n: u16) -> (r: u16)
    ensures
        r == wrap16(pc + n),
{
    pc.wrapping_add(n)
}

/// Runs one of the eight shifts and rotations.
pub fn run_shift(op: u8, v: u8, carry: bool) -> (r: (u8, bool))
    requires
        op < 8,
    ensures
        r == shift_op(op, v, carry),
{
    let c: u8 = if carry { 1 } else { 0 };
    if op == 0 {
        (((v as u16 * 2) % 256 + v as u16 / 128) as u8, v >= 128)
    } else if op == 1 {
        (v / 2 + (v % 2) * 128, v % 2 == 1)
    } else if op == 2 {
        (((v as u16 * 2) % 256 + c as u16) as u8, v >= 128)
    } else if op == 3 {
        (v / 2 + c * 128, v % 2 == 1)
    } else if op == 4 {
        (((v as u16 * 2) % 256) as u8, v >= 128)
    } else if op == 5 {
        (v / 2 + (v / 128) * 128, v % 2 == 1)
    } else if op == 6 {
        ((v % 16) * 16 + v / 16, false)
    } else {
        (v / 2, v % 2 == 1)
    }
}

/// Reads one byte for the engine.
fn fetch(bus: &mut Bus, address: u16) -> (r: Result<u8, CpuError>)
    requires
        old(bus).wf(),
    ensures
        *final(bus) == *old(bus),
        r == Ok::<u8, CpuError>(old(bus).byte_at(address as int)),
{
    match bus.read(address) {
        Ok(v) => Ok(v),
        Err(e) => Err(CpuError::from(e)),
    }
}

/// Reads the little-endian word that follows the opcode at `pc`.
fn fetch_word(bus: &mut Bus, pc: u16) -> (r: Result<u16, CpuError>)
    requires
        old(bus).wf(),
    ensures
        *final(bus) == *old(bus),
        r == Ok::<u16, CpuError>(join(old(bus).byte_at(wrap16(pc + 2) as int), old(bus).byte_at(wrap16(pc + 1) as int))),
{
    let l = fetch(bus, pc_plus(pc, 1))?;
    let h = fetch(bus, pc_plus(pc, 2))?;
    Ok(make_word(h, l))
}

/// Target of a relative jump from the instruction at `pc`.
fn relative_target(pc: u16, e: u8) -> (r: u16)
    ensures
        r == rel_target(pc, e),
{
    let next = pc_plus(pc, 2);
    if e < 128 {
        next.wrapping_add(e as u16)
    } else {
        next.wrapping_sub(256 - e as u16)
    }
}

impl Cpu {
    /// Signals an interrupt condition; a halted CPU wakes at its next step.
    pub fn request_interrupt(&mut self)
        ensures
            *final(self) == (Cpu { interrupt_pending: true, ..*old(self) }),
    {
        self.interrupt_pending = true;
    }

    fn exec_block0_control(&mut self, bus: &mut Bus, op: u8) -> (r: Result<u8, CpuError>)
        requires
            op < 0x40 && op % 8 == 0,
            old(bus).wf(),
        ensures
            follows(*old(self), *old(bus), *final(self), *final(bus), r, block0_control(*old(self), *old(bus), op)),
    {
        let y: u8 = (op / 8) % 8;
        let z: u8 = op % 8;
        let pc = self.pc;
        if y == 0 {
            self.pc = pc_plus(pc, 1);
            Ok(1)
        } else if y == 1 {
            self.exec_store_sp(bus, op)
        } else if y == 2 {
            self.pc = pc_plus(pc, 2);
            self.halted = true;
            Ok(1)
        } else if y == 3 {
            let e = fetch(bus, pc_plus(pc, 1))?;
            self.pc = relative_target(pc, e);
            Ok(3)
        } else {
            let taken = self.get_condition(y - 4)?;
            let e = fetch(bus, pc_plus(pc, 1))?;
            if taken {
                self.pc = relative_target(pc, e);
                Ok(3)
            } else {
                self.pc = pc_plus(pc, 2);
                Ok(2)
            }
        }
    }

    fn exec_load16(&mut self, bus: &mut Bus, op: u8) -> (r: Result<u8, CpuError>)
        requires
            op < 0x40 && op % 8 == 1,
            old(bus).wf(),
        ensures
            follows(*old(self), *old(bus), *final(self), *final(bus), r, load16(*old(self), *old(bus), op)),
    {
        let y: u8 = (op / 8) % 8;
        let pc = self.pc;
        if y % 2 == 0 {
            let reg = R16::try_from(y / 2)?;
            let v = fetch_word(bus, pc)?;
            self.pc = pc_plus(pc, 3);
            self.set_pair(reg, v);
            Ok(3)
        } else {
            self.exec_add_hl(bus, op)
        }
    }

    fn exec_load_indirect(&mut self, bus: &mut Bus, op: u8) -> (r: Result<u8, CpuError>)
        requires
            op < 0x40 && op % 8 == 2,
            old(bus).wf(),
        ensures
            follows(*old(self), *old(bus), *final(self), *final(bus), r, load_indirect(*old(self), *old(bus), op)),
    {
        let y: u8 = (op / 8) % 8;
        let pc = self.pc;
        let a = self.get_a();
        let addr = self.get_r16_mem(y / 2)?;
        if y % 2 == 0 {
            match bus.write(addr, a) {
                Ok(()) => {},
                Err(e) => {
                    return Err(CpuError::from(e));
                },
            }
        } else {
            let v = fetch(bus, addr)?;
            self.set_a(v);
        }
        self.pc = pc_plus(pc, 1);
        Ok(2)
    }

    fn exec_step16(&mut self, bus: &mut Bus, op: u8) -> (r: Result<u8, CpuError>)
        requires
            op < 0x40 && op % 8 == 3,
            old(bus).wf(),
        ensures
            follows(*old(self), *old(bus), *final(self), *final(bus), r, step16(*old(self), op)),
    {
        let y: u8 = (op / 8) % 8;
        let pc = self.pc;
        let reg = R16::try_from(y / 2)?;
        let v = self.get_pair(reg);
        let nv = if y % 2 == 0 { v.wrapping_add(1) } else { v.wrapping_sub(1) };
        self.set_pair(reg, nv);
        self.pc = pc_plus(pc, 1);
        Ok(2)
    }

    fn exec_block0_pairs(&mut self, bus: &mut Bus, op: u8) -> (r: Result<u8, CpuError>)
        requires
            op < 0x40 && 1 <= op % 8 <= 3,
            old(bus).wf(),
        ensures
            follows(*old(self), *old(bus), *final(self), *final(bus), r, block0_pairs(*old(self), *old(bus), op)),
    {
        let z: u8 = op % 8;
        if z == 1 {
            self.exec_load16(bus, op)
        } else if z == 2 {
            self.exec_load_indirect(bus, op)
        } else {
            self.exec_step16(bus, op)
        }
    }

    #[verifier::rlimit(60)]
    fn exec_step8(&mut self, bus: &mut Bus, op: u8) -> (r: Result<u8, CpuError>)
        requires
            op < 0x40 && (op % 8 == 4 || op % 8 == 5),
            old(bus).wf(),
        ensures
            follows(*old(self), *old(bus), *final(self), *final(bus), r, step8(*old(self), *old(bus), op)),
    {
        let y: u8 = (op / 8) % 8;
        let z: u8 = op % 8;
        let pc = self.pc;
        let v = self.get_r8(y, bus)?;
        let r = if z == 4 { v.wrapping_add(1) } else { v.wrapping_sub(1) };
        let c = self.get_flag(Flag::Carry);
        let f = if z == 4 {
            make_flags(r == 0, false, v % 16 == 15, c)
        } else {
            make_flags(r == 0, true, v % 16 == 0, c)
        };
        self.set_f(f);
        self.set_r8(y, r, bus)?;
        self.pc = pc_plus(pc, 1);
        if y == 6 {
            Ok(3)
        } else {
            Ok(1)
        }
    }

    fn exec_load8(&mut self, bus: &mut Bus, op: u8) -> (r: Result<u8, CpuError>)
        requires
            op < 0x40 && op % 8 == 6,
            old(bus).wf(),
        ensures
            follows(*old(self), *old(bus), *final(self), *final(bus), r, load8(*old(self), *old(bus), op)),
    {
        let y: u8 = (op / 8) % 8;
        let pc = self.pc;
        let v = fetch(bus, pc_plus(pc, 1))?;
        self.set_r8(y, v, bus)?;
        self.pc = pc_plus(pc, 2);
        if y == 6 {
            Ok(3)
        } else {
            Ok(2)
        }
    }

    fn exec_block0_bytes(&mut self, bus: &mut Bus, op: u8) -> (r: Result<u8, CpuError>)
        requires
            op < 0x40 && 4 <= op % 8 <= 6,
            old(bus).wf(),
        ensures
            follows(*old(self), *old(bus), *final(self), *final(bus), r, block0_bytes(*old(self), *old(bus), op)),
    {
        if op % 8 == 6 {
            self.exec_load8(bus, op)
        } else {
            self.exec_step8(bus, op)
        }
    }

    fn exec_block0_flags(&mut self, bus: &mut Bus, op: u8) -> (r: Result<u8, CpuError>)
        requires
            op < 0x40 && op % 8 == 7,
            old(bus).wf(),
        ensures
            follows(*old(self), *old(bus), *final(self), *final(bus), r, block0_flags(*old(self), op)),
    {
        let y: u8 = (op / 8) % 8;
        if y < 4 {
            return self.exec_rotate_a(bus, op);
        } else if y == 4 {
            return self.exec_daa(bus, op);
        }
        let pc = self.pc;
        let a = self.get_a();
        let zf = self.get_flag(Flag::Zero);
        let cf = self.get_flag(Flag::Carry);
        if y == 5 {
            self.set_af_bytes(!a, make_flags(zf, true, true, cf));
        } else if y == 6 {
            self.set_af_bytes(a, make_flags(zf, false, false, true));
        } else {
            self.set_af_bytes(a, make_flags(zf, false, false, !cf));
        }
        self.pc = pc_plus(pc, 1);
        Ok(1)
    }

    fn exec_block0(&mut self, bus: &mut Bus, op: u8) -> (r: Result<u8, CpuError>)
        requires
            op < 0x40,
            old(bus).wf(),
        ensures
            follows(*old(self), *old(bus), *final(self), *final(bus), r, block0(*old(self), *old(bus), op)),
    {
        let z: u8 = op % 8;
        if z == 0 {
            self.exec_block0_control(bus, op)
        } else if z <= 3 {
            self.exec_block0_pairs(bus, op)
        } else if z <= 6 {
            self.exec_block0_bytes(bus, op)
        } else {
            self.exec_block0_flags(bus, op)
        }
    }

    fn exec_block1(&mut self, bus: &mut Bus, op: u8) -> (r: Result<u8, CpuError>)
        requires
            0x40 <= op < 0x80,
            old(bus).wf(),
        ensures
            follows(*old(self), *old(bus), *final(self), *final(bus), r, block1(*old(self), *old(bus), op)),
    {
        let y: u8 = (op / 8) % 8;
        let z: u8 = op % 8;
        let pc = self.pc;
        if y == 6 && z == 6 {
            self.pc = pc_plus(pc, 1);
            self.halted = true;
            return Ok(1);
        }
        let v = self.get_r8(z, bus)?;
        self.set_r8(y, v, bus)?;
        self.pc = pc_plus(pc, 1);
        if y == 6 || z == 6 {
            Ok(2)
        } else {
            Ok(1)
        }
    }

    fn exec_block2(&mut self, bus: &mut Bus, op: u8) -> (r: Result<u8, CpuError>)
        requires
            0x80 <= op < 0xC0,
            old(bus).wf(),
        ensures
            follows(*old(self), *old(bus), *final(self), *final(bus), r, block2(*old(self), *old(bus), op)),
    {
        let y: u8 = (op / 8) % 8;
        let z: u8 = op % 8;
        let v = self.get_r8(z, bus)?;
        let a = self.get_a();
        let c = self.get_flag(Flag::Carry);
        let (na, f) = run_alu(y, a, v, c);
        proof {
            assert(f % 16 == 0);
        }
        self.set_af_bytes(na, f);
        self.pc = pc_plus(self.pc, 1);
        if z == 6 {
            Ok(2)
        } else {
            Ok(1)
        }
    }

    fn exec_jump(&mut self, bus: &mut Bus, op: u8) -> (r: Result<u8, CpuError>)
        requires
            op == 0xC3 || op == 0xE9 || (op >= 0xC0 && op % 8 == 2 && (op / 8) % 8 < 4),
            old(bus).wf(),
        ensures
            follows(*old(self), *old(bus), *final(self), *final(bus), r, block3_jumps(*old(self), *old(bus), op)),
    {
        let y: u8 = (op / 8) % 8;
        let pc = self.pc;
        if op == 0xC3 {
            let target = fetch_word(bus, pc)?;
            self.pc = target;
            Ok(4)
        } else if op == 0xE9 {
            self.pc = self.hl;
            Ok(1)
        } else {
            let taken = self.get_condition(y)?;
            let target = fetch_word(bus, pc)?;
            if taken {
                self.pc = target;
                Ok(4)
            } else {
                self.pc = pc_plus(pc, 3);
                Ok(3)
            }
        }
    }

    fn exec_alu_imm(&mut self, bus: &mut Bus, op: u8) -> (r: Result<u8, CpuError>)
        requires
            op >= 0xC0 && op % 8 == 6,
            old(bus).wf(),
        ensures
            follows(*old(self), *old(bus), *final(self), *final(bus), r, block3(*old(self), *old(bus), op)),
    {
        let y: u8 = (op / 8) % 8;
        let pc = self.pc;
        let v = fetch(bus, pc_plus(pc, 1))?;
        let a = self.get_a();
        let c = self.get_flag(Flag::Carry);
        let (na, f) = run_alu(y, a, v, c);
        self.set_af_bytes(na, f);
        self.pc = pc_plus(pc, 2);
        Ok(2)
    }

    /// Pushes a word below SP.
    fn push_word(&mut self, bus: &mut Bus, v: u16) -> (r: Result<(), CpuError>)
        requires
            old(bus).wf(),
        ensures
            r is Ok,
            final(bus).wf(),
            *final(self) == (Cpu { sp: wrap16(old(self).sp + 0xFFFE), ..*old(self) }),
            stored(*old(bus), *final(bus), push_stores(old(self).sp, v)),
    {
        let sp1 = self.sp.wrapping_sub(1);
        match bus.write(sp1, high_byte(v)) {
            Ok(()) => {},
            Err(e) => {
                return Err(CpuError::from(e));
            },
        }
        let ghost mid = *bus;
        let sp2 = sp1.wrapping_sub(1);
        match bus.write(sp2, low_byte(v)) {
            Ok(()) => {},
            Err(e) => {
                return Err(CpuError::from(e));
            },
        }
        self.sp = sp2;
        proof {
            let st = push_stores(old(self).sp, v);
            assert(st[0] == (sp1, hi(v)));
            assert(st[1] == (sp2, lo(v)));
            assert(mid.written(*bus, st[1].0 as int, st[1].1));
        }
        Ok(())
    }

    fn exec_return(&mut self, bus: &mut Bus, op: u8) -> (r: Result<u8, CpuError>)
        requires
            op >= 0xC0 && is_return(op),
            old(bus).wf(),
        ensures
            follows(*old(self), *old(bus), *final(self), *final(bus), r, return_forms(*old(self), *old(bus), op)),
    {
        reveal(return_forms);
        let taken = if op == 0xC9 || op == 0xD9 {
            true
        } else {
            self.get_condition((op / 8) % 8)?
        };
        if !taken {
            self.pc = pc_plus(self.pc, 1);
            return Ok(2);
        }
        let target = read_word(bus, self.sp)?;
        self.sp = self.sp.wrapping_add(2);
        self.pc = target;
        if op == 0xD9 {
            self.ime = true;
        }
        if op == 0xC9 || op == 0xD9 {
            Ok(4)
        } else {
            Ok(5)
        }
    }

    fn exec_pop(&mut self, bus: &mut Bus, op: u8) -> (r: Result<u8, CpuError>)
        requires
            op >= 0xC0 && op % 8 == 1 && ((op / 8) % 8) % 2 == 0,
            old(bus).wf(),
        ensures
            follows(*old(self), *old(bus), *final(self), *final(bus), r, pop(*old(self), *old(bus), op)),
    {
        reveal(pop);
        let v = read_word(bus, self.sp)?;
        self.sp = self.sp.wrapping_add(2);
        self.pc = pc_plus(self.pc, 1);
        self.set_r16_stk(((op / 8) % 8) / 2, v)?;
        Ok(3)
    }

    fn exec_push(&mut self, bus: &mut Bus, op: u8) -> (r: Result<u8, CpuError>)
        requires
            op >= 0xC0 && op % 8 == 5 && ((op / 8) % 8) % 2 == 0,
            old(bus).wf(),
        ensures
            follows(*old(self), *old(bus), *final(self), *final(bus), r, push(*old(self), op)),
    {
        reveal(push);
        let v = self.get_r16_stk(((op / 8) % 8) / 2)?;
        self.push_word(bus, v)?;
        self.pc = pc_plus(self.pc, 1);
        Ok(4)
    }

    fn exec_call(&mut self, bus: &mut Bus, op: u8) -> (r: Result<u8, CpuError>)
        requires
            op >= 0xC0 && is_call(op),
            old(bus).wf(),
        ensures
            follows(*old(self), *old(bus), *final(self), *final(bus), r, calls(*old(self), *old(bus), op)),
    {
        reveal(calls);
        let y: u8 = (op / 8) % 8;
        let pc = self.pc;
        if op % 8 == 7 {
            self.push_word(bus, pc_plus(pc, 1))?;
            self.pc = y as u16 * 8;
            return Ok(4);
        }
        let taken = if op == 0xCD {
            true
        } else {
            self.get_condition(y)?
        };
        let target = fetch_word(bus, pc)?;
        if taken {
            self.push_word(bus, pc_plus(pc, 3))?;
            self.pc = target;
            Ok(6)
        } else {
            self.pc = pc_plus(pc, 3);
            Ok(3)
        }
    }

    fn exec_far_load(&mut self, bus: &mut Bus, op: u8) -> (r: Result<u8, CpuError>)
        requires
            op >= 0xC0 && is_far_load(op),
            old(bus).wf(),
        ensures
            follows(*old(self), *old(bus), *final(self), *final(bus), r, far_loads(*old(self), *old(bus), op)),
    {
        reveal(far_loads);
        let pc = self.pc;
        if op == 0xF9 {
            self.sp = self.hl;
            self.pc = pc_plus(pc, 1);
            return Ok(2);
        }
        let (addr, len, cycles) = if op == 0xE0 || op == 0xF0 {
            let n = fetch(bus, pc_plus(pc, 1))?;
            (0xFF00u16 + n as u16, 2u16, 3u8)
        } else if op == 0xE2 || op == 0xF2 {
            (0xFF00u16 + self.get_c() as u16, 1u16, 2u8)
        } else {
            let w = fetch_word(bus, pc)?;
            (w, 3u16, 4u8)
        };
        if op == 0xE0 || op == 0xE2 || op == 0xEA {
            match bus.write(addr, self.get_a()) {
                Ok(()) => {},
                Err(e) => {
                    return Err(CpuError::from(e));
                },
            }
        } else {
            let v = fetch(bus, addr)?;
            self.set_a(v);
        }
        self.pc = pc_plus(pc, len);
        Ok(cycles)
    }

    fn exec_store_sp(&mut self, bus: &mut Bus, op: u8) -> (r: Result<u8, CpuError>)
        requires
            old(bus).wf(),
        ensures
            follows(*old(self), *old(bus), *final(self), *final(bus), r, store_sp(*old(self), *old(bus))),
    {
        reveal(store_sp);
        let pc = self.pc;
        let a = fetch_word(bus, pc)?;
        let sp = self.sp;
        match bus.write(a, low_byte(sp)) {
            Ok(()) => {},
            Err(e) => {
                return Err(CpuError::from(e));
            },
        }
        let ghost mid = *bus;
        match bus.write(pc_plus(a, 1), high_byte(sp)) {
            Ok(()) => {},
            Err(e) => {
                return Err(CpuError::from(e));
            },
        }
        self.pc = pc_plus(pc, 3);
        proof {
            let st = seq![(a, lo(sp)), (wrap16(a + 1), hi(sp))];
            assert(st[0] == (a, lo(sp)));
            assert(mid.written(*bus, st[1].0 as int, st[1].1));
        }
        Ok(5)
    }

    fn exec_add_hl(&mut self, bus: &mut Bus, op: u8) -> (r: Result<u8, CpuError>)
        requires
            op < 0x40 && op % 8 == 1,
        ensures
            follows(*old(self), *old(bus), *final(self), *final(bus), r, add_hl(*old(self), op)),
    {
        reveal(add_hl);
        let reg = R16::try_from(((op / 8) % 8) / 2)?;
        let v = self.get_pair(reg);
        let h = self.hl;
        let half = h % 4096 + v % 4096 > 4095;
        let carry = h as u32 + v as u32 > 65535;
        let f = make_flags(self.get_flag(Flag::Zero), false, half, carry);
        self.set_f(f);
        self.hl = h.wrapping_add(v);
        self.pc = pc_plus(self.pc, 1);
        Ok(2)
    }

    fn exec_rotate_a(&mut self, bus: &mut Bus, op: u8) -> (r: Result<u8, CpuError>)
        requires
            op < 0x40 && (op / 8) % 8 < 4,
        ensures
            follows(*old(self), *old(bus), *final(self), *final(bus), r, rotate_a(*old(self), op)),
    {
        reveal(rotate_a);
        let res = run_shift((op / 8) % 8, self.get_a(), self.get_flag(Flag::Carry));
        self.set_af_bytes(res.0, make_flags(false, false, false, res.1));
        self.pc = pc_plus(self.pc, 1);
        Ok(1)
    }

    fn exec_daa(&mut self, bus: &mut Bus, op: u8) -> (r: Result<u8, CpuError>)
        ensures
            follows(*old(self), *old(bus), *final(self), *final(bus), r, daa(*old(self))),
    {
        reveal(daa);
        let a = self.get_a();
        let n = self.get_flag(Flag::Subtraction);
        let h = self.get_flag(Flag::HalfCarry);
        let c = self.get_flag(Flag::Carry);
        let hi_adj: u16 = if (!n && (c || a > 0x99)) || (n && c) { 0x60 } else { 0 };
        let lo_adj: u16 = if (!n && (h || a % 16 > 9)) || (n && h) { 6 } else { 0 };
        let r = if n {
            ((a as u16 + 256 - hi_adj - lo_adj) % 256) as u8
        } else {
            ((a as u16 + hi_adj + lo_adj) % 256) as u8
        };
        let c2 = if n { c } else { hi_adj == 0x60 };
        self.set_af_bytes(r, make_flags(r == 0, n, false, c2));
        self.pc = pc_plus(self.pc, 1);
        Ok(1)
    }

    fn exec_sp_offset(&mut self, bus: &mut Bus, op: u8) -> (r: Result<u8, CpuError>)
        requires
            op == 0xE8 || op == 0xF8,
            old(bus).wf(),
        ensures
            follows(*old(self), *old(bus), *final(self), *final(bus), r, sp_offset(*old(self), *old(bus), op)),
    {
        reveal(sp_offset);
        let pc = self.pc;
        let e = fetch(bus, pc_plus(pc, 1))?;
        let sp = self.sp;
        let sum = if e < 128 { sp.wrapping_add(e as u16) } else { sp.wrapping_add(e as u16 + 0xFF00) };
        let f = make_flags(false, false, sp % 16 + e as u16 % 16 > 15, sp % 256 + e as u16 > 255);
        self.set_f(f);
        if op == 0xE8 {
            self.sp = sum;
        } else {
            self.hl = sum;
        }
        self.pc = pc_plus(pc, 2);
        if op == 0xE8 {
            Ok(4)
        } else {
            Ok(3)
        }
    }

    fn exec_prefixed(&mut self, bus: &mut Bus) -> (r: Result<u8, CpuError>)
        requires
            old(bus).wf(),
        ensures
            follows(*old(self), *old(bus), *final(self), *final(bus), r, prefixed(*old(self), *old(bus))),
    {
        reveal(prefixed);
        let pc = self.pc;
        let cb = fetch(bus, pc_plus(pc, 1))?;
        let x: u8 = cb / 64;
        let y: u8 = (cb / 8) % 8;
        let z: u8 = cb % 8;
        let v = self.get_r8(z, bus)?;
        let cf = self.get_flag(Flag::Carry);
        if x == 1 {
            let f = make_flags((v >> y) & 1 == 0, false, true, cf);
            self.set_f(f);
            self.pc = pc_plus(pc, 2);
            return if z == 6 {
                Ok(3)
            } else {
                Ok(2)
            };
        }
        let sh = run_shift(y, v, cf);
        let r = if x == 0 {
            sh.0
        } else if x == 2 {
            v & !(1u8 << y)
        } else {
            v | (1u8 << y)
        };
        if x == 0 {
            self.set_f(make_flags(r == 0, false, false, sh.1));
        }
        self.set_r8(z, r, bus)?;
        self.pc = pc_plus(pc, 2);
        if z == 6 {
            Ok(4)
        } else {
            Ok(2)
        }
    }

    fn exec_block3(&mut self, bus: &mut Bus, op: u8) -> (r: Result<u8, CpuError>)
        requires
            0xC0 <= op,
            old(bus).wf(),
        ensures
            follows(*old(self), *old(bus), *final(self), *final(bus), r, block3(*old(self), *old(bus), op)),
    {
        let y: u8 = (op / 8) % 8;
        let z: u8 = op % 8;
        let pc = self.pc;
        if z == 6 {
            self.exec_alu_imm(bus, op)
        } else if op == 0xC3 || op == 0xE9 || (z == 2 && y < 4) {
            self.exec_jump(bus, op)
        } else if op % 8 == 0 && y < 4 || op == 0xC9 || op == 0xD9 {
            self.exec_return(bus, op)
        } else if op % 8 == 4 && y < 4 || op == 0xCD || op % 8 == 7 {
            self.exec_call(bus, op)
        } else if z == 1 && y % 2 == 0 {
            self.exec_pop(bus, op)
        } else if z == 5 && y % 2 == 0 {
            self.exec_push(bus, op)
        } else if op == 0xE0 || op == 0xF0 || op == 0xE2 || op == 0xF2 || op == 0xEA || op == 0xFA || op == 0xF9 {
            self.exec_far_load(bus, op)
        } else if op == 0xE8 || op == 0xF8 {
            self.exec_sp_offset(bus, op)
        } else if op == 0xCB {
            self.exec_prefixed(bus)
        } else if op == 0xF3 {
            self.pc = pc_plus(pc, 1);
            self.ime = false;
            Ok(1)
        } else if op == 0xFB {
            self.pc = pc_plus(pc, 1);
            self.ime = true;
            Ok(1)
        } else {
            Err(CpuError::IllegalOpcode(op))
        }
    }

    /// Runs one instruction, or idles while halted, and returns the machine
    /// cycles it took. A step that fails changes nothing.
    pub fn step(&mut self, bus: &mut Bus) -> (r: Result<u8, CpuError>)
        requires
            old(bus).wf(),
        ensures
            follows(*old(self), *old(bus), *final(self), *final(bus), r, step_spec(*old(self), *old(bus))),
            final(bus).wf(),
            old(self).wf() ==> final(self).wf(),
    {
        proof {
            if old(self).wf() {
                lemma_step_keeps_flags_clear(*old(self), *old(bus));
            }
        }
        if self.halted {
            if self.interrupt_pending {
                self.halted = false;
                self.interrupt_pending = false;
            }
            return Ok(HALT_IDLE_CYCLES);
        }
        let op = fetch(bus, self.pc)?;
        if op < 0x40 {
            self.exec_block0(bus, op)
        } else if op < 0x80 {
            self.exec_block1(bus, op)
        } else if op < 0xC0 {
            self.exec_block2(bus, op)
        } else {
            self.exec_block3(bus, op)
        }
    }
}

} // verus!
