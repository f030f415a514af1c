use gb_emu::bus::Bus;
use gb_emu::decode::{CpuError, R8};
use gb_emu::registers::{Cpu, Flag};

#[test]
fn r16mem_increment_returns_old_hl() {
    let mut cpu = Cpu::new();
    cpu.set_hl(0x1234);
    assert_eq!(cpu.get_r16_mem(2), Ok(0x1234));
    assert_eq!(cpu.get_hl(), 0x1235);
    cpu.set_hl(0xFFFF);
    assert_eq!(cpu.get_r16_mem(2), Ok(0xFFFF));
    assert_eq!(cpu.get_hl(), 0x0000);
}

#[test]
fn r16mem_decrement_returns_old_hl() {
    let mut cpu = Cpu::new();
    cpu.set_hl(0x1234);
    assert_eq!(cpu.get_r16_mem(3), Ok(0x1234));
    assert_eq!(cpu.get_hl(), 0x1233);
    cpu.set_hl(0x0000);
    assert_eq!(cpu.get_r16_mem(3), Ok(0x0000));
    assert_eq!(cpu.get_hl(), 0xFFFF);
}

#[test]
fn r16mem_plain_pairs_do_not_move() {
    let mut cpu = Cpu::new();
    cpu.set_bc(0x1111);
    cpu.set_de(0x2222);
    cpu.set_hl(0x3333);
    assert_eq!(cpu.get_r16_mem(0), Ok(0x1111));
    assert_eq!(cpu.get_r16_mem(1), Ok(0x2222));
    assert_eq!(cpu.get_hl(), 0x3333);
    assert_eq!(cpu.get_r16_mem(4), Err(CpuError::OperandError));
    assert_eq!(cpu.get_hl(), 0x3333);
}

#[test]
fn conditions_follow_zero_and_carry() {
    let mut cpu = Cpu::new();
    for z in [false, true] {
        for c in [false, true] {
            cpu.set_flag(Flag::Zero, z);
            cpu.set_flag(Flag::Carry, c);
            assert_eq!(cpu.get_condition(0), Ok(!z));
            assert_eq!(cpu.get_condition(1), Ok(z));
            assert_eq!(cpu.get_condition(2), Ok(!c));
            assert_eq!(cpu.get_condition(3), Ok(c));
        }
    }
    assert_eq!(cpu.get_condition(4), Err(CpuError::OperandError));
}

#[test]
fn pair_selectors() {
    let mut cpu = Cpu::new();
    cpu.set_bc(1);
    cpu.set_de(2);
    cpu.set_hl(3);
    cpu.set_sp(4);
    cpu.set_af(0x5550);
    assert_eq!(cpu.get_r16(0), Ok(1));
    assert_eq!(cpu.get_r16(3), Ok(4));
    assert_eq!(cpu.get_r16_stk(2), Ok(3));
    assert_eq!(cpu.get_r16_stk(3), Ok(0x5550));
    assert_eq!(cpu.get_r16(4), Err(CpuError::OperandError));
    assert_eq!(cpu.get_r16_stk(7), Err(CpuError::OperandError));
}

#[test]
fn r8_selectors_and_out_of_range() {
    let mut bus = Bus::new();
    let mut cpu = Cpu::new();
    cpu.set_bc(0x0102);
    cpu.set_de(0x0304);
    cpu.set_hl(0xC005);
    cpu.set_a(0x09);
    assert_eq!(bus.write(0xC005, 0x77), Ok(()));
    let expected = [0x01, 0x02, 0x03, 0x04, 0xC0, 0x05, 0x77, 0x09];
    for (i, e) in expected.iter().enumerate() {
        assert_eq!(cpu.get_r8(i as u8, &mut bus), Ok(*e));
    }
    assert_eq!(cpu.get_r8(8, &mut bus), Err(CpuError::OperandError));
    assert_eq!(R8::try_from(6), Ok(R8::HLPointer));
    assert_eq!(R8::try_from(9), Err(CpuError::OperandError));
}

#[test]
fn r8_hl_indirect_reads_rom_without_touching_registers() {
    let mut bus = Bus::new();
    let mut image = vec![0u8; 0x8000];
    image[0x0150] = 0xC7;
    bus.load_rom(&image);
    let mut cpu = Cpu::new();
    cpu.set_hl(0x0150);
    let before = (cpu.get_af(), cpu.get_bc(), cpu.get_de(), cpu.get_hl(), cpu.get_sp(), cpu.get_pc());
    assert_eq!(cpu.get_r8(6, &mut bus), Ok(0xC7));
    let after = (cpu.get_af(), cpu.get_bc(), cpu.get_de(), cpu.get_hl(), cpu.get_sp(), cpu.get_pc());
    assert_eq!(before, after);
}

#[test]
fn set_r8_writes_registers_and_memory() {
    let mut bus = Bus::new();
    let mut cpu = Cpu::new();
    cpu.set_hl(0xD000);
    assert_eq!(cpu.set_r8(0, 0xAB, &mut bus), Ok(()));
    assert_eq!(cpu.get_b(), 0xAB);
    assert_eq!(cpu.set_r8(6, 0x42, &mut bus), Ok(()));
    assert_eq!(bus.read(0xD000), Ok(0x42));
    assert_eq!(cpu.set_r8(8, 1, &mut bus), Err(CpuError::OperandError));
}
