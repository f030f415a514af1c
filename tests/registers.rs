use gb_emu::decode::R16;
use gb_emu::registers::{Cpu, Flag};

#[test]
fn pair_halves_rebuild_stored_value() {
    let mut cpu = Cpu::new();
    for v in [0u16, 1, 0x00FF, 0x0100, 0x1234, 0xABCD, 0xFFFF] {
        cpu.set_bc(v);
        assert_eq!(((cpu.get_b() as u16) << 8) | cpu.get_c() as u16, v);
        cpu.set_de(v);
        assert_eq!(((cpu.get_d() as u16) << 8) | cpu.get_e() as u16, v);
        cpu.set_hl(v);
        assert_eq!(((cpu.get_h() as u16) << 8) | cpu.get_l() as u16, v);
        cpu.set_af(v);
        assert_eq!(((cpu.get_a() as u16) << 8) | cpu.get_f() as u16, v & 0xFFF0);
    }
}

#[test]
fn halves_are_eight_bit_bytes() {
    let mut cpu = Cpu::new();
    cpu.set_bc(0x1234);
    assert_eq!(cpu.get_b(), 0x12);
    assert_eq!(cpu.get_c(), 0x34);
}

#[test]
fn writing_a_half_keeps_the_other() {
    let mut cpu = Cpu::new();
    cpu.set_hl(0xBEEF);
    cpu.set_h(0x12);
    assert_eq!(cpu.get_hl(), 0x12EF);
    cpu.set_l(0x34);
    assert_eq!(cpu.get_hl(), 0x1234);
    cpu.set_a(0x56);
    cpu.set_f(0xFF);
    assert_eq!(cpu.get_af(), 0x56F0);
    assert_eq!(cpu.get_f(), 0xF0);
}

#[test]
fn flags_stay_in_their_bits() {
    let mut cpu = Cpu::new();
    cpu.set_a(0x77);
    cpu.set_flag(Flag::Zero, true);
    assert_eq!(cpu.get_af(), 0x7780);
    cpu.set_flag(Flag::Carry, true);
    assert_eq!(cpu.get_af(), 0x7790);
    assert!(cpu.get_flag(Flag::Zero));
    assert!(!cpu.get_flag(Flag::Subtraction));
    assert!(!cpu.get_flag(Flag::HalfCarry));
    assert!(cpu.get_flag(Flag::Carry));
    cpu.set_flag(Flag::Zero, false);
    assert_eq!(cpu.get_af(), 0x7710);
    assert_eq!(Flag::HalfCarry.get_af_index(), 5);
}

#[test]
fn new_cpu_is_zeroed() {
    let cpu = Cpu::new();
    assert_eq!(cpu.get_af(), 0);
    assert_eq!(cpu.get_bc(), 0);
    assert_eq!(cpu.get_de(), 0);
    assert_eq!(cpu.get_hl(), 0);
    assert_eq!(cpu.get_sp(), 0);
    assert_eq!(cpu.get_pc(), 0);
    assert!(!cpu.halted);
}

#[test]
fn take_and_step_wrap_around() {
    let mut cpu = Cpu::new();
    cpu.set_sp(0xFFFF);
    assert_eq!(cpu.take_and_increment(R16::SP), 0xFFFF);
    assert_eq!(cpu.get_sp(), 0x0000);
    assert_eq!(cpu.take_and_decrement(R16::SP), 0x0000);
    assert_eq!(cpu.get_sp(), 0xFFFF);
    cpu.set_bc(0x1000);
    assert_eq!(cpu.take_and_increment(R16::BC), 0x1000);
    assert_eq!(cpu.get_bc(), 0x1001);
}
