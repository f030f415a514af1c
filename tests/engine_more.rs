use gb_emu::decode::CpuError;
use gb_emu::engine::run_shift;
use gb_emu::game_boy::GameBoy;

fn machine_with(program: &[u8]) -> GameBoy {
    let mut gb = GameBoy::new();
    let mut image = vec![0u8; 0x8000];
    image[..program.len()].copy_from_slice(program);
    gb.load_rom(&image);
    gb
}

fn at(program: &[(usize, &[u8])]) -> GameBoy {
    let mut image = vec![0u8; 0x100];
    for (base, bytes) in program {
        image[*base..*base + bytes.len()].copy_from_slice(bytes);
    }
    machine_with(&image)
}

#[test]
fn push_then_pop() {
    // LD SP,0xFFFE ; LD BC,0x1234 ; PUSH BC ; POP DE
    let mut gb = machine_with(&[0x31, 0xFE, 0xFF, 0x01, 0x34, 0x12, 0xC5, 0xD1]);
    assert_eq!(gb.step(), Ok(3));
    assert_eq!(gb.step(), Ok(3));
    assert_eq!(gb.step(), Ok(4));
    assert_eq!(gb.cpu.get_sp(), 0xFFFC);
    assert_eq!(gb.bus.read(0xFFFD), Ok(0x12));
    assert_eq!(gb.bus.read(0xFFFC), Ok(0x34));
    assert_eq!(gb.step(), Ok(3));
    assert_eq!(gb.cpu.get_de(), 0x1234);
    assert_eq!(gb.cpu.get_sp(), 0xFFFE);
}

#[test]
fn pop_af_clears_low_flag_bits() {
    // LD SP,0xFFFE ; LD BC,0x12FF ; PUSH BC ; POP AF
    let mut gb = machine_with(&[0x31, 0xFE, 0xFF, 0x01, 0xFF, 0x12, 0xC5, 0xF1]);
    for _ in 0..4 {
        assert!(gb.step().is_ok());
    }
    assert_eq!(gb.cpu.get_af(), 0x12F0);
}

#[test]
fn call_and_return() {
    // LD SP,0xFFFE ; CALL 0x0010 ; ... 0x0010: RET
    let mut gb = at(&[(0, &[0x31, 0xFE, 0xFF, 0xCD, 0x10, 0x00]), (0x10, &[0xC9])]);
    assert_eq!(gb.step(), Ok(3));
    assert_eq!(gb.step(), Ok(6));
    assert_eq!(gb.cpu.get_pc(), 0x0010);
    assert_eq!(gb.cpu.get_sp(), 0xFFFC);
    assert_eq!(gb.bus.read(0xFFFD), Ok(0x00));
    assert_eq!(gb.bus.read(0xFFFC), Ok(0x06));
    assert_eq!(gb.step(), Ok(4));
    assert_eq!(gb.cpu.get_pc(), 0x0006);
    assert_eq!(gb.cpu.get_sp(), 0xFFFE);
}

#[test]
fn conditional_call_and_return() {
    // LD SP,0xFFFE ; XOR A ; CALL NZ,0x0040 (not taken) ; RET NZ (not taken) ; RST 0x10 ; 0x10: RET Z
    let mut gb = at(&[(0, &[0x31, 0xFE, 0xFF, 0xAF, 0xC4, 0x40, 0x00, 0xC0, 0xD7]), (0x10, &[0xC8])]);
    assert_eq!(gb.step(), Ok(3));
    assert_eq!(gb.step(), Ok(1));
    assert_eq!(gb.step(), Ok(3));
    assert_eq!(gb.cpu.get_pc(), 7);
    assert_eq!(gb.step(), Ok(2));
    assert_eq!(gb.cpu.get_pc(), 8);
    assert_eq!(gb.step(), Ok(4));
    assert_eq!(gb.cpu.get_pc(), 0x10);
    assert_eq!(gb.step(), Ok(5));
    assert_eq!(gb.cpu.get_pc(), 9);
    assert_eq!(gb.cpu.get_sp(), 0xFFFE);
}

#[test]
fn reti_enables_interrupts() {
    // LD SP,0xFFFE ; CALL 0x0010 ; 0x0010: RETI
    let mut gb = at(&[(0, &[0x31, 0xFE, 0xFF, 0xCD, 0x10, 0x00]), (0x10, &[0xD9])]);
    assert_eq!(gb.step(), Ok(3));
    assert_eq!(gb.step(), Ok(6));
    assert!(!gb.cpu.ime);
    assert_eq!(gb.step(), Ok(4));
    assert!(gb.cpu.ime);
    assert_eq!(gb.cpu.get_pc(), 6);
}

#[test]
fn high_page_and_absolute_loads() {
    // LD A,0x42 ; LDH [0x80],A ; LD C,0x81 ; LD [C],A ; LD [0xC000],A ; LD A,0 ; LDH A,[0x80] ; LD A,[0xC000] ; LD A,[C]
    let mut gb = machine_with(&[
        0x3E, 0x42, 0xE0, 0x80, 0x0E, 0x81, 0xE2, 0xEA, 0x00, 0xC0, 0x3E, 0x00, 0xF0, 0x80, 0xFA, 0x00, 0xC0,
        0xF2,
    ]);
    assert_eq!(gb.step(), Ok(2));
    assert_eq!(gb.step(), Ok(3));
    assert_eq!(gb.bus.read(0xFF80), Ok(0x42));
    assert_eq!(gb.step(), Ok(2));
    assert_eq!(gb.step(), Ok(2));
    assert_eq!(gb.bus.read(0xFF81), Ok(0x42));
    assert_eq!(gb.step(), Ok(4));
    assert_eq!(gb.bus.read(0xC000), Ok(0x42));
    assert_eq!(gb.step(), Ok(2));
    assert_eq!(gb.cpu.get_a(), 0);
    assert_eq!(gb.step(), Ok(3));
    assert_eq!(gb.cpu.get_a(), 0x42);
    assert_eq!(gb.step(), Ok(4));
    assert_eq!(gb.cpu.get_a(), 0x42);
    assert_eq!(gb.step(), Ok(2));
    assert_eq!(gb.cpu.get_a(), 0x42);
    assert_eq!(gb.cpu.get_pc(), 18);
}

#[test]
fn store_sp_little_endian() {
    // LD SP,0xBEEF ; LD [0xC000],SP
    let mut gb = machine_with(&[0x31, 0xEF, 0xBE, 0x08, 0x00, 0xC0]);
    assert_eq!(gb.step(), Ok(3));
    assert_eq!(gb.step(), Ok(5));
    assert_eq!(gb.bus.read(0xC000), Ok(0xEF));
    assert_eq!(gb.bus.read(0xC001), Ok(0xBE));
}

#[test]
fn add_hl_flags() {
    // LD HL,0x0FFF ; LD BC,0x0001 ; ADD HL,BC ; LD DE,0xF000 ; ADD HL,DE
    let mut gb = machine_with(&[0x21, 0xFF, 0x0F, 0x01, 0x01, 0x00, 0x09, 0x11, 0x00, 0xF0, 0x19]);
    assert_eq!(gb.step(), Ok(3));
    assert_eq!(gb.step(), Ok(3));
    assert_eq!(gb.step(), Ok(2));
    assert_eq!(gb.cpu.get_hl(), 0x1000);
    assert_eq!(gb.cpu.get_f(), 0x20);
    assert_eq!(gb.step(), Ok(3));
    assert_eq!(gb.step(), Ok(2));
    assert_eq!(gb.cpu.get_hl(), 0x0000);
    assert_eq!(gb.cpu.get_f(), 0x10);
}

#[test]
fn accumulator_rotations() {
    // LD A,0x85 ; RLCA ; RRA ; RRCA ; RLA
    let mut gb = machine_with(&[0x3E, 0x85, 0x07, 0x1F, 0x0F, 0x17]);
    assert_eq!(gb.step(), Ok(2));
    assert_eq!(gb.step(), Ok(1));
    assert_eq!(gb.cpu.get_a(), 0x0B);
    assert_eq!(gb.cpu.get_f(), 0x10);
    assert_eq!(gb.step(), Ok(1));
    assert_eq!(gb.cpu.get_a(), 0x85);
    assert_eq!(gb.cpu.get_f(), 0x10);
    assert_eq!(gb.step(), Ok(1));
    assert_eq!(gb.cpu.get_a(), 0xC2);
    assert_eq!(gb.cpu.get_f(), 0x10);
    assert_eq!(gb.step(), Ok(1));
    assert_eq!(gb.cpu.get_a(), 0x85);
    assert_eq!(gb.cpu.get_f(), 0x10);
}

#[test]
fn decimal_adjust_after_add_and_sub() {
    // LD A,0x45 ; LD B,0x38 ; ADD A,B ; DAA ; SUB A,B ; DAA
    let mut gb = machine_with(&[0x3E, 0x45, 0x06, 0x38, 0x80, 0x27, 0x90, 0x27]);
    assert_eq!(gb.step(), Ok(2));
    assert_eq!(gb.step(), Ok(2));
    assert_eq!(gb.step(), Ok(1));
    assert_eq!(gb.cpu.get_a(), 0x7D);
    assert_eq!(gb.step(), Ok(1));
    assert_eq!(gb.cpu.get_a(), 0x83);
    assert_eq!(gb.cpu.get_f(), 0x00);
    assert_eq!(gb.step(), Ok(1));
    assert_eq!(gb.cpu.get_a(), 0x4B);
    assert_eq!(gb.step(), Ok(1));
    assert_eq!(gb.cpu.get_a(), 0x45);
    assert_eq!(gb.cpu.get_f(), 0x40);
}

#[test]
fn signed_offsets_from_sp() {
    // LD SP,0xFFF8 ; ADD SP,2 ; LD HL,SP-1 ; LD SP,HL
    let mut gb = machine_with(&[0x31, 0xF8, 0xFF, 0xE8, 0x02, 0xF8, 0xFF, 0xF9]);
    assert_eq!(gb.step(), Ok(3));
    assert_eq!(gb.step(), Ok(4));
    assert_eq!(gb.cpu.get_sp(), 0xFFFA);
    assert_eq!(gb.cpu.get_f(), 0x00);
    assert_eq!(gb.step(), Ok(3));
    assert_eq!(gb.cpu.get_hl(), 0xFFF9);
    assert_eq!(gb.cpu.get_f(), 0x30);
    assert_eq!(gb.step(), Ok(2));
    assert_eq!(gb.cpu.get_sp(), 0xFFF9);
}

#[test]
fn prefixed_bit_operations() {
    // LD B,0x80 ; RLC B ; BIT 7,A ; LD HL,0xC000 ; SET 0,[HL] ; BIT 0,[HL] ; RES 0,[HL] ; LD A,0xF1 ; SWAP A
    let mut gb = machine_with(&[
        0x06, 0x80, 0xCB, 0x00, 0xCB, 0x7F, 0x21, 0x00, 0xC0, 0xCB, 0xC6, 0xCB, 0x46, 0xCB, 0x86, 0x3E, 0xF1,
        0xCB, 0x37,
    ]);
    assert_eq!(gb.step(), Ok(2));
    assert_eq!(gb.step(), Ok(2));
    assert_eq!(gb.cpu.get_b(), 0x01);
    assert_eq!(gb.cpu.get_f(), 0x10);
    assert_eq!(gb.step(), Ok(2));
    assert_eq!(gb.cpu.get_f(), 0xB0);
    assert_eq!(gb.step(), Ok(3));
    assert_eq!(gb.step(), Ok(4));
    assert_eq!(gb.bus.read(0xC000), Ok(0x01));
    assert_eq!(gb.step(), Ok(3));
    assert_eq!(gb.cpu.get_f(), 0x30);
    assert_eq!(gb.step(), Ok(4));
    assert_eq!(gb.bus.read(0xC000), Ok(0x00));
    assert_eq!(gb.step(), Ok(2));
    assert_eq!(gb.step(), Ok(2));
    assert_eq!(gb.cpu.get_a(), 0x1F);
    assert_eq!(gb.cpu.get_f(), 0x00);
}

#[test]
fn shift_exact_values() {
    assert_eq!(run_shift(0, 0x85, false), (0x0B, true));
    assert_eq!(run_shift(1, 0x01, false), (0x80, true));
    assert_eq!(run_shift(2, 0x80, true), (0x01, true));
    assert_eq!(run_shift(3, 0x01, false), (0x00, true));
    assert_eq!(run_shift(4, 0xFF, false), (0xFE, true));
    assert_eq!(run_shift(5, 0x81, false), (0xC0, true));
    assert_eq!(run_shift(6, 0xAB, true), (0xBA, false));
    assert_eq!(run_shift(7, 0x80, true), (0x40, false));
}

#[test]
fn undefined_opcodes_are_refused() {
    for op in [0xD3u8, 0xDB, 0xDD, 0xE3, 0xE4, 0xEB, 0xEC, 0xED, 0xF4, 0xFC, 0xFD] {
        let mut gb = machine_with(&[op]);
        assert_eq!(gb.step(), Err(CpuError::IllegalOpcode(op)));
        assert_eq!(gb.cpu.get_pc(), 0);
    }
}

#[test]
fn every_defined_opcode_steps() {
    let undefined = [0xD3u8, 0xDB, 0xDD, 0xE3, 0xE4, 0xEB, 0xEC, 0xED, 0xF4, 0xFC, 0xFD];
    for op in 0u16..=0xFF {
        let op = op as u8;
        let mut gb = machine_with(&[op, 0x00, 0x00]);
        let r = gb.step();
        if undefined.contains(&op) {
            assert!(r.is_err());
        } else {
            assert!(r.is_ok(), "opcode {:#04x}", op);
        }
    }
}
