use vstd::prelude::*;
use crate::bus::{Bus, MemoryAccessError};
use crate::registers::{Cpu, Flag, flag_of, flags_only, hi, join, lo};

verus! {

/// Why a step did not complete.
#[derive(Clone, Copy, PartialEq, Eq, Structural, Debug)]
pub enum CpuError {
    /// A device refused a bus access.
    MemoryAccessError(MemoryAccessError),
    /// A decoded operand field was out of range.
    OperandError,
    /// An opcode that the processor does not define.
    IllegalOpcode(u8),
}

impl From<MemoryAccessError> for CpuError {
    fn from(value: MemoryAccessError) -> (r: CpuError) {
        CpuError::MemoryAccessError(value)
    }
}

impl vstd::std_specs::convert::FromSpecImpl<MemoryAccessError> for CpuError {
    open spec fn obeys_from_spec() -> bool {
        true
    }

    open spec fn from_spec(v: MemoryAccessError) -> CpuError {
        CpuError::MemoryAccessError(v)
    }
}

/// The 8-bit operands selected by a 3-bit field.
#[derive(Clone, Copy, PartialEq, Eq, Structural, Debug)]
pub enum R8 {
    B,
    C,
    D,
    E,
    H,
    L,
    HLPointer,
    A,
}

/// The register pairs selected by a 2-bit field.
#[derive(Clone, Copy, PartialEq, Eq, Structural, Debug)]
pub enum R16 {
    BC,
    DE,
    HL,
    SP,
}

/// The pairs of the stack forms: AF stands where SP stands in `R16`.
#[derive(Clone, Copy, PartialEq, Eq, Structural, Debug)]
pub enum R16Stk {
    BC,
    DE,
    HL,
    AF,
}

/// The addressing pairs: HL with post-increment or post-decrement stands
/// where HL and SP stand in `R16`.
#[derive(Clone, Copy, PartialEq, Eq, Structural, Debug)]
pub enum R16Mem {
    BC,
    DE,
    HLI,
    HLD,
}

impl R8 {
    pub open spec fn of(i: u8) -> R8 {
        if i == 0 {
            R8::B
        } else if i == 1 {
            R8::C
        } else if i == 2 {
            R8::D
        } else if i == 3 {
            R8::E
        } else if i == 4 {
            R8::H
        } else if i == 5 {
            R8::L
        } else if i == 6 {
            R8::HLPointer
        } else {
            R8::A
        }
    }

    pub fn try_from(value: u8) -> (r: Result<R8, CpuError>)
        ensures
            value < 8 ==> r == Ok::<R8, CpuError>(R8::of(value)),
            value >= 8 ==> r == Err::<R8, CpuError>(CpuError::OperandError),
    {
        match value {
            0 => Ok(R8::B),
            1 => Ok(R8::C),
            2 => Ok(R8::D),
            3 => Ok(R8::E),
            4 => Ok(R8::H),
            5 => Ok(R8::L),
            6 => Ok(R8::HLPointer),
            7 => Ok(R8::A),
            _ => Err(CpuError::OperandError),
        }
    }
}

impl R16 {
    pub open spec fn of(i: u8) -> R16 {
        if i == 0 {
            R16::BC
        } else if i == 1 {
            R16::DE
        } else if i == 2 {
            R16::HL
        } else {
            R16::SP
        }
    }

    pub fn try_from(value: u8) -> (r: Result<R16, CpuError>)
        ensures
            value < 4 ==> r == Ok::<R16, CpuError>(R16::of(value)),
            value >= 4 ==> r == Err::<R16, CpuError>(CpuError::OperandError),
    {
        match value {
            0 => Ok(R16::BC),
            1 => Ok(R16::DE),
            2 => Ok(R16::HL),
            3 => Ok(R16::SP),
            _ => Err(CpuError::OperandError),
        }
    }
}

impl R16Stk {
    pub open spec fn of(i: u8) -> R16Stk {
        if i == 0 {
            R16Stk::BC
        } else if i == 1 {
            R16Stk::DE
        } else if i == 2 {
            R16Stk::HL
        } else {
            R16Stk::AF
        }
    }

    pub fn try_from(value: u8) -> (r: Result<R16Stk, CpuError>)
        ensures
            value < 4 ==> r == Ok::<R16Stk, CpuError>(R16Stk::of(value)),
            value >= 4 ==> r == Err::<R16Stk, CpuError>(CpuError::OperandError),
    {
        match value {
            0 => Ok(R16Stk::BC),
            1 => Ok(R16Stk::DE),
            2 => Ok(R16Stk::HL),
            3 => Ok(R16Stk::AF),
            _ => Err(CpuError::OperandError),
        }
    }
}

impl R16Mem {
    pub open spec fn of(i: u8) -> R16Mem {
        if i == 0 {
            R16Mem::BC
        } else if i == 1 {
            R16Mem::DE
        } else if i == 2 {
            R16Mem::HLI
        } else {
            R16Mem::HLD
        }
    }

    pub fn try_from(value: u8) -> (r: Result<R16Mem, CpuError>)
        ensures
            value < 4 ==> r == Ok::<R16Mem, CpuError>(R16Mem::of(value)),
            value >= 4 ==> r == Err::<R16Mem, CpuError>(CpuError::OperandError),
    {
        match value {
            0 => Ok(R16Mem::BC),
            1 => Ok(R16Mem::DE),
            2 => Ok(R16Mem::HLI),
            3 => Ok(R16Mem::HLD),
            _ => Err(CpuError::OperandError),
        }
    }
}

/// 16-bit wrapping increment.
pub open spec fn inc16(v: u16) -> u16 {
    ((v + 1) % 0x10000) as u16
}

/// 16-bit wrapping decrement.
pub open spec fn dec16(v: u16) -> u16 {
    ((v + 0xFFFF) % 0x10000) as u16
}

/// The value of a register pair.
pub open spec fn pair_value(cpu: Cpu, p: R16) -> u16 {
    match p {
        R16::BC => cpu.bc,
        R16::DE => cpu.de,
        R16::HL => cpu.hl,
        R16::SP => cpu.sp,
    }
}

/// The CPU with a register pair replaced.
pub open spec fn with_pair(cpu: Cpu, p: R16, v: u16) -> Cpu {
    match p {
        R16::BC => Cpu { bc: v, ..cpu },
        R16::DE => Cpu { de: v, ..cpu },
        R16::HL => Cpu { hl: v, ..cpu },
        R16::SP => Cpu { sp: v, ..cpu },
    }
}

/// The value of a stack-form pair.
pub open spec fn stk_value(cpu: Cpu, p: R16Stk) -> u16 {
    match p {
        R16Stk::BC => cpu.bc,
        R16Stk::DE => cpu.de,
        R16Stk::HL => cpu.hl,
        R16Stk::AF => cpu.af,
    }
}

/// The CPU with a stack-form pair replaced; F keeps its low bits clear.
pub open spec fn with_stk(cpu: Cpu, p: R16Stk, v: u16) -> Cpu {
    match p {
        R16Stk::BC => Cpu { bc: v, ..cpu },
        R16Stk::DE => Cpu { de: v, ..cpu },
        R16Stk::HL => Cpu { hl: v, ..cpu },
        R16Stk::AF => Cpu { af: flags_only(v), ..cpu },
    }
}

/// The value of an 8-bit operand; `[HL]` is the byte at HL.
pub open spec fn r8_value(cpu: Cpu, bus: Bus, r: R8) -> u8 {
    match r {
        R8::B => hi(cpu.bc),
        R8::C => lo(cpu.bc),
        R8::D => hi(cpu.de),
        R8::E => lo(cpu.de),
        R8::H => hi(cpu.hl),
        R8::L => lo(cpu.hl),
        R8::HLPointer => bus.byte_at(cpu.hl as int),
        R8::A => hi(cpu.af),
    }
}

/// The CPU with an 8-bit register replaced (`[HL]` leaves it as it is).
pub open spec fn with_r8(cpu: Cpu, r: R8, v: u8) -> Cpu {
    match r {
        R8::B => Cpu { bc: join(v, lo(cpu.bc)), ..cpu },
        R8::C => Cpu { bc: join(hi(cpu.bc), v), ..cpu },
        R8::D => Cpu { de: join(v, lo(cpu.de)), ..cpu },
        R8::E => Cpu { de: join(hi(cpu.de), v), ..cpu },
        R8::H => Cpu { hl: join(v, lo(cpu.hl)), ..cpu },
        R8::L => Cpu { hl: join(hi(cpu.hl), v), ..cpu },
        R8::HLPointer => cpu,
        R8::A => Cpu { af: join(v, lo(cpu.af)), ..cpu },
    }
}

/// Whether a condition code holds: NZ, Z, NC, C.
pub open spec fn condition_holds(af: u16, cond: u8) -> bool {
    if cond == 0 {
        !flag_of(af, Flag::Zero)
    } else if cond == 1 {
        flag_of(af, Flag::Zero)
    } else if cond == 2 {
        !flag_of(af, Flag::Carry)
    } else {
        flag_of(af, Flag::Carry)
    }
}

impl Cpu {
    /// The value of a register pair.
    pub fn get_pair(&self, p: R16) -> (r: u16)
        ensures
            r == pair_value(*self, p),
    {
        match p {
            R16::BC => self.get_bc(),
            R16::DE => self.get_de(),
            R16::HL => self.get_hl(),
            R16::SP => self.get_sp(),
        }
    }

    /// Replaces a register pair.
    pub fn set_pair(&mut self, p: R16, val: u16)
        ensures
            *final(self) == with_pair(*old(self), p, val),
    {
        match p {
            R16::BC => self.set_bc(val),
            R16::DE => self.set_de(val),
            R16::HL => self.set_hl(val),
            R16::SP => self.set_sp(val),
        }
    }

    /// Returns a pair's value and stores it plus one, wrapping.
    pub fn take_and_increment(&mut self, p: R16) -> (r: u16)
        ensures
            r == pair_value(*old(self), p),
            *final(self) == with_pair(*old(self), p, inc16(r)),
    {
        let v = self.get_pair(p);
        self.set_pair(p, v.wrapping_add(1));
        v
    }

    /// Returns a pair's value and stores it minus one, wrapping.
    pub fn take_and_decrement(&mut self, p: R16) -> (r: u16)
        ensures
            r == pair_value(*old(self), p),
            *final(self) == with_pair(*old(self), p, dec16(r)),
    {
        let v = self.get_pair(p);
        self.set_pair(p, v.wrapping_sub(1));
        v
    }

    /// The 8-bit operand selected by a 3-bit field; `[HL]` reads the bus.
    pub fn get_r8(&self, r8: u8, bus: &mut Bus) -> (r: Result<u8, CpuError>)
        requires
            old(bus).wf(),
        ensures
            *final(bus) == *old(bus),
            r8 < 8 ==> r == Ok::<u8, CpuError>(r8_value(*self, *old(bus), R8::of(r8))),
            r8 >= 8 ==> r == Err::<u8, CpuError>(CpuError::OperandError),
    {
        let reg = R8::try_from(r8)?;
        match reg {
            R8::B => Ok(self.get_b()),
            R8::C => Ok(self.get_c()),
            R8::D => Ok(self.get_d()),
            R8::E => Ok(self.get_e()),
            R8::H => Ok(self.get_h()),
            R8::L => Ok(self.get_l()),
            R8::HLPointer => match bus.read(self.get_hl()) {
                Ok(v) => Ok(v),
                Err(e) => Err(CpuError::from(e)),
            },
            R8::A => Ok(self.get_a()),
        }
    }

    /// Stores into the 8-bit operand selected by a 3-bit field; `[HL]`
    /// writes the bus.
    pub fn set_r8(&mut self, r8: u8, val: u8, bus: &mut Bus) -> (r: Result<(), CpuError>)
        requires
            old(bus).wf(),
        ensures
            r8 < 8 ==> r is Ok,
            r8 < 8 ==> *final(self) == with_r8(*old(self), R8::of(r8), val),
            r8 < 8 && R8::of(r8) == R8::HLPointer ==> old(bus).written(*final(bus), old(self).hl as int, val),
            r8 < 8 && R8::of(r8) != R8::HLPointer ==> *final(bus) == *old(bus),
            r8 >= 8 ==> r == Err::<(), CpuError>(CpuError::OperandError) && *final(self) == *old(self)
                && *final(bus) == *old(bus),
    {
        let reg = R8::try_from(r8)?;
        match reg {
            R8::B => self.set_b(val),
            R8::C => self.set_c(val),
            R8::D => self.set_d(val),
            R8::E => self.set_e(val),
            R8::H => self.set_h(val),
            R8::L => self.set_l(val),
            R8::HLPointer => {
                match bus.write(self.get_hl(), val) {
                    Ok(()) => {},
                    Err(e) => {
                        return Err(CpuError::from(e));
                    },
                }
            },
            R8::A => self.set_a(val),
        }
        Ok(())
    }

    /// The register pair selected by a 2-bit field.
    pub fn get_r16(&self, r16: u8) -> (r: Result<u16, CpuError>)
        ensures
            r16 < 4 ==> r == Ok::<u16, CpuError>(pair_value(*self, R16::of(r16))),
            r16 >= 4 ==> r == Err::<u16, CpuError>(CpuError::OperandError),
    {
        let p = R16::try_from(r16)?;
        Ok(self.get_pair(p))
    }

    /// The stack-form pair selected by a 2-bit field.
    pub fn get_r16_stk(&self, r16_stk: u8) -> (r: Result<u16, CpuError>)
        ensures
            r16_stk < 4 ==> r == Ok::<u16, CpuError>(stk_value(*self, R16Stk::of(r16_stk))),
            r16_stk >= 4 ==> r == Err::<u16, CpuError>(CpuError::OperandError),
    {
        let p = R16Stk::try_from(r16_stk)?;
        match p {
            R16Stk::BC => Ok(self.get_bc()),
            R16Stk::DE => Ok(self.get_de()),
            R16Stk::HL => Ok(self.get_hl()),
            R16Stk::AF => Ok(self.get_af()),
        }
    }

    /// Stores into the stack-form pair selected by a 2-bit field.
    pub fn set_r16_stk(&mut self, r16_stk: u8, val: u16) -> (r: Result<(), CpuError>)
        ensures
            r16_stk < 4 ==> r is Ok && *final(self) == with_stk(*old(self), R16Stk::of(r16_stk), val),
            r16_stk >= 4 ==> r == Err::<(), CpuError>(CpuError::OperandError) && *final(self) == *old(self),
    {
        let p = R16Stk::try_from(r16_stk)?;
        match p {
            R16Stk::BC => self.set_bc(val),
            R16Stk::DE => self.set_de(val),
            R16Stk::HL => self.set_hl(val),
            R16Stk::AF => self.set_af(val),
        }
        Ok(())
    }

    /// The address selected by a 2-bit addressing field. The HL forms
    /// return HL as it was and then step it up (index 2) or down (index 3),
    /// wrapping.
    pub fn get_r16_mem(&mut self, r16_mem: u8) -> (r: Result<u16, CpuError>)
        ensures
            r16_mem == 0 ==> r == Ok::<u16, CpuError>(old(self).bc) && *final(self) == *old(self),
            r16_mem == 1 ==> r == Ok::<u16, CpuError>(old(self).de) && *final(self) == *old(self),
            r16_mem == 2 ==> r == Ok::<u16, CpuError>(old(self).hl)
                && *final(self) == (Cpu { hl: inc16(old(self).hl), ..*old(self) }),
            r16_mem == 3 ==> r == Ok::<u16, CpuError>(old(self).hl)
                && *final(self) == (Cpu { hl: dec16(old(self).hl), ..*old(self) }),
            r16_mem >= 4 ==> r == Err::<u16, CpuError>(CpuError::OperandError) && *final(self) == *old(self),
    {
        let p = R16Mem::try_from(r16_mem)?;
        match p {
            R16Mem::BC => Ok(self.get_bc()),
            R16Mem::DE => Ok(self.get_de()),
            R16Mem::HLI => Ok(self.take_and_increment(R16::HL)),
            R16Mem::HLD => Ok(self.take_and_decrement(R16::HL)),
        }
    }

    /// Whether the condition selected by a 2-bit field holds: NZ, Z, NC, C.
    pub fn get_condition(&self, cond: u8) -> (r: Result<bool, CpuError>)
        ensures
            cond < 4 ==> r == Ok::<bool, CpuError>(condition_holds(self.af, cond)),
            cond >= 4 ==> r == Err::<bool, CpuError>(CpuError::OperandError),
    {
        match cond {
            0 => Ok(!self.get_flag(Flag::Zero)),
            1 => Ok(self.get_flag(Flag::Zero)),
            2 => Ok(!self.get_flag(Flag::Carry)),
            3 => Ok(self.get_flag(Flag::Carry)),
            _ => Err(CpuError::OperandError),
        }
    }
}

} // verus!
