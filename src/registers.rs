use vstd::prelude::*;

verus! {

/// High byte of a 16-bit register pair.
pub open spec fn hi(v: u16) -> u8 {
    (v / 256) as u8
}

/// Low byte of a 16-bit register pair.
pub open spec fn lo(v: u16) -> u8 {
    (v % 256) as u8
}

/// The 16-bit value made of a high and a low byte.
pub open spec fn join(h: u8, l: u8) -> u16 {
    (h as int * 256 + l as int) as u16
}

/// The value that the flag register can hold: its four low bits are zero.
pub open spec fn flags_only(v: u16) -> u16 {
    (v - v % 16) as u16
}

/// Byte-level facts used for every pair.
pub proof fn lemma_split_join(v: u16)
    ensures
        join(hi(v), lo(v)) == v,
        hi(v) as int == v as int / 256,
        lo(v) as int == v as int % 256,
{
}

/// The four meaningful bits of F.
#[derive(Clone, Copy, PartialEq, Eq, Structural, Debug)]
pub enum Flag {
    Zero,
    Subtraction,
    HalfCarry,
    Carry,
}

impl Flag {
    /// Bit position of the flag within AF.
    pub open spec fn index(self) -> u16 {
        match self {
            Flag::Zero => 7,
            Flag::Subtraction => 6,
            Flag::HalfCarry => 5,
            Flag::Carry => 4,
        }
    }

    pub fn get_af_index(&self) -> (r: u16)
        ensures
            r == self.index(),
    {
        match self {
            Flag::Zero => 7,
            Flag::Subtraction => 6,
            Flag::HalfCarry => 5,
            Flag::Carry => 4,
        }
    }
}

/// Whether a flag is set in an AF value.
pub open spec fn flag_of(af: u16, flag: Flag) -> bool {
    (af >> flag.index()) & 1 == 1
}

/// AF with one flag bit forced to the given value.
pub open spec fn with_flag(af: u16, flag: Flag, on: bool) -> u16 {
    if on {
        af | (1u16 << flag.index())
    } else {
        af & !(1u16 << flag.index())
    }
}

/// Setting a flag changes that flag alone and keeps the low bits of F zero.
pub proof fn lemma_with_flag(af: u16, flag: Flag, on: bool, other: Flag)
    ensures
        flag_of(with_flag(af, flag, on), other) == if other == flag { on } else { flag_of(af, other) },
        af % 16 == 0 ==> with_flag(af, flag, on) % 16 == 0,
        hi(with_flag(af, flag, on)) == hi(af),
{
    let i = flag.index();
    let j = other.index();
    assert(4 <= i < 8 && 4 <= j < 8);
    assert(4 <= i < 8 && 4 <= j < 8 ==> (
        ((af | (1u16 << i)) >> j) & 1 == if i == j { 1u16 } else { (af >> j) & 1 })
        && (((af & !(1u16 << i)) >> j) & 1 == if i == j { 0u16 } else { (af >> j) & 1 })
        && (af % 16 == 0 ==> (af | (1u16 << i)) % 16 == 0 && (af & !(1u16 << i)) % 16 == 0)
        && (af | (1u16 << i)) / 256 == af / 256 && (af & !(1u16 << i)) / 256 == af / 256)
        by (bit_vector);
    assert(i == j <==> other == flag);
}

/// The six 16-bit registers and the CPU's control state.
pub struct Cpu {
    pub af: u16,
    pub bc: u16,
    pub de: u16,
    pub hl: u16,
    pub sp: u16,
    pub pc: u16,
    /// Set by HALT and STOP: stepping idles until an interrupt is signalled.
    pub halted: bool,
    /// Interrupt master enable, toggled by DI and EI.
    pub ime: bool,
    /// An interrupt condition signalled from outside the core.
    pub interrupt_pending: bool,
}

impl Cpu {
    /// The four low bits of F are always zero.
    pub open spec fn wf(&self) -> bool {
        self.af % 16 == 0
    }

    /// The CPU at power-on.
    pub open spec fn new_spec() -> Cpu {
        Cpu { af: 0, bc: 0, de: 0, hl: 0, sp: 0, pc: 0, halted: false, ime: false, interrupt_pending: false }
    }

    /// A CPU with every register zero and no control flag set.
    pub fn new() -> (r: Cpu)
        ensures
            r.wf(),
            r == Cpu::new_spec(),
    {
        Cpu { af: 0, bc: 0, de: 0, hl: 0, sp: 0, pc: 0, halted: false, ime: false, interrupt_pending: false }
    }

    pub fn get_af(&self) -> (r: u16)
        ensures
            r == self.af,
    {
        self.af
    }

    pub fn get_bc(&self) -> (r: u16)
        ensures
            r == self.bc,
    {
        self.bc
    }

    pub fn get_de(&self) -> (r: u16)
        ensures
            r == self.de,
    {
        self.de
    }

    pub fn get_hl(&self) -> (r: u16)
        ensures
            r == self.hl,
    {
        self.hl
    }

    pub fn get_sp(&self) -> (r: u16)
        ensures
            r == self.sp,
    {
        self.sp
    }

    pub fn get_pc(&self) -> (r: u16)
        ensures
            r == self.pc,
    {
        self.pc
    }

    pub fn get_a(&self) -> (r: u8)
        ensures
            r == hi(self.af),
    {
        high_byte(self.af)
    }

    pub fn get_f(&self) -> (r: u8)
        ensures
            r == lo(self.af),
    {
        low_byte(self.af)
    }

    pub fn get_b(&self) -> (r: u8)
        ensures
            r == hi(self.bc),
    {
        high_byte(self.bc)
    }

    pub fn get_c(&self) -> (r: u8)
        ensures
            r == lo(self.bc),
    {
        low_byte(self.bc)
    }

    pub fn get_d(&self) -> (r: u8)
        ensures
            r == hi(self.de),
    {
        high_byte(self.de)
    }

    pub fn get_e(&self) -> (r: u8)
        ensures
            r == lo(self.de),
    {
        low_byte(self.de)
    }

    pub fn get_h(&self) -> (r: u8)
        ensures
            r == hi(self.hl),
    {
        high_byte(self.hl)
    }

    pub fn get_l(&self) -> (r: u8)
        ensures
            r == lo(self.hl),
    {
        low_byte(self.hl)
    }

    pub fn set_a(&mut self, val: u8)
        ensures
            *final(self) == (Cpu { af: join(val, lo(old(self).af)), ..*old(self) }),
    {
        self.af = with_high(self.af, val);
    }

    pub fn set_b(&mut self, val: u8)
        ensures
            *final(self) == (Cpu { bc: join(val, lo(old(self).bc)), ..*old(self) }),
    {
        self.bc = with_high(self.bc, val);
    }

    pub fn set_c(&mut self, val: u8)
        ensures
            *final(self) == (Cpu { bc: join(hi(old(self).bc), val), ..*old(self) }),
    {
        self.bc = with_low(self.bc, val);
    }

    pub fn set_d(&mut self, val: u8)
        ensures
            *final(self) == (Cpu { de: join(val, lo(old(self).de)), ..*old(self) }),
    {
        self.de = with_high(self.de, val);
    }

    pub fn set_e(&mut self, val: u8)
        ensures
            *final(self) == (Cpu { de: join(hi(old(self).de), val), ..*old(self) }),
    {
        self.de = with_low(self.de, val);
    }

    pub fn set_h(&mut self, val: u8)
        ensures
            *final(self) == (Cpu { hl: join(val, lo(old(self).hl)), ..*old(self) }),
    {
        self.hl = with_high(self.hl, val);
    }

    pub fn set_l(&mut self, val: u8)
        ensures
            *final(self) == (Cpu { hl: join(hi(old(self).hl), val), ..*old(self) }),
    {
        self.hl = with_low(self.hl, val);
    }

    /// Stores F; its four low bits are cleared.
    pub fn set_f(&mut self, val: u8)
        ensures
            *final(self) == (Cpu { af: join(hi(old(self).af), (val - val % 16) as u8), ..*old(self) }),
    {
        proof {
            assert(val & 0xF0u8 == val - val % 16) by (bit_vector);
        }
        self.af = with_low(self.af, val & 0xF0u8);
    }

    pub fn get_flag(&self, flag: Flag) -> (r: bool)
        ensures
            r == flag_of(self.af, flag),
    {
        (self.af >> flag.get_af_index()) & 1 == 1
    }

    /// Sets or clears one flag, leaving the other bits of AF as they were.
    pub fn set_flag(&mut self, flag: Flag, on: bool)
        ensures
            *final(self) == (Cpu { af: with_flag(old(self).af, flag, on), ..*old(self) }),
    {
        let i = flag.get_af_index();
        if on {
            self.af = self.af | (1u16 << i);
        } else {
            self.af = self.af & !(1u16 << i);
        }
    }

    /// Stores A and F together; the four low bits of F are cleared.
    pub fn set_af_bytes(&mut self, a: u8, f: u8)
        ensures
            *final(self) == (Cpu { af: join(a, (f - f % 16) as u8), ..*old(self) }),
    {
        proof {
            assert(f & 0xF0u8 == f - f % 16) by (bit_vector);
        }
        self.af = make_word(a, f & 0xF0u8);
    }

    /// Stores AF; the four low bits of F are cleared.
    pub fn set_af(&mut self, val: u16)
        ensures
            *final(self) == (Cpu { af: flags_only(val), ..*old(self) }),
    {
        proof {
            assert(val & 0xFFF0 == val - val % 16) by (bit_vector);
        }
        self.af = val & 0xFFF0;
    }

    pub fn set_bc(&mut self, val: u16)
        ensures
            *final(self) == (Cpu { bc: val, ..*old(self) }),
    {
        self.bc = val;
    }

    pub fn set_de(&mut self, val: u16)
        ensures
            *final(self) == (Cpu { de: val, ..*old(self) }),
    {
        self.de = val;
    }

    pub fn set_hl(&mut self, val: u16)
        ensures
            *final(self) == (Cpu { hl: val, ..*old(self) }),
    {
        self.hl = val;
    }

    pub fn set_sp(&mut self, val: u16)
        ensures
            *final(self) == (Cpu { sp: val, ..*old(self) }),
    {
        self.sp = val;
    }

    pub fn set_pc(&mut self, val: u16)
        ensures
            *final(self) == (Cpu { pc: val, ..*old(self) }),
    {
        self.pc = val;
    }
}

/// The word made of a high and a low byte.
pub fn make_word(h: u8, l: u8) -> (r: u16)
    ensures
        r == join(h, l),
{
    proof {
        assert((((h as u16) << 8u16) | (l as u16)) == (h as int * 256 + l as int) as u16) by (bit_vector);
    }
    ((h as u16) << 8u16) | (l as u16)
}

/// The halves of a joined word are the bytes it was made of.
pub proof fn lemma_join_parts(h: u8, l: u8)
    ensures
        hi(join(h, l)) == h,
        lo(join(h, l)) == l,
        join(h, l) % 16 == l % 16,
{
}

/// Storing a pair and reading its two halves back gives the stored value;
/// for AF the value comes back with the four low bits of F cleared. Storing
/// one half leaves the other as it was.
pub proof fn lemma_pair_round_trip(cpu: Cpu, v: u16, h: u8, l: u8)
    ensures
        join(hi((Cpu { bc: v, ..cpu }).bc), lo((Cpu { bc: v, ..cpu }).bc)) == v,
        join(hi((Cpu { de: v, ..cpu }).de), lo((Cpu { de: v, ..cpu }).de)) == v,
        join(hi((Cpu { hl: v, ..cpu }).hl), lo((Cpu { hl: v, ..cpu }).hl)) == v,
        join(hi((Cpu { af: flags_only(v), ..cpu }).af), lo((Cpu { af: flags_only(v), ..cpu }).af))
            == flags_only(v),
        flags_only(v) as int == v - v % 16,
        hi(join(h, lo(v))) == h && lo(join(h, lo(v))) == lo(v),
        hi(join(hi(v), l)) == hi(v) && lo(join(hi(v), l)) == l,
{
    lemma_split_join(v);
    lemma_split_join(flags_only(v));
    lemma_join_parts(h, lo(v));
    lemma_join_parts(hi(v), l);
}

/// High byte of a pair, computed.
pub fn high_byte(v: u16) -> (r: u8)
    ensures
        r == hi(v),
{
    proof {
        assert((v >> 8u16) as u8 == (v / 256) as u8) by (bit_vector);
    }
    (v >> 8u16) as u8
}

/// Low byte of a pair, computed.
pub fn low_byte(v: u16) -> (r: u8)
    ensures
        r == lo(v),
{
    proof {
        assert((v & 0xFFu16) as u8 == (v % 256) as u8) by (bit_vector);
    }
    (v & 0xFFu16) as u8
}

/// Pair with its high byte replaced.
fn with_high(v: u16, h: u8) -> (r: u16)
    ensures
        r == join(h, lo(v)),
{
    proof {
        assert((((h as u16) << 8u16) | (v & 0xFFu16)) == (h as int * 256 + (v % 256)) as u16)
            by (bit_vector);
    }
    ((h as u16) << 8u16) | (v & 0xFFu16)
}

/// Pair with its low byte replaced.
fn with_low(v: u16, l: u8) -> (r: u16)
    ensures
        r == join(hi(v), l),
{
    proof {
        assert(((v & 0xFF00u16) | (l as u16)) == ((v / 256) as u8 as int * 256 + l as int) as u16)
            by (bit_vector);
    }
    (v & 0xFF00u16) | (l as u16)
}

} // verus!
