use vstd::prelude::*;
use crate::bus::{Bus, MMDevice, UNUSABLE_SENTINEL, target};
use crate::decode::CpuError;
use crate::engine::{follows, step_spec};
use crate::registers::Cpu;

verus! {

/// The whole machine: the CPU and the bus it drives.
pub struct GameBoy {
    pub cpu: Cpu,
    pub bus: Bus,
}

impl GameBoy {
    pub open spec fn wf(&self) -> bool {
        self.cpu.wf() && self.bus.wf()
    }

    /// A machine at power-on: a zeroed CPU and zeroed memory.
    pub fn new() -> (r: GameBoy)
        ensures
            r.wf(),
            r.cpu == Cpu::new_spec(),
            forall|a: int| 0 <= a < 0x10000 ==> #[trigger] r.bus.byte_at(a) == if target(a).0 == MMDevice::Unusable {
                UNUSABLE_SENTINEL
            } else {
                0u8
            },
    {
        GameBoy { cpu: Cpu::new(), bus: Bus::new() }
    }

    /// Copies a cartridge image into the ROM windows.
    pub fn load_rom(&mut self, image: &Vec<u8>)
        requires
            old(self).wf(),
        ensures
            final(self).wf(),
            final(self).cpu == old(self).cpu,
            forall|a: int| 0 <= a < 0x10000 ==> #[trigger] final(self).bus.byte_at(a) == if a < 0x8000 && a < image@.len() {
                image@[a]
            } else {
                old(self).bus.byte_at(a)
            },
    {
        self.bus.load_rom(image);
    }

    /// Runs one step of the CPU against the bus.
    pub fn step(&mut self) -> (r: Result<u8, CpuError>)
        requires
            old(self).wf(),
        ensures
            final(self).wf(),
            follows(old(self).cpu, old(self).bus, final(self).cpu, final(self).bus, r, step_spec(old(self).cpu, old(self).bus)),
    {
        self.cpu.step(&mut self.bus)
    }
}

} // verus!
