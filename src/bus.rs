use vstd::prelude::*;

verus! {

/// The kind of physical region behind an address window.
#[derive(Clone, Copy, PartialEq, Eq, Structural, Debug)]
pub enum MMDevice {
    RomBank00,
    CartridgeRomBank,
    VideoRam,
    ExternalRam,
    WorkRam00,
    SwitchableBankWorkRam,
    EchoRam,
    ObjectAttributeMemory,
    Unusable,
    IoRegisters,
    HighRam,
    InterruptEnableRegister,
}

/// A device refused an access.
#[derive(Clone, Copy, PartialEq, Eq, Structural, Debug)]
pub enum MemoryAccessError {
    /// The device-local address lies outside the device's window.
    OutOfWindow { device: MMDevice, address: u16 },
}

/// One window of the memory map: `size` bytes starting at `base_address`.
#[derive(Clone, Copy, PartialEq, Eq, Structural, Debug)]
pub struct MMTableEntry {
    pub device: MMDevice,
    pub base_address: u16,
    pub size: u16,
}

impl MMTableEntry {
    pub fn new(device: MMDevice, base_address: u16, end_address: u16) -> (r: MMTableEntry)
        requires
            base_address <= end_address,
        ensures
            r == (MMTableEntry { device, base_address, size: (end_address - base_address) as u16 }),
    {
        MMTableEntry { device, base_address, size: end_address - base_address }
    }

    /// Whether the window holds an address.
    pub open spec fn contains(self, a: int) -> bool {
        self.base_address <= a < self.base_address + self.size
    }
}

/// Number of windows in the memory map.
pub const MEMORY_MAP_LEN: usize = 12;

/// The memory map, in scan order.
pub open spec fn map_entry(i: int) -> MMTableEntry {
    if i == 0 {
        MMTableEntry { device: MMDevice::RomBank00, base_address: 0x0000, size: 0x4000 }
    } else if i == 1 {
        MMTableEntry { device: MMDevice::CartridgeRomBank, base_address: 0x4000, size: 0x4000 }
    } else if i == 2 {
        MMTableEntry { device: MMDevice::VideoRam, base_address: 0x8000, size: 0x2000 }
    } else if i == 3 {
        MMTableEntry { device: MMDevice::ExternalRam, base_address: 0xA000, size: 0x2000 }
    } else if i == 4 {
        MMTableEntry { device: MMDevice::WorkRam00, base_address: 0xC000, size: 0x1000 }
    } else if i == 5 {
        MMTableEntry { device: MMDevice::SwitchableBankWorkRam, base_address: 0xD000, size: 0x1000 }
    } else if i == 6 {
        MMTableEntry { device: MMDevice::EchoRam, base_address: 0xE000, size: 0x1E00 }
    } else if i == 7 {
        MMTableEntry { device: MMDevice::ObjectAttributeMemory, base_address: 0xFE00, size: 0xA0 }
    } else if i == 8 {
        MMTableEntry { device: MMDevice::Unusable, base_address: 0xFEA0, size: 0x60 }
    } else if i == 9 {
        MMTableEntry { device: MMDevice::IoRegisters, base_address: 0xFF00, size: 0x80 }
    } else if i == 10 {
        MMTableEntry { device: MMDevice::HighRam, base_address: 0xFF80, size: 0x7F }
    } else {
        MMTableEntry { device: MMDevice::InterruptEnableRegister, base_address: 0xFFFF, size: 0x1 }
    }
}

/// Index of the window that holds an address.
pub open spec fn entry_index(a: int) -> int {
    if a < 0x4000 {
        0
    } else if a < 0x8000 {
        1
    } else if a < 0xA000 {
        2
    } else if a < 0xC000 {
        3
    } else if a < 0xD000 {
        4
    } else if a < 0xE000 {
        5
    } else if a < 0xFE00 {
        6
    } else if a < 0xFEA0 {
        7
    } else if a < 0xFF00 {
        8
    } else if a < 0xFF80 {
        9
    } else if a < 0xFFFF {
        10
    } else {
        11
    }
}

/// Index of the window of a device (each device has one window).
pub open spec fn device_index(d: MMDevice) -> int {
    match d {
        MMDevice::RomBank00 => 0,
        MMDevice::CartridgeRomBank => 1,
        MMDevice::VideoRam => 2,
        MMDevice::ExternalRam => 3,
        MMDevice::WorkRam00 => 4,
        MMDevice::SwitchableBankWorkRam => 5,
        MMDevice::EchoRam => 6,
        MMDevice::ObjectAttributeMemory => 7,
        MMDevice::Unusable => 8,
        MMDevice::IoRegisters => 9,
        MMDevice::HighRam => 10,
        MMDevice::InterruptEnableRegister => 11,
    }
}

/// Every address of the 16-bit space lies in exactly one window of the map,
/// the one at `entry_index`, and its device-local offset is its distance from
/// that window's base.
pub proof fn lemma_dispatch_unique(a: u16)
    ensures
        0 <= entry_index(a as int) < MEMORY_MAP_LEN,
        map_entry(entry_index(a as int)).contains(a as int),
        forall|i: int| 0 <= i < MEMORY_MAP_LEN && #[trigger] map_entry(i).contains(a as int)
            ==> i == entry_index(a as int),
        0 <= a - map_entry(entry_index(a as int)).base_address < map_entry(entry_index(a as int)).size,
{
}

/// The windows of distinct indices hold distinct devices.
pub proof fn lemma_device_index(i: int)
    requires
        0 <= i < MEMORY_MAP_LEN,
    ensures
        device_index(map_entry(i).device) == i,
{
}

/// The window at index `i` of the map.
pub fn memory_map_entry(i: usize) -> (r: MMTableEntry)
    requires
        i < MEMORY_MAP_LEN,
    ensures
        r == map_entry(i as int),
{
    match i {
        0 => MMTableEntry::new(MMDevice::RomBank00, 0x0000, 0x4000),
        1 => MMTableEntry::new(MMDevice::CartridgeRomBank, 0x4000, 0x8000),
        2 => MMTableEntry::new(MMDevice::VideoRam, 0x8000, 0xA000),
        3 => MMTableEntry::new(MMDevice::ExternalRam, 0xA000, 0xC000),
        4 => MMTableEntry::new(MMDevice::WorkRam00, 0xC000, 0xD000),
        5 => MMTableEntry::new(MMDevice::SwitchableBankWorkRam, 0xD000, 0xE000),
        6 => MMTableEntry::new(MMDevice::EchoRam, 0xE000, 0xFE00),
        7 => MMTableEntry::new(MMDevice::ObjectAttributeMemory, 0xFE00, 0xFEA0),
        8 => MMTableEntry::new(MMDevice::Unusable, 0xFEA0, 0xFF00),
        9 => MMTableEntry::new(MMDevice::IoRegisters, 0xFF00, 0xFF80),
        10 => MMTableEntry::new(MMDevice::HighRam, 0xFF80, 0xFFFF),
        _ => MMTableEntry { device: MMDevice::InterruptEnableRegister, base_address: 0xFFFF, size: 0x1 },
    }
}

/// The first window of the map that holds an address.
pub fn find_entry(address: u16) -> (r: MMTableEntry)
    ensures
        r == map_entry(entry_index(address as int)),
{
    proof {
        lemma_dispatch_unique(address);
    }
    let mut i: usize = 0;
    while i < MEMORY_MAP_LEN
        invariant
            0 <= i <= MEMORY_MAP_LEN,
            entry_index(address as int) >= i,
            forall|i: int| 0 <= i < MEMORY_MAP_LEN && #[trigger] map_entry(i).contains(address as int)
                ==> i == entry_index(address as int),
            map_entry(entry_index(address as int)).contains(address as int),
            entry_index(address as int) < MEMORY_MAP_LEN,
        decreases MEMORY_MAP_LEN - i,
    {
        let e = memory_map_entry(i);
        if e.base_address <= address && address - e.base_address < e.size {
            assert(map_entry(i as int).contains(address as int));
            return e;
        }
        i = i + 1;
    }
    proof {
        assert(false);
    }
    memory_map_entry(0)
}

/// The window of a device.
pub fn get_mm_table_entry_for_device(device: MMDevice) -> (r: MMTableEntry)
    ensures
        r == map_entry(device_index(device)),
{
    let mut i: usize = 0;
    while i < MEMORY_MAP_LEN
        invariant
            0 <= i <= MEMORY_MAP_LEN,
            device_index(device) >= i,
            0 <= device_index(device) < MEMORY_MAP_LEN,
            map_entry(device_index(device)).device == device,
        decreases MEMORY_MAP_LEN - i,
    {
        let e = memory_map_entry(i);
        if e.device == device {
            proof {
                lemma_device_index(i as int);
            }
            return e;
        }
        i = i + 1;
    }
    proof {
        assert(false);
    }
    memory_map_entry(0)
}

/// Sentinel byte read from the unusable region.
pub const UNUSABLE_SENTINEL: u8 = 0xFF;

/// Whether writes to a device change what it holds.
pub open spec fn writable(d: MMDevice) -> bool {
    !(d == MMDevice::RomBank00 || d == MMDevice::CartridgeRomBank || d == MMDevice::Unusable)
}

/// What a device window contributes to the address space: the device and the
/// device-local offset that an address reaches. Echo RAM reaches work RAM two
/// windows below it.
pub open spec fn target(a: int) -> (MMDevice, int) {
    let m = if map_entry(entry_index(a)).device == MMDevice::EchoRam { a - 0x2000 } else { a };
    let t = map_entry(entry_index(m));
    (t.device, m - t.base_address)
}

/// The uniform access capability of every device reachable from the bus.
/// Addresses handed to a device are local to its window.
pub trait BusAccessible {
    fn get_enum_device(&self) -> MMDevice;

    fn read(&mut self, address: u16) -> Result<u8, MemoryAccessError>;

    fn write(&mut self, address: u16, value: u8) -> Result<(), MemoryAccessError>;

    fn peek(&self, address: u16) -> Result<u8, MemoryAccessError>;
}

/// A byte-addressed backing store for one device window.
pub struct Memory {
    pub kind: MMDevice,
    pub data: Vec<u8>,
}

impl Memory {
    /// The byte that an in-window read returns.
    pub open spec fn value_at(&self, off: int) -> u8 {
        if self.kind == MMDevice::Unusable {
            UNUSABLE_SENTINEL
        } else {
            self.data@[off]
        }
    }

    /// Whether a device-local address lies in the window.
    pub open spec fn in_window(&self, off: int) -> bool {
        0 <= off < self.data@.len()
    }

    /// What a read or peek at a device-local address returns.
    pub open spec fn read_result(&self, off: u16) -> Result<u8, MemoryAccessError> {
        if self.in_window(off as int) {
            Ok(self.value_at(off as int))
        } else {
            Err(MemoryAccessError::OutOfWindow { device: self.kind, address: off })
        }
    }

    /// A zero-filled store as large as the device's window.
    pub fn new(kind: MMDevice) -> (r: Memory)
        ensures
            r.kind == kind,
            r.data@ == Seq::new(map_entry(device_index(kind)).size as nat, |i: int| 0u8),
    {
        let e = get_mm_table_entry_for_device(kind);
        let mut data: Vec<u8> = Vec::new();
        let mut i: u16 = 0;
        while i < e.size
            invariant
                0 <= i <= e.size,
                data@ == Seq::new(i as nat, |j: int| 0u8),
            decreases e.size - i,
        {
            data.push(0u8);
            i = i + 1;
        }
        Memory { kind, data }
    }

    /// Copies `image[start..]` over the store, as far as both reach.
    pub fn load_from(&mut self, image: &Vec<u8>, start: usize)
        ensures
            final(self).kind == old(self).kind,
            final(self).data@.len() == old(self).data@.len(),
            forall|i: int| 0 <= i < old(self).data@.len() ==> #[trigger] final(self).data@[i] == if start + i < image@.len() {
                image@[start + i]
            } else {
                old(self).data@[i]
            },
    {
        let mut i: usize = 0;
        while i < self.data.len() && start < image.len() && i < image.len() - start
            invariant
                self.kind == old(self).kind,
                self.data@.len() == old(self).data@.len(),
                0 <= i <= self.data@.len(),
                start < image@.len() ==> i <= image@.len() - start,
                start >= image@.len() ==> i == 0,
                forall|j: int| 0 <= j < old(self).data@.len() ==> #[trigger] self.data@[j] == if j < i {
                    image@[start + j]
                } else {
                    old(self).data@[j]
                },
            decreases self.data@.len() - i,
        {
            self.data.set(i, image[start + i]);
            i = i + 1;
        }
    }
}

impl BusAccessible for Memory {
    fn get_enum_device(&self) -> (r: MMDevice)
        ensures
            r == self.kind,
    {
        self.kind
    }

    fn read(&mut self, address: u16) -> (r: Result<u8, MemoryAccessError>)
        ensures
            *final(self) == *old(self),
            r == old(self).read_result(address),
    {
        self.peek(address)
    }

    fn write(&mut self, address: u16, value: u8) -> (r: Result<(), MemoryAccessError>)
        ensures
            final(self).kind == old(self).kind,
            old(self).in_window(address as int) ==> r is Ok,
            !old(self).in_window(address as int) ==> r == Err::<(), MemoryAccessError>(
                MemoryAccessError::OutOfWindow { device: old(self).kind, address },
            ),
            final(self).data@ == if old(self).in_window(address as int) && writable(old(self).kind) {
                old(self).data@.update(address as int, value)
            } else {
                old(self).data@
            },
    {
        if (address as usize) < self.data.len() {
            match self.kind {
                MMDevice::RomBank00 | MMDevice::CartridgeRomBank | MMDevice::Unusable => {},
                _ => {
                    self.data.set(address as usize, value);
                },
            }
            Ok(())
        } else {
            Err(MemoryAccessError::OutOfWindow { device: self.kind, address })
        }
    }

    fn peek(&self, address: u16) -> (r: Result<u8, MemoryAccessError>)
        ensures
            r == self.read_result(address),
    {
        if (address as usize) < self.data.len() {
            match self.kind {
                MMDevice::Unusable => Ok(UNUSABLE_SENTINEL),
                _ => Ok(self.data[address as usize]),
            }
        } else {
            Err(MemoryAccessError::OutOfWindow { device: self.kind, address })
        }
    }
}

/// The device and device-local offset that an address reaches.
pub fn route(address: u16) -> (r: (MMDevice, u16))
    ensures
        r.0 == target(address as int).0,
        r.1 as int == target(address as int).1,
        r.0 != MMDevice::EchoRam,
        0 <= target(address as int).1 < map_entry(device_index(r.0)).size,
{
    let e = find_entry(address);
    proof {
        lemma_dispatch_unique(address);
    }
    if e.device == MMDevice::EchoRam {
        let w = get_mm_table_entry_for_device(MMDevice::WorkRam00);
        let mirrored = w.base_address + (address - e.base_address);
        let t = find_entry(mirrored);
        proof {
            lemma_dispatch_unique(mirrored);
            lemma_device_index(entry_index(mirrored as int));
        }
        (t.device, mirrored - t.base_address)
    } else {
        proof {
            lemma_device_index(entry_index(address as int));
        }
        (e.device, address - e.base_address)
    }
}

/// What a write through one device does to the whole address space.
proof fn lemma_write_effect(prev: Bus, next: Bus, d: MMDevice, off: int, v: u8, address: int)
    requires
        prev.wf(),
        0 <= address < 0x10000,
        target(address) == (d, off),
        d != MMDevice::EchoRam,
        0 <= off < map_entry(device_index(d)).size,
        next.device(d).kind == d,
        next.device(d).data@ == if writable(d) {
            prev.device(d).data@.update(off, v)
        } else {
            prev.device(d).data@
        },
        forall|e: MMDevice| e != d && e != MMDevice::EchoRam ==> #[trigger] next.device(e) == prev.device(e),
    ensures
        prev.written(next, address, v),
{
    reveal(Bus::byte_at);
    assert(prev.device(d).kind == d);
    assert forall|e: MMDevice| e != MMDevice::EchoRam implies #[trigger] next.device(e).kind == e
        && next.device(e).data@.len() == map_entry(device_index(e)).size by {
        assert(prev.device(e).kind == e);
    }
    assert forall|a: int| 0 <= a < 0x10000 implies #[trigger] next.byte_at(a) == if Bus::accepts_write(address)
        && target(a) == target(address) {
        v
    } else {
        prev.byte_at(a)
    } by {
        lemma_dispatch_unique(a as u16);
        if a >= 0x2000 {
            lemma_dispatch_unique((a - 0x2000) as u16);
        }
        let t = target(a);
        assert(t.0 != MMDevice::EchoRam);
        assert(prev.device(t.0).kind == t.0);
    }
}

/// Echo RAM and work RAM share one store: a byte written through either
/// window is read back through the other.
pub proof fn lemma_echo_round_trip(prev: Bus, next: Bus, k: int, v: u8)
    requires
        prev.wf(),
        0 <= k < 0x1E00,
    ensures
        prev.written(next, 0xE000 + k, v) ==> next.byte_at(0xC000 + k) == v,
        prev.written(next, 0xC000 + k, v) ==> next.byte_at(0xE000 + k) == v,
{
    reveal(Bus::byte_at);
    lemma_dispatch_unique((0xC000 + k) as u16);
    lemma_dispatch_unique((0xE000 + k) as u16);
}

/// Reads in the unusable region give the sentinel, and writes there change
/// no address.
pub proof fn lemma_unusable_region(prev: Bus, next: Bus, a: int, v: u8)
    requires
        prev.wf(),
        0xFEA0 <= a < 0xFF00,
    ensures
        prev.byte_at(a) == UNUSABLE_SENTINEL,
        prev.written(next, a, v) ==> next.byte_at(a) == UNUSABLE_SENTINEL,
        prev.written(next, a, v) ==> forall|b: int| 0 <= b < 0x10000 ==> #[trigger] next.byte_at(b) == prev.byte_at(b),
{
    reveal(Bus::byte_at);
    lemma_dispatch_unique(a as u16);
    assert(prev.device(MMDevice::Unusable).kind == MMDevice::Unusable);
    if prev.written(next, a, v) {
        assert(next.device(MMDevice::Unusable).kind == MMDevice::Unusable);
    }
}

/// The address space: one backing store per device window; echo RAM has none
/// of its own.
pub struct Bus {
    pub rom0: Memory,
    pub romx: Memory,
    pub vram: Memory,
    pub eram: Memory,
    pub wram0: Memory,
    pub wramx: Memory,
    pub oam: Memory,
    pub unusable: Memory,
    pub io: Memory,
    pub hram: Memory,
    pub ie: Memory,
}

impl Bus {
    /// The store behind a device; echo RAM stands for work RAM bank 0.
    pub open spec fn device(&self, d: MMDevice) -> Memory {
        match d {
            MMDevice::RomBank00 => self.rom0,
            MMDevice::CartridgeRomBank => self.romx,
            MMDevice::VideoRam => self.vram,
            MMDevice::ExternalRam => self.eram,
            MMDevice::WorkRam00 | MMDevice::EchoRam => self.wram0,
            MMDevice::SwitchableBankWorkRam => self.wramx,
            MMDevice::ObjectAttributeMemory => self.oam,
            MMDevice::Unusable => self.unusable,
            MMDevice::IoRegisters => self.io,
            MMDevice::HighRam => self.hram,
            MMDevice::InterruptEnableRegister => self.ie,
        }
    }

    /// Each store is of its device's kind and as large as its window.
    pub open spec fn wf(&self) -> bool {
        forall|d: MMDevice| d != MMDevice::EchoRam ==> #[trigger] self.device(d).kind == d
            && self.device(d).data@.len() == map_entry(device_index(d)).size
    }

    /// The byte at an address of the 16-bit space.
    #[verifier::opaque]
    pub open spec fn byte_at(&self, a: int) -> u8 {
        self.device(target(a).0).value_at(target(a).1)
    }

    /// Whether a write at the address changes anything.
    pub open spec fn accepts_write(a: int) -> bool {
        writable(target(a).0)
    }

    /// The bus after a write of `v` at `address`: every address that reaches
    /// the same store cell reads `v`; all others are as before.
    pub open spec fn written(&self, next: Bus, address: int, v: u8) -> bool {
        &&& next.wf()
        &&& forall|a: int| 0 <= a < 0x10000 ==> #[trigger] next.byte_at(a) == if Self::accepts_write(address)
            && target(a) == target(address) {
            v
        } else {
            self.byte_at(a)
        }
    }

    /// A bus whose stores are all zero.
    pub fn new() -> (r: Bus)
        ensures
            r.wf(),
            forall|a: int| 0 <= a < 0x10000 ==> #[trigger] r.byte_at(a) == if target(a).0 == MMDevice::Unusable {
                UNUSABLE_SENTINEL
            } else {
                0u8
            },
    {
        reveal(Bus::byte_at);
        let r = Bus {
            rom0: Memory::new(MMDevice::RomBank00),
            romx: Memory::new(MMDevice::CartridgeRomBank),
            vram: Memory::new(MMDevice::VideoRam),
            eram: Memory::new(MMDevice::ExternalRam),
            wram0: Memory::new(MMDevice::WorkRam00),
            wramx: Memory::new(MMDevice::SwitchableBankWorkRam),
            oam: Memory::new(MMDevice::ObjectAttributeMemory),
            unusable: Memory::new(MMDevice::Unusable),
            io: Memory::new(MMDevice::IoRegisters),
            hram: Memory::new(MMDevice::HighRam),
            ie: Memory::new(MMDevice::InterruptEnableRegister),
        };
        proof {
            assert forall|a: int| 0 <= a < 0x10000 implies #[trigger] r.byte_at(a) == if target(a).0 == MMDevice::Unusable {
                UNUSABLE_SENTINEL
            } else {
                0u8
            } by {
                lemma_dispatch_unique(a as u16);
                if a >= 0x2000 {
                    lemma_dispatch_unique((a - 0x2000) as u16);
                }
            }
        }
        r
    }

    /// Copies a cartridge image over the two ROM windows, as far as the
    /// image reaches.
    pub fn load_rom(&mut self, image: &Vec<u8>)
        requires
            old(self).wf(),
        ensures
            final(self).wf(),
            forall|a: int| 0 <= a < 0x10000 ==> #[trigger] final(self).byte_at(a) == if a < 0x8000 && a < image@.len() {
                image@[a]
            } else {
                old(self).byte_at(a)
            },
    {
        reveal(Bus::byte_at);
        proof {
            assert(self.device(MMDevice::RomBank00).kind == MMDevice::RomBank00);
            assert(self.device(MMDevice::CartridgeRomBank).kind == MMDevice::CartridgeRomBank);
        }
        self.rom0.load_from(image, 0);
        self.romx.load_from(image, 0x4000);
        proof {
            assert forall|e: MMDevice| e != MMDevice::EchoRam implies #[trigger] self.device(e).kind == e
                && self.device(e).data@.len() == map_entry(device_index(e)).size by {
                assert(old(self).device(e).kind == e);
            }
            assert forall|a: int| 0 <= a < 0x10000 implies #[trigger] self.byte_at(a) == if a < 0x8000 && a < image@.len() {
                image@[a]
            } else {
                old(self).byte_at(a)
            } by {
                lemma_dispatch_unique(a as u16);
                if a >= 0x2000 {
                    lemma_dispatch_unique((a - 0x2000) as u16);
                }
            }
        }
    }

    /// Reads the byte at an address through the device that holds it.
    pub fn read(&mut self, address: u16) -> (r: Result<u8, MemoryAccessError>)
        requires
            old(self).wf(),
        ensures
            *final(self) == *old(self),
            r == Ok::<u8, MemoryAccessError>(old(self).byte_at(address as int)),
    {
        reveal(Bus::byte_at);
        let (d, off) = route(address);
        match d {
            MMDevice::RomBank00 => self.rom0.read(off),
            MMDevice::CartridgeRomBank => self.romx.read(off),
            MMDevice::VideoRam => self.vram.read(off),
            MMDevice::ExternalRam => self.eram.read(off),
            MMDevice::WorkRam00 | MMDevice::EchoRam => self.wram0.read(off),
            MMDevice::SwitchableBankWorkRam => self.wramx.read(off),
            MMDevice::ObjectAttributeMemory => self.oam.read(off),
            MMDevice::Unusable => self.unusable.read(off),
            MMDevice::IoRegisters => self.io.read(off),
            MMDevice::HighRam => self.hram.read(off),
            MMDevice::InterruptEnableRegister => self.ie.read(off),
        }
    }

    /// Reads like `read`, through shared access and with no side effect.
    pub fn peek(&self, address: u16) -> (r: Result<u8, MemoryAccessError>)
        requires
            self.wf(),
        ensures
            r == Ok::<u8, MemoryAccessError>(self.byte_at(address as int)),
    {
        reveal(Bus::byte_at);
        let (d, off) = route(address);
        match d {
            MMDevice::RomBank00 => self.rom0.peek(off),
            MMDevice::CartridgeRomBank => self.romx.peek(off),
            MMDevice::VideoRam => self.vram.peek(off),
            MMDevice::ExternalRam => self.eram.peek(off),
            MMDevice::WorkRam00 | MMDevice::EchoRam => self.wram0.peek(off),
            MMDevice::SwitchableBankWorkRam => self.wramx.peek(off),
            MMDevice::ObjectAttributeMemory => self.oam.peek(off),
            MMDevice::Unusable => self.unusable.peek(off),
            MMDevice::IoRegisters => self.io.peek(off),
            MMDevice::HighRam => self.hram.peek(off),
            MMDevice::InterruptEnableRegister => self.ie.peek(off),
        }
    }

    /// Writes a byte at an address through the device that holds it.
    pub fn write(&mut self, address: u16, value: u8) -> (r: Result<(), MemoryAccessError>)
        requires
            old(self).wf(),
        ensures
            r is Ok,
            old(self).written(*final(self), address as int, value),
    {
        let (d, off) = route(address);
        proof {
            assert(old(self).device(d).kind == d);
        }
        let r = match d {
            MMDevice::RomBank00 => self.rom0.write(off, value),
            MMDevice::CartridgeRomBank => self.romx.write(off, value),
            MMDevice::VideoRam => self.vram.write(off, value),
            MMDevice::ExternalRam => self.eram.write(off, value),
            MMDevice::WorkRam00 | MMDevice::EchoRam => self.wram0.write(off, value),
            MMDevice::SwitchableBankWorkRam => self.wramx.write(off, value),
            MMDevice::ObjectAttributeMemory => self.oam.write(off, value),
            MMDevice::Unusable => self.unusable.write(off, value),
            MMDevice::IoRegisters => self.io.write(off, value),
            MMDevice::HighRam => self.hram.write(off, value),
            MMDevice::InterruptEnableRegister => self.ie.write(off, value),
        };
        proof {
            assert(self.device(d).kind == d);
            assert(forall|e: MMDevice| e != d && e != MMDevice::EchoRam ==> #[trigger] self.device(e) == old(self).device(e));
            lemma_write_effect(*old(self), *self, d, off as int, value, address as int);
        }
        r
    }
}

} // verus!
