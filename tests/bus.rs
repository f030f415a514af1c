use gb_emu::bus::{
    Bus, BusAccessible, MEMORY_MAP_LEN, MMDevice, MMTableEntry, Memory, MemoryAccessError,
    UNUSABLE_SENTINEL, find_entry, get_mm_table_entry_for_device, memory_map_entry, route,
};

#[test]
fn every_address_lies_in_exactly_one_window() {
    for a in 0u32..=0xFFFF {
        let a = a as u16;
        let mut holders = 0;
        for i in 0..MEMORY_MAP_LEN {
            let e = memory_map_entry(i);
            if e.base_address <= a && ((a - e.base_address) as u32) < e.size as u32 {
                holders += 1;
            }
        }
        assert_eq!(holders, 1, "address {:#06x}", a);
        let e = find_entry(a);
        assert!(e.base_address <= a && a - e.base_address < e.size);
    }
}

#[test]
fn windows_partition_the_space() {
    let mut next: u32 = 0;
    for i in 0..MEMORY_MAP_LEN {
        let e = memory_map_entry(i);
        assert_eq!(e.base_address as u32, next);
        next += e.size as u32;
    }
    assert_eq!(next, 0x10000);
}

#[test]
fn routing_gives_local_offsets() {
    assert_eq!(route(0x0000), (MMDevice::RomBank00, 0));
    assert_eq!(route(0x4001), (MMDevice::CartridgeRomBank, 1));
    assert_eq!(route(0x9FFF), (MMDevice::VideoRam, 0x1FFF));
    assert_eq!(route(0xA000), (MMDevice::ExternalRam, 0));
    assert_eq!(route(0xC123), (MMDevice::WorkRam00, 0x123));
    assert_eq!(route(0xD800), (MMDevice::SwitchableBankWorkRam, 0x800));
    assert_eq!(route(0xE123), (MMDevice::WorkRam00, 0x123));
    assert_eq!(route(0xFDFF), (MMDevice::SwitchableBankWorkRam, 0xDFF));
    assert_eq!(route(0xFE9F), (MMDevice::ObjectAttributeMemory, 0x9F));
    assert_eq!(route(0xFEA0), (MMDevice::Unusable, 0));
    assert_eq!(route(0xFF7F), (MMDevice::IoRegisters, 0x7F));
    assert_eq!(route(0xFFFE), (MMDevice::HighRam, 0x7E));
    assert_eq!(route(0xFFFF), (MMDevice::InterruptEnableRegister, 0));
}

#[test]
fn device_windows() {
    assert_eq!(
        get_mm_table_entry_for_device(MMDevice::VideoRam),
        MMTableEntry { device: MMDevice::VideoRam, base_address: 0x8000, size: 0x2000 }
    );
    assert_eq!(get_mm_table_entry_for_device(MMDevice::ExternalRam).base_address, 0xA000);
    assert_eq!(get_mm_table_entry_for_device(MMDevice::EchoRam).size, 0x1E00);
    assert_eq!(get_mm_table_entry_for_device(MMDevice::InterruptEnableRegister).size, 1);
    assert_eq!(MMTableEntry::new(MMDevice::HighRam, 0xFF80, 0xFFFF).size, 0x7F);
}

#[test]
fn echo_ram_round_trip() {
    let mut bus = Bus::new();
    for k in 0u16..0x1E00 {
        let v = (k % 251) as u8 ^ 0x5A;
        assert_eq!(bus.write(0xE000 + k, v), Ok(()));
        assert_eq!(bus.read(0xC000 + k), Ok(v));
        assert_eq!(bus.write(0xC000 + k, !v), Ok(()));
        assert_eq!(bus.read(0xE000 + k), Ok(!v));
        assert_eq!(bus.peek(0xE000 + k), Ok(!v));
    }
}

#[test]
fn unusable_region_reads_sentinel() {
    let mut bus = Bus::new();
    for a in 0xFEA0u16..0xFF00 {
        assert_eq!(bus.read(a), Ok(UNUSABLE_SENTINEL));
        assert_eq!(bus.write(a, 0x12), Ok(()));
        assert_eq!(bus.read(a), Ok(0xFF));
        assert_eq!(bus.peek(a), Ok(0xFF));
    }
}

#[test]
fn ram_keeps_written_bytes_and_rom_ignores_writes() {
    let mut bus = Bus::new();
    assert_eq!(bus.write(0x8000, 7), Ok(()));
    assert_eq!(bus.read(0x8000), Ok(7));
    assert_eq!(bus.write(0xFFFF, 0x1F), Ok(()));
    assert_eq!(bus.peek(0xFFFF), Ok(0x1F));
    assert_eq!(bus.read(0xFFFE), Ok(0));
    assert_eq!(bus.write(0x0100, 9), Ok(()));
    assert_eq!(bus.read(0x0100), Ok(0));
}

#[test]
fn loaded_rom_is_readable() {
    let mut bus = Bus::new();
    let image: Vec<u8> = (0..0x5000u32).map(|i| (i % 256) as u8 ^ 0xA5).collect();
    bus.load_rom(&image);
    assert_eq!(bus.read(0x0000), Ok(0xA5));
    assert_eq!(bus.read(0x0101), Ok(0x01 ^ 0xA5));
    assert_eq!(bus.read(0x4003), Ok(0x03 ^ 0xA5));
    assert_eq!(bus.read(0x5000), Ok(0));
}

#[test]
fn device_rejects_out_of_window_address() {
    let mut m = Memory::new(MMDevice::HighRam);
    assert_eq!(m.get_enum_device(), MMDevice::HighRam);
    assert_eq!(m.data.len(), 0x7F);
    assert_eq!(
        m.read(0x7F),
        Err(MemoryAccessError::OutOfWindow { device: MMDevice::HighRam, address: 0x7F })
    );
    assert_eq!(
        m.write(0x80, 1),
        Err(MemoryAccessError::OutOfWindow { device: MMDevice::HighRam, address: 0x80 })
    );
    assert_eq!(m.write(0x10, 3), Ok(()));
    assert_eq!(m.peek(0x10), Ok(3));
}
