use win_sys::smbios::{board, ram_modules, ram_table_well_formed};

fn structure(stype: u8, body_len: usize, fill: &[(usize, u8)], strings: &[&str]) -> Vec<u8> {
    let mut s = vec![0u8; body_len];
    s[0] = stype;
    s[1] = body_len as u8;
    for &(off, v) in fill {
        s[off] = v;
    }
    if strings.is_empty() {
        s.extend_from_slice(&[0, 0]);
    } else {
        for t in strings {
            s.extend_from_slice(t.as_bytes());
            s.push(0);
        }
        s.push(0);
    }
    s
}

fn memory_device(size_mb: u16, speed: u16, configured: u16, strings: &[&str]) -> Vec<u8> {
    let mut fill = vec![(0x0C, (size_mb & 0xff) as u8), (0x0D, (size_mb >> 8) as u8)];
    fill.push((0x15, (speed & 0xff) as u8));
    fill.push((0x16, (speed >> 8) as u8));
    fill.push((0x20, (configured & 0xff) as u8));
    fill.push((0x21, (configured >> 8) as u8));
    if !strings.is_empty() {
        fill.extend_from_slice(&[(0x10, 1), (0x11, 2), (0x17, 3), (0x1A, 4)]);
    }
    structure(17, 0x22, &fill, strings)
}

fn table() -> Vec<u8> {
    let mut t = vec![0u8; 8];
    t.extend(structure(0, 0x12, &[(0x04, 1), (0x05, 2), (0x08, 3)], &["American Megatrends", "F.20", "01/02/2024"]));
    t.extend(structure(1, 0x1B, &[(0x04, 1), (0x05, 2)], &["HP", "EliteBook 840"]));
    t.extend(structure(2, 0x08, &[(0x04, 1), (0x05, 2), (0x06, 3), (0x07, 4)], &["HP", " 8549 ", "KBC 1.0", "PKXYZ"]));
    t.extend(structure(2, 0x08, &[(0x04, 1), (0x05, 2)], &["Second", "Ignored"]));
    t.extend(memory_device(16384, 3200, 2933, &["DIMM_A1", "BANK 0", "Samsung", "M471A2K43"]));
    t.extend(memory_device(0, 0, 0, &[]));
    t.extend(memory_device(8192, 2666, 2666, &["DIMM_B1", "DIMM_B1", "Kingston", "KHX"]));
    t.extend(structure(127, 4, &[], &[]));
    t.extend(memory_device(4096, 1, 1, &["after the end", "", "", ""]));
    t
}

#[test]
fn board_strings_are_read_from_their_structures() {
    let t = table();
    let b = board(&t);
    assert_eq!(b.bios_vendor, "American Megatrends");
    assert_eq!(b.bios_version, "F.20");
    assert_eq!(b.bios_date, "01/02/2024");
    assert_eq!(b.system_manufacturer, "HP");
    assert_eq!(b.system_product, "EliteBook 840");
    assert_eq!(b.manufacturer, "HP");
    assert_eq!(b.product, "8549");
    assert_eq!(b.version, "KBC 1.0");
    assert_eq!(b.serial, "PKXYZ");
}

#[test]
fn board_of_a_short_table_is_empty() {
    let b = board(&[0u8; 8]);
    assert_eq!(b.manufacturer, "");
    assert_eq!(b.bios_vendor, "");
}

#[test]
fn ram_modules_and_slots() {
    let t = table();
    assert!(ram_table_well_formed(&t));
    let (mods, slots) = ram_modules(&t);
    assert_eq!(slots, 3);
    assert_eq!(mods.len(), 2);
    assert_eq!(mods[0].size_mb, 16384);
    assert_eq!(mods[0].speed_mts, 3200);
    assert_eq!(mods[0].configured_mts, 2933);
    assert_eq!(mods[0].slot, "DIMM_A1 (BANK 0)");
    assert_eq!(mods[0].manufacturer, "Samsung");
    assert_eq!(mods[0].part_number, "M471A2K43");
    assert_eq!(mods[1].slot, "DIMM_B1");
    assert_eq!(mods[1].size_mb, 8192);
    let (none, zero) = ram_modules(&[0u8; 4]);
    assert!(none.is_empty());
    assert_eq!(zero, 0);
}

#[test]
fn module_sizes_in_kilobytes_and_extended_form() {
    let mut t = vec![0u8; 8];
    // Bit 15: the size is in kB (0x8000 | 2048 kB = 2 MB).
    t.extend(memory_device(0x8000 | 2048, 0, 0, &[]));
    // 0x7FFF: the size is in the extended field.
    let mut ext = memory_device(0x7FFF, 0, 0, &[]);
    ext[0x1C] = 0x00;
    ext[0x1D] = 0x00;
    ext[0x1E] = 0x01;
    t.extend(ext);
    let (mods, slots) = ram_modules(&t);
    assert_eq!(slots, 2);
    assert_eq!(mods[0].size_mb, 2);
    assert_eq!(mods[1].size_mb, 0x1_0000);
}

#[test]
fn short_memory_device_is_not_well_formed() {
    let mut t = vec![0u8; 8];
    t.extend(structure(17, 0x08, &[], &[]));
    assert!(!ram_table_well_formed(&t));
}
