use ethernet::{E1000DeviceDriver, MappedResource, UioError};

fn test_window() -> E1000DeviceDriver {
    let map = memmap::MmapMut::map_anon(ethernet::E1000_REG_SPACE_BYTES)
        .expect("anonymous mapping");
    let region = MappedResource::new(map);
    assert_eq!(region.len(), ethernet::E1000_REG_SPACE_BYTES);
    E1000DeviceDriver::new(region)
}

#[test]
fn fresh_window_reads_zero() {
    let driver = test_window();
    assert_eq!(driver.read_cmd(0), 0);
    assert_eq!(driver.read_status(), 0);
    assert_eq!(driver.read_byte(0x5400), 0);
}

#[test]
fn register_write_reads_back() {
    let mut driver = test_window();
    driver.write_cmd(0x2800, 0xdead_beef);
    assert_eq!(driver.read_cmd(0x2800), 0xdead_beef);
    driver.write_cmd(0x2800, 1);
    assert_eq!(driver.read_cmd(0x2800), 1);
    // A write leaves other registers alone.
    assert_eq!(driver.read_cmd(0x2801), 0);
    assert_eq!(driver.read_cmd(0), 0);
}

#[test]
fn status_register_is_read_raw() {
    let mut driver = test_window();
    driver.write_cmd(ethernet::E1000_REG_STATUS, 0x8000_0003);
    assert_eq!(driver.read_status(), 0x8000_0003);
}

#[test]
fn station_address_is_six_bytes_in_ascending_offset_order() {
    let mut driver = test_window();
    // Byte offsets 0x5400..0x5406 are words 0x1500 and 0x1501.
    driver.write_cmd(0x1500, u32::from_le_bytes([0x12, 0x34, 0x56, 0x78]));
    driver.write_cmd(0x1501, u32::from_le_bytes([0x9a, 0xbc, 0xff, 0xff]));
    let mac = driver.read_mac();
    assert_eq!(mac, vec![0x12, 0x34, 0x56, 0x78, 0x9a, 0xbc]);
}

#[test]
fn bring_up_leaves_the_documented_control_value() {
    let mut driver = test_window();
    driver.write_cmd(ethernet::E1000_REG_CTRL, 0xffff_ffff);
    driver.init_assert_reset();
    // Step 1 wrote only the reset bit.
    assert_eq!(driver.read_cmd(ethernet::E1000_REG_CTRL), 1 << 26);
    driver.init_configure_link();
    // Step 2 set bits 5 and 6 and cleared bits 3, 31 and 7.
    assert_eq!(driver.read_cmd(ethernet::E1000_REG_CTRL), (1 << 26) | (1 << 5) | (1 << 6));
    driver.init_clear_vlan();
    // Step 3 cleared bit 30, which was already clear here.
    assert_eq!(driver.read_cmd(ethernet::E1000_REG_CTRL), 0x0400_0060);
    driver.init_clear_filter_tables();
    assert_eq!(driver.read_cmd(ethernet::E1000_REG_CTRL), 0x0400_0060);
}

#[test]
fn bring_up_step_masks_apply_to_the_value_read_back() {
    let mut driver = test_window();
    // Plant a control value with every touched bit set, then run step 2
    // alone: bits 5 and 6 come on, bits 3, 31 and 7 go off, others stay.
    driver.write_cmd(ethernet::E1000_REG_CTRL, (1 << 3) | (1 << 7) | (1 << 31) | (1 << 12));
    driver.init_configure_link();
    assert_eq!(
        driver.read_cmd(ethernet::E1000_REG_CTRL),
        (1 << 5) | (1 << 6) | (1 << 12)
    );
    driver.write_cmd(ethernet::E1000_REG_CTRL, (1 << 30) | (1 << 12));
    driver.init_clear_vlan();
    assert_eq!(driver.read_cmd(ethernet::E1000_REG_CTRL), 1 << 12);
}

#[test]
fn bring_up_clears_both_filter_table_blocks() {
    let mut driver = test_window();
    driver.write_cmd(ethernet::E1000_RA_TABLE_BASE, 0xffff_ffff);
    driver.write_cmd(ethernet::E1000_RA_TABLE_BASE + 4 * 127, 0x1234_5678);
    driver.write_cmd(ethernet::E1000_MTA_BASE, 0xffff_ffff);
    driver.write_cmd(ethernet::E1000_MTA_BASE + 4 * 63, 0xcafe_f00d);
    driver.init_assert_reset();
    driver.init_configure_link();
    driver.init_clear_vlan();
    driver.init_clear_filter_tables();
    assert_eq!(driver.read_cmd(ethernet::E1000_RA_TABLE_BASE), 0);
    assert_eq!(driver.read_cmd(ethernet::E1000_RA_TABLE_BASE + 4 * 127), 0);
    assert_eq!(driver.read_cmd(ethernet::E1000_MTA_BASE), 0);
    assert_eq!(driver.read_cmd(ethernet::E1000_MTA_BASE + 4 * 63), 0);
}

#[test]
fn bring_up_preserves_the_station_address() {
    let mut driver = test_window();
    driver.write_cmd(0x1500, u32::from_le_bytes([0xaa, 0xbb, 0xcc, 0xdd]));
    driver.write_cmd(0x1501, u32::from_le_bytes([0xee, 0xff, 0x00, 0x00]));
    driver.init_assert_reset();
    driver.init_configure_link();
    driver.init_clear_vlan();
    driver.init_clear_filter_tables();
    assert_eq!(driver.read_mac(), vec![0xaa, 0xbb, 0xcc, 0xdd, 0xee, 0xff]);
}

#[test]
fn vendor_and_device_filter_accepts_only_the_supported_pair() {
    assert_eq!(ethernet::e1000_accepts(b"0x8086\n", b"0x15b8\n"), Ok(true));
    assert_eq!(ethernet::e1000_accepts(b"0x8086", b"0x15b8"), Ok(true));
    assert_eq!(ethernet::e1000_accepts(b"0x8086\n", b"0x15b9\n"), Ok(false));
    assert_eq!(ethernet::e1000_accepts(b"0x8087\n", b"0x15b8\n"), Ok(false));
    assert_eq!(ethernet::e1000_accepts(b"0x1af4\n", b"0x1000\n"), Ok(false));
    assert_eq!(
        ethernet::e1000_accepts(b"8086\n", b"0x15b8\n"),
        Err(UioError::Parse)
    );
    assert_eq!(
        ethernet::e1000_accepts(b"0x8086\n", b"junk"),
        Err(UioError::Parse)
    );
}

#[test]
fn supported_device_list_holds_the_one_identifier() {
    assert_eq!(ethernet::e1000_supported_devices(), vec![0x15b8]);
    assert!(ethernet::is_supported_device(0x15b8));
    assert!(!ethernet::is_supported_device(0x15b7));
    assert!(!ethernet::is_supported_device(0x100e));
}
