use ethernet::{UioDevice, UioError};

#[test]
fn open_by_name_agrees_with_open_by_index() {
    let by_index = UioDevice::new(3);
    let by_name = UioDevice::new_by_name(b"uio3").unwrap();
    assert_eq!(by_index.dev_num(), by_name.dev_num());
    let by_index = UioDevice::new(0);
    let by_name = UioDevice::new_by_name(b"uio0").unwrap();
    assert_eq!(by_index.dev_num(), by_name.dev_num());
    assert_eq!(UioDevice::new_by_name(b"uio17").unwrap().dev_num(), 17);
}

#[test]
fn non_numeric_name_suffix_is_a_parse_failure() {
    assert!(matches!(UioDevice::new_by_name(b"uioabc"), Err(UioError::Parse)));
    assert!(matches!(UioDevice::new_by_name(b"uio"), Err(UioError::Parse)));
    assert!(matches!(UioDevice::new_by_name(b"uio1a"), Err(UioError::Parse)));
    assert!(matches!(UioDevice::new_by_name(b""), Err(UioError::Parse)));
}

#[test]
fn resource_selection_keeps_only_indexed_resource_entries() {
    let entries: Vec<(Vec<u8>, u64)> = vec![
        (b"resource0".to_vec(), 131072),
        (b"resource".to_vec(), 7),
        (b"config".to_vec(), 256),
        (b"resource12".to_vec(), 16),
        (b"vendor".to_vec(), 5),
    ];
    let picked = ethernet::select_resources(entries);
    assert_eq!(
        picked,
        vec![(b"resource0".to_vec(), 131072), (b"resource12".to_vec(), 16)]
    );
}

#[test]
fn bare_resource_name_is_rejected() {
    assert!(ethernet::is_resource_entry(b"resource0"));
    assert!(ethernet::is_resource_entry(b"resource12"));
    assert!(!ethernet::is_resource_entry(b"resource"));
    assert!(!ethernet::is_resource_entry(b"resourc"));
    assert!(!ethernet::is_resource_entry(b"xresource0"));
}

#[test]
fn map_selection_keeps_only_indexed_map_entries() {
    let names: Vec<Vec<u8>> = vec![
        b"map0".to_vec(),
        b"map".to_vec(),
        b"other".to_vec(),
        b"map1".to_vec(),
    ];
    let picked = ethernet::select_map_entries(names);
    assert_eq!(picked, vec![b"map0".to_vec(), b"map1".to_vec()]);
}

#[test]
fn map_offsets_advance_one_page_per_mapping() {
    assert_eq!(ethernet::map_mapping_offset(0), 0);
    assert_eq!(ethernet::map_mapping_offset(1), ethernet::PAGESIZE);
    assert_eq!(ethernet::map_mapping_offset(3), 12288);
}

#[test]
fn udmabuf_handle_keeps_its_name() {
    let buf = ethernet::Udmabuf::named(String::from("frame0"));
    assert_eq!(buf.name(), "frame0");
}
