//! User-space access layer for UIO-exposed PCI network devices.
//!
//! The crate splits into a sysfs-facing half — attribute parsing, resource
//! enumeration filters and device-index derivation — and a register-level
//! half: a bounds-checked window over a memory-mapped PCI BAR together with
//! the e1000 link bring-up sequence expressed as individually specified
//! register transactions.

mod e1000;
mod errors;
mod mapping;
mod parse;
mod sysfs;
mod udmabuf;
mod uio;

pub use e1000::{
    ctrl_reset_value, e1000_accepts, e1000_device_accepted, e1000_supported_devices,
    init_register_result, is_supported_device, lemma_init_sequence, lemma_register_round_trip,
    lemma_register_store_frame, lemma_zero_words_read, link_setup_value, supported_device,
    vlan_clear_value, word_at, word_store, zero_words, E1000Buffer, E1000DeviceDriver, E1000RxDesc,
    E1000TxDesc, E1000_INIT_SETTLE_MILLIS, E1000_MTA_BASE, E1000_MTA_WORDS, E1000_RA_TABLE_BASE,
    E1000_RA_TABLE_WORDS, E1000_REG_CTRL, E1000_REG_EEPROM, E1000_REG_EXT, E1000_REG_ICR,
    E1000_REG_IMC, E1000_REG_IMS, E1000_REG_SPACE_BYTES, E1000_REG_STATUS, E1000_STATION_ADDR,
};
pub use errors::UioError;
pub use mapping::{mmap_bytes, MappedResource};
pub use udmabuf::Udmabuf;
pub use sysfs::{
    is_map_entry, is_map_name, is_resource_entry, is_resource_name, map_filter, map_prefix,
    resource_filter, resource_prefix, select_map_entries, select_resources, starts_with,
};
pub use uio::{
    dec_digits_of, lemma_dec_digits_of, lemma_open_by_name_matches_open, map_mapping_offset,
    uio_name_index, uio_name_of, uio_prefix, UioDevice, PAGESIZE,
};
pub use parse::{
    dec_number, dec_value, has_hex_prefix, hex_id_value, hex_number, hex_value, is_dec_digit,
    is_hex_digit, is_space, lemma_trim_is_interior_slice, parse_decimal_u32, parse_decimal_u64,
    parse_decimal_usize, parse_hex_attr, parse_hex_digits, parse_hex_id, trim_bytes, trim_spec,
};
