//! Register-level driver for the e1000 NIC family: word and byte access to
//! the mapped register BAR, identity reads, and the link bring-up sequence.
//!
//! Registers are addressed exactly as the bring-up sequence invokes them:
//! an offset indexes the mapped base interpreted as an array of 32-bit
//! little-endian words, so the numeric offset constants below must be kept
//! unchanged — they encode a working bring-up sequence and are hardware
//! contract, not configuration.

use vstd::prelude::*;

use crate::errors::UioError;
use crate::mapping::MappedResource;
use crate::parse::{hex_id_value, parse_hex_id};

verus! {

/// Control register, word offset.
pub const E1000_REG_CTRL: usize = 0x0000;

/// Status register, word offset.
pub const E1000_REG_STATUS: usize = 0x0008;

/// EEPROM register, word offset.
pub const E1000_REG_EEPROM: usize = 0x0014;

/// Extended control register, word offset.
pub const E1000_REG_EXT: usize = 0x0018;

/// Interrupt cause read register, word offset.
pub const E1000_REG_ICR: usize = 0x000C0;

/// Interrupt mask set register, word offset.
pub const E1000_REG_IMS: usize = 0x000D0;

/// Interrupt mask clear register, word offset.
pub const E1000_REG_IMC: usize = 0x000D8;

/// First byte of the burned-in station (MAC) address.
pub const E1000_STATION_ADDR: usize = 0x5400;

/// Base word offset of the receive-address-table block cleared at bring-up.
pub const E1000_RA_TABLE_BASE: usize = 0x5200;

/// Words cleared in the receive-address-table block.
pub const E1000_RA_TABLE_WORDS: usize = 128;

/// Base word offset of the multicast-table-array block cleared at bring-up.
pub const E1000_MTA_BASE: usize = 0x4000;

/// Words cleared in the multicast-table-array block.
pub const E1000_MTA_WORDS: usize = 64;

/// Bytes of register space a window must span: the device's full BAR 0.
pub const E1000_REG_SPACE_BYTES: usize = 0x20000;

/// Settling delay, in milliseconds, owed after each of the three control
/// writes of the bring-up sequence; the device's reset logic needs the
/// elapsed time, so the delay must not be shortened or dropped.
pub const E1000_INIT_SETTLE_MILLIS: u64 = 1;

/// The 32-bit little-endian word at word offset `w` of a byte state.
pub open spec fn word_at(s: Seq<u8>, w: int) -> u32 {
    (s[4 * w] as u32) | ((s[4 * w + 1] as u32) << 8) | ((s[4 * w + 2] as u32) << 16) | ((s[4 * w
        + 3] as u32) << 24)
}

/// The byte state after storing `v` as a little-endian word at word offset
/// `w`.
pub open spec fn word_store(s: Seq<u8>, w: int, v: u32) -> Seq<u8> {
    s.update(4 * w, (v & 0xff) as u8).update(4 * w + 1, ((v >> 8) & 0xff) as u8).update(
        4 * w + 2,
        ((v >> 16) & 0xff) as u8,
    ).update(4 * w + 3, ((v >> 24) & 0xff) as u8)
}

/// The byte state after clearing `n` words at word offsets `base`,
/// `base + 4`, ..., `base + 4 * (n - 1)` — the stride the bring-up
/// sequence uses.
pub open spec fn zero_words(s: Seq<u8>, base: int, n: nat) -> Seq<u8>
    decreases n,
{
    if n == 0 {
        s
    } else {
        word_store(zero_words(s, base, (n - 1) as nat), base + 4 * (n - 1), 0u32)
    }
}

/// Control value written by step 1 of bring-up: only the reset bit.
pub open spec fn ctrl_reset_value() -> u32 {
    1u32 << 26
}

/// Control value written by step 2, from the value read after step 1: set
/// auto speed detection (bit 5) and link up (bit 6); clear reset link
/// (bit 3), invert loss-of-signal (bit 7) and reset phy (bit 31).
pub open spec fn link_setup_value(c: u32) -> u32 {
    (c | (1u32 << 5) | (1u32 << 6)) & !(1u32 << 3) & !(1u32 << 31) & !(1u32 << 7)
}

/// Control value written by step 3, from the value read after step 2:
/// clear the VLAN-mode bit (bit 30).
pub open spec fn vlan_clear_value(c: u32) -> u32 {
    c & !(1u32 << 30)
}

/// Receive descriptor record. The field widths are a hardware contract:
/// the device expects exactly these fields at exactly these widths, in
/// this order, with no gaps between them; nothing in this core populates
/// a ring with them.
#[derive(Clone, Copy, Debug, PartialEq, Eq, Structural)]
pub struct E1000RxDesc {
    pub addr: u64,
    pub length: u64,
    pub checksum: u16,
    pub status: u8,
    pub errors: u8,
    pub special: u16,
}

/// Transmit descriptor record; the same hardware-contract layout rules as
/// for the receive descriptor apply.
#[derive(Clone, Copy, Debug, PartialEq, Eq, Structural)]
pub struct E1000TxDesc {
    pub addr: u64,
    pub length: u16,
    pub cso: u8,
    pub cmd: u8,
    pub status: u8,
    pub css: u8,
    pub special: u8,
}

/// A physically-contiguous buffer intended for a future descriptor ring:
/// a mapped view of its bytes, its physical address and its length.
pub struct E1000Buffer {
    pub buffer: MappedResource,
    pub phys: u64,
    pub length: usize,
}

/// Driver over one device's mapped register BAR. It owns the window for
/// its own lifetime; offsets are validated against the full register space
/// at construction, so the accessors stay in bounds.
pub struct E1000DeviceDriver {
    mem: MappedResource,
}

impl View for E1000DeviceDriver {
    type V = Seq<u8>;

    closed spec fn view(&self) -> Seq<u8> {
        self.mem@
    }
}

impl E1000DeviceDriver {
    /// The window spans the device's whole register space.
    pub open spec fn wf(&self) -> bool {
        self@.len() >= E1000_REG_SPACE_BYTES
    }

    /// Builds a driver over a mapped register window; the window must span
    /// the device's full register space.
    pub fn new(mem: MappedResource) -> (r: E1000DeviceDriver)
        requires
            mem@.len() >= E1000_REG_SPACE_BYTES,
        ensures
            r@ == mem@,
            r.wf(),
    {
        E1000DeviceDriver { mem }
    }

    /// Reads the 32-bit register at the given word offset.
    pub fn read_cmd(&self, offset: usize) -> (r: u32)
        requires
            self.wf(),
            4 * offset + 4 <= E1000_REG_SPACE_BYTES,
        ensures
            r == word_at(self@, offset as int),
    {
        let b0 = self.mem.byte_at(4 * offset);
        let b1 = self.mem.byte_at(4 * offset + 1);
        let b2 = self.mem.byte_at(4 * offset + 2);
        let b3 = self.mem.byte_at(4 * offset + 3);
        (b0 as u32) | ((b1 as u32) << 8) | ((b2 as u32) << 16) | ((b3 as u32) << 24)
    }

    /// Writes the 32-bit register at the given word offset.
    pub fn write_cmd(&mut self, offset: usize, value: u32)
        requires
            old(self).wf(),
            4 * offset + 4 <= E1000_REG_SPACE_BYTES,
        ensures
            final(self).wf(),
            final(self)@ == word_store(old(self)@, offset as int, value),
    {
        proof {
            assert(value & 0xff < 256) by (bit_vector);
            assert((value >> 8) & 0xff < 256) by (bit_vector);
            assert((value >> 16) & 0xff < 256) by (bit_vector);
            assert((value >> 24) & 0xff < 256) by (bit_vector);
        }
        self.mem.set_byte(4 * offset, (value & 0xff) as u8);
        self.mem.set_byte(4 * offset + 1, ((value >> 8) & 0xff) as u8);
        self.mem.set_byte(4 * offset + 2, ((value >> 16) & 0xff) as u8);
        self.mem.set_byte(4 * offset + 3, ((value >> 24) & 0xff) as u8);
    }

    /// Reads the single byte at the given byte offset of the window.
    pub fn read_byte(&self, offset: usize) -> (r: u8)
        requires
            self.wf(),
            offset < E1000_REG_SPACE_BYTES,
        ensures
            r == self@[offset as int],
    {
        self.mem.byte_at(offset)
    }

    /// The raw contents of the status register; no bits are interpreted.
    pub fn read_status(&self) -> (r: u32)
        requires
            self.wf(),
        ensures
            r == word_at(self@, E1000_REG_STATUS as int),
    {
        self.read_cmd(E1000_REG_STATUS)
    }

    /// The burned-in station (MAC) address: exactly six bytes, read from
    /// ascending byte offsets starting at the station-address register.
    pub fn read_mac(&self) -> (r: Vec<u8>)
        requires
            self.wf(),
        ensures
            r@.len() == 6,
            forall|i: int| 0 <= i < 6 ==> r@[i] == self@[E1000_STATION_ADDR + i],
    {
        let mut data: Vec<u8> = Vec::new();
        let mut i: usize = 0;
        while i < 6
            invariant
                self.wf(),
                0 <= i <= 6,
                data@.len() == i,
                forall|j: int| 0 <= j < i ==> data@[j] == self@[E1000_STATION_ADDR + j],
            decreases 6 - i,
        {
            data.push(self.read_byte(i + E1000_STATION_ADDR));
            i = i + 1;
        }
        data
    }

    /// Step 1 of bring-up: assert a device reset by writing the control
    /// register with only the reset bit set. The settling delay owed after
    /// this write is the caller's to perform.
    pub fn init_assert_reset(&mut self)
        requires
            old(self).wf(),
        ensures
            final(self).wf(),
            final(self)@ == word_store(old(self)@, E1000_REG_CTRL as int, ctrl_reset_value()),
    {
        self.write_cmd(E1000_REG_CTRL, 1u32 << 26);
    }

    /// Step 2 of bring-up: re-read the control register, set the auto
    /// speed detection and link up bits, clear the reset link, invert
    /// loss-of-signal and reset phy bits, and write the result back.
    pub fn init_configure_link(&mut self)
        requires
            old(self).wf(),
        ensures
            final(self).wf(),
            final(self)@ == word_store(
                old(self)@,
                E1000_REG_CTRL as int,
                link_setup_value(word_at(old(self)@, E1000_REG_CTRL as int)),
            ),
    {
        let mut status = self.read_cmd(E1000_REG_CTRL);
        status = status | (1u32 << 5);
        status = status | (1u32 << 6);
        status = status & !(1u32 << 3);
        status = status & !(1u32 << 31);
        status = status & !(1u32 << 7);
        self.write_cmd(E1000_REG_CTRL, status);
    }

    /// Step 3 of bring-up: re-read the control register, clear the
    /// VLAN-mode bit, and write the result back.
    pub fn init_clear_vlan(&mut self)
        requires
            old(self).wf(),
        ensures
            final(self).wf(),
            final(self)@ == word_store(
                old(self)@,
                E1000_REG_CTRL as int,
                vlan_clear_value(word_at(old(self)@, E1000_REG_CTRL as int)),
            ),
    {
        let mut status = self.read_cmd(E1000_REG_CTRL);
        status = status & !(1u32 << 30);
        self.write_cmd(E1000_REG_CTRL, status);
    }

    /// Steps 4 and 5 of bring-up: zero the receive-address-table block and
    /// the multicast-table-array block, clearing stale filter state, then
    /// perform one trailing status read whose result is discarded — it
    /// exists to flush and settle the bus.
    pub fn init_clear_filter_tables(&mut self)
        requires
            old(self).wf(),
        ensures
            final(self).wf(),
            final(self)@ == zero_words(
                zero_words(old(self)@, E1000_RA_TABLE_BASE as int, E1000_RA_TABLE_WORDS as nat),
                E1000_MTA_BASE as int,
                E1000_MTA_WORDS as nat,
            ),
    {
        let ghost s0 = self@;
        let mut i: usize = 0;
        while i < E1000_RA_TABLE_WORDS
            invariant
                self.wf(),
                0 <= i <= E1000_RA_TABLE_WORDS,
                self@ == zero_words(s0, E1000_RA_TABLE_BASE as int, i as nat),
            decreases E1000_RA_TABLE_WORDS - i,
        {
            self.write_cmd(E1000_RA_TABLE_BASE + i * 4, 0);
            i = i + 1;
        }
        let ghost s1 = self@;
        let mut j: usize = 0;
        while j < E1000_MTA_WORDS
            invariant
                self.wf(),
                0 <= j <= E1000_MTA_WORDS,
                self@ == zero_words(s1, E1000_MTA_BASE as int, j as nat),
            decreases E1000_MTA_WORDS - j,
        {
            self.write_cmd(E1000_MTA_BASE + j * 4, 0);
            j = j + 1;
        }
        let _ = self.read_status();
    }
}

/// Writing a register and immediately reading the same word offset back
/// returns the written value.
pub proof fn lemma_register_round_trip(s: Seq<u8>, w: int, v: u32)
    requires
        0 <= w,
        4 * w + 4 <= s.len(),
    ensures
        word_at(word_store(s, w, v), w) == v,
{
    let t = word_store(s, w, v);
    assert(t[4 * w] == (v & 0xff) as u8);
    assert(t[4 * w + 1] == ((v >> 8) & 0xff) as u8);
    assert(t[4 * w + 2] == ((v >> 16) & 0xff) as u8);
    assert(t[4 * w + 3] == ((v >> 24) & 0xff) as u8);
    assert((((v & 0xff) as u8) as u32) | (((((v >> 8) & 0xff) as u8) as u32) << 8) | (((((v >> 16)
        & 0xff) as u8) as u32) << 16) | (((((v >> 24) & 0xff) as u8) as u32) << 24) == v)
        by (bit_vector);
}

/// Writing one register leaves every other register reading unchanged.
pub proof fn lemma_register_store_frame(s: Seq<u8>, w: int, v: u32, w2: int)
    requires
        0 <= w,
        4 * w + 4 <= s.len(),
        0 <= w2,
        4 * w2 + 4 <= s.len(),
        w2 != w,
    ensures
        word_at(word_store(s, w, v), w2) == word_at(s, w2),
{
    let t = word_store(s, w, v);
    assert(t[4 * w2] == s[4 * w2]);
    assert(t[4 * w2 + 1] == s[4 * w2 + 1]);
    assert(t[4 * w2 + 2] == s[4 * w2 + 2]);
    assert(t[4 * w2 + 3] == s[4 * w2 + 3]);
}

/// A register store leaves every byte outside its word untouched.
pub proof fn lemma_register_store_byte_frame(s: Seq<u8>, w: int, v: u32, b: int)
    requires
        0 <= w,
        4 * w + 4 <= s.len(),
        0 <= b < s.len(),
        b < 4 * w || b >= 4 * w + 4,
    ensures
        word_store(s, w, v)[b] == s[b],
        word_store(s, w, v).len() == s.len(),
{
}

/// Clearing a block of words preserves the state's length.
pub proof fn lemma_zero_words_len(s: Seq<u8>, base: int, n: nat)
    requires
        0 <= base,
        4 * base + 16 * n <= s.len(),
    ensures
        zero_words(s, base, n).len() == s.len(),
    decreases n,
{
    if n > 0 {
        lemma_zero_words_len(s, base, (n - 1) as nat);
    }
}

/// Clearing a block of words leaves every byte outside the block's span
/// untouched.
pub proof fn lemma_zero_words_byte_frame(s: Seq<u8>, base: int, n: nat, b: int)
    requires
        0 <= base,
        4 * base + 16 * n <= s.len(),
        0 <= b < s.len(),
        b < 4 * base || b >= 4 * base + 16 * n,
    ensures
        zero_words(s, base, n)[b] == s[b],
    decreases n,
{
    if n > 0 {
        lemma_zero_words_len(s, base, (n - 1) as nat);
        lemma_zero_words_byte_frame(s, base, (n - 1) as nat, b);
    }
}

/// After a block clear, every word of the block reads zero.
pub proof fn lemma_zero_words_read(s: Seq<u8>, base: int, n: nat, k: int)
    requires
        0 <= base,
        0 <= k < n,
        4 * base + 16 * n <= s.len(),
    ensures
        word_at(zero_words(s, base, n), base + 4 * k) == 0,
    decreases n,
{
    lemma_zero_words_len(s, base, (n - 1) as nat);
    if k == n - 1 {
        lemma_register_round_trip(zero_words(s, base, (n - 1) as nat), base + 4 * (n - 1), 0u32);
    } else {
        lemma_zero_words_read(s, base, (n - 1) as nat, k);
        lemma_register_store_frame(
            zero_words(s, base, (n - 1) as nat),
            base + 4 * (n - 1),
            0u32,
            base + 4 * k,
        );
    }
}

/// The register state bring-up leaves behind when its steps run in the
/// documented order on initial state `s`.
pub open spec fn init_register_result(s: Seq<u8>) -> Seq<u8> {
    let s1 = word_store(s, E1000_REG_CTRL as int, ctrl_reset_value());
    let s2 = word_store(
        s1,
        E1000_REG_CTRL as int,
        link_setup_value(word_at(s1, E1000_REG_CTRL as int)),
    );
    let s3 = word_store(
        s2,
        E1000_REG_CTRL as int,
        vlan_clear_value(word_at(s2, E1000_REG_CTRL as int)),
    );
    zero_words(
        zero_words(s3, E1000_RA_TABLE_BASE as int, E1000_RA_TABLE_WORDS as nat),
        E1000_MTA_BASE as int,
        E1000_MTA_WORDS as nat,
    )
}

/// Bring-up, run in the documented order, is deterministic in its register
/// effects: the control register ends at the value the three masked steps
/// compose to, both filter-table blocks read zero, and the station-address
/// bytes are untouched.
pub proof fn lemma_init_sequence(s: Seq<u8>)
    requires
        s.len() >= E1000_REG_SPACE_BYTES,
    ensures
        init_register_result(s).len() == s.len(),
        word_at(init_register_result(s), E1000_REG_CTRL as int) == 0x0400_0060u32,
        forall|w: int|
            E1000_RA_TABLE_BASE <= w < E1000_RA_TABLE_BASE + 4 * E1000_RA_TABLE_WORDS && (w
                - E1000_RA_TABLE_BASE) % 4 == 0 ==> #[trigger] word_at(init_register_result(s), w)
                == 0,
        forall|w: int|
            E1000_MTA_BASE <= w < E1000_MTA_BASE + 4 * E1000_MTA_WORDS && (w - E1000_MTA_BASE) % 4
                == 0 ==> #[trigger] word_at(init_register_result(s), w) == 0,
        forall|b: int|
            E1000_STATION_ADDR <= b < E1000_STATION_ADDR + 6 ==> init_register_result(s)[b] == s[b],
{
    let ctrl = E1000_REG_CTRL as int;
    let ra = E1000_RA_TABLE_BASE as int;
    let mta = E1000_MTA_BASE as int;
    let s1 = word_store(s, ctrl, ctrl_reset_value());
    lemma_register_round_trip(s, ctrl, ctrl_reset_value());
    let s2 = word_store(s1, ctrl, link_setup_value(word_at(s1, ctrl)));
    lemma_register_round_trip(s1, ctrl, link_setup_value(word_at(s1, ctrl)));
    let s3 = word_store(s2, ctrl, vlan_clear_value(word_at(s2, ctrl)));
    lemma_register_round_trip(s2, ctrl, vlan_clear_value(word_at(s2, ctrl)));
    assert(word_at(s3, ctrl) == vlan_clear_value(link_setup_value(ctrl_reset_value())));
    assert(vlan_clear_value(link_setup_value(ctrl_reset_value())) == 0x0400_0060u32) by {
        assert(((1u32 << 26) | (1u32 << 5) | (1u32 << 6)) & !(1u32 << 3) & !(1u32 << 31) & !(1u32
            << 7) & !(1u32 << 30) == 0x0400_0060u32) by (bit_vector);
    }
    let s4 = zero_words(s3, ra, E1000_RA_TABLE_WORDS as nat);
    let s5 = zero_words(s4, mta, E1000_MTA_WORDS as nat);
    lemma_zero_words_len(s3, ra, E1000_RA_TABLE_WORDS as nat);
    lemma_zero_words_len(s4, mta, E1000_MTA_WORDS as nat);
    // The control word lies below both cleared blocks.
    assert forall|b: int| 0 <= b < 4 implies s5[b] == s3[b] by {
        lemma_zero_words_byte_frame(s3, ra, E1000_RA_TABLE_WORDS as nat, b);
        lemma_zero_words_byte_frame(s4, mta, E1000_MTA_WORDS as nat, b);
    }
    assert(word_at(s5, ctrl) == word_at(s3, ctrl));
    // The receive-address block survives the later multicast clear.
    assert forall|w: int|
        ra <= w < ra + 4 * E1000_RA_TABLE_WORDS && (w - ra) % 4 == 0 implies #[trigger] word_at(
        s5,
        w,
    ) == 0 by {
        let k = (w - ra) / 4;
        vstd::arithmetic::div_mod::lemma_fundamental_div_mod(w - ra, 4);
        assert(w == ra + 4 * k);
        lemma_zero_words_read(s3, ra, E1000_RA_TABLE_WORDS as nat, k);
        assert forall|b: int| 4 * w <= b < 4 * w + 4 implies s5[b] == s4[b] by {
            lemma_zero_words_byte_frame(s4, mta, E1000_MTA_WORDS as nat, b);
        }
        assert(word_at(s5, w) == word_at(s4, w));
    }
    assert forall|w: int|
        mta <= w < mta + 4 * E1000_MTA_WORDS && (w - mta) % 4 == 0 implies #[trigger] word_at(
        s5,
        w,
    ) == 0 by {
        let k = (w - mta) / 4;
        vstd::arithmetic::div_mod::lemma_fundamental_div_mod(w - mta, 4);
        assert(w == mta + 4 * k);
        lemma_zero_words_read(s4, mta, E1000_MTA_WORDS as nat, k);
    }
    // The station-address bytes lie outside every touched range.
    assert forall|b: int|
        E1000_STATION_ADDR <= b < E1000_STATION_ADDR + 6 implies s5[b] == s[b] by {
        lemma_register_store_byte_frame(s, ctrl, ctrl_reset_value(), b);
        lemma_register_store_byte_frame(s1, ctrl, link_setup_value(word_at(s1, ctrl)), b);
        lemma_register_store_byte_frame(s2, ctrl, vlan_clear_value(word_at(s2, ctrl)), b);
        lemma_zero_words_byte_frame(s3, ra, E1000_RA_TABLE_WORDS as nat, b);
        lemma_zero_words_byte_frame(s4, mta, E1000_MTA_WORDS as nat, b);
    }
}

/// Whether a device identifier is in the supported-device list.
pub open spec fn supported_device(id: int) -> bool {
    id == 0x15b8
}

/// The device identifiers this driver supports.
pub fn e1000_supported_devices() -> (r: Vec<u32>)
    ensures
        r@ =~= seq![0x15b8u32],
{
    let ids: Vec<u32> = vec![0x15b8u32];
    proof {
        assert(ids@ =~= seq![0x15b8u32]);
    }
    ids
}

/// Whether the given device identifier is supported.
pub fn is_supported_device(device_id: u32) -> (r: bool)
    ensures
        r == supported_device(device_id as int),
{
    let ids = e1000_supported_devices();
    let mut j: usize = 0;
    while j < ids.len()
        invariant
            0 <= j <= ids@.len(),
            ids@ =~= seq![0x15b8u32],
            forall|t: int| 0 <= t < j ==> ids@[t] != device_id,
        decreases ids@.len() - j,
    {
        if ids[j] == device_id {
            return true;
        }
        j = j + 1;
    }
    proof {
        assert(ids@[0] != device_id);
    }
    false
}

/// Whether a device's identity attributes pass vendor/device filtering.
pub open spec fn e1000_device_accepted(vendor_attr: Seq<u8>, device_attr: Seq<u8>) -> bool {
    match (hex_id_value(vendor_attr), hex_id_value(device_attr)) {
        (Some(v), Some(d)) => v == 0x8086 && supported_device(d),
        _ => false,
    }
}

/// Decides, from the raw `vendor` and `device` attribute contents, whether
/// the device is one this driver supports: vendor `0x8086` and a device
/// identifier in the supported list. Malformed attributes are a `Parse`
/// failure.
pub fn e1000_accepts(vendor_attr: &[u8], device_attr: &[u8]) -> (r: Result<bool, UioError>)
    ensures
        r is Ok <==> hex_id_value(vendor_attr@) is Some && hex_id_value(device_attr@) is Some,
        r matches Ok(b) ==> b == e1000_device_accepted(vendor_attr@, device_attr@),
        r matches Err(e) ==> e == UioError::Parse,
{
    let vendor = match parse_hex_id(vendor_attr) {
        Ok(v) => v,
        Err(e) => {
            return Err(e);
        },
    };
    let device = match parse_hex_id(device_attr) {
        Ok(v) => v,
        Err(e) => {
            return Err(e);
        },
    };
    Ok(vendor == 0x8086 && is_supported_device(device))
}

} // verus!
