//! The SMBIOS firmware table: installed RAM modules (type 17), the
//! baseboard (type 2), the BIOS (type 0) and the machine (type 1).
//!
//! A table is a run of structures. Each starts with a header (type,
//! length, handle), carries `length` bytes of formatted data and then a
//! set of NUL-terminated strings that ends with a double NUL. The table
//! handed in here is the raw firmware blob with its 8-byte
//! `RawSMBIOSData` header still in front.

use vstd::prelude::*;

use crate::text::{
    from_utf8_lossy, string_from, trim_chars, trim_spec, utf8_lossy,
};

verus! {

/// One installed RAM module.
#[derive(Debug, Clone, Default)]
pub struct RamModule {
    pub size_mb: u64,
    /// Maximum speed of the module (MT/s).
    pub speed_mts: u32,
    /// Configured speed (MT/s) — what it really runs at.
    pub configured_mts: u32,
    /// Slot (DeviceLocator, e.g. "DIMM_A1").
    pub slot: String,
    pub manufacturer: String,
    pub part_number: String,
}

/// Baseboard, firmware and machine — what SMBIOS reports. An empty
/// string means "the board does not report it"; nothing is guessed.
#[derive(Debug, Clone, Default, PartialEq, Eq)]
pub struct Board {
    pub manufacturer: String,
    pub product: String,
    pub version: String,
    pub serial: String,
    /// BIOS/UEFI (type 0).
    pub bios_vendor: String,
    pub bios_version: String,
    pub bios_date: String,
    /// Machine (type 1) — usually the model on notebooks.
    pub system_manufacturer: String,
    pub system_product: String,
}

/// One structure of the table: its type, where it starts, the length of
/// its formatted part and where its string set ends (the next structure
/// starts two bytes further, past the double NUL).
#[derive(Clone, Copy)]
struct Span {
    stype: u8,
    start: usize,
    length: usize,
    end: usize,
}

/// The structure as a tuple of integers.
pub open spec fn span_tuple(stype: u8, start: int, length: int, end: int) -> (u8, int, int, int) {
    (stype, start, length, end)
}

spec fn span_view(s: Span) -> (u8, int, int, int) {
    (s.stype, s.start as int, s.length as int, s.end as int)
}

/// End of the string set that begins at `e`: the first position from `e`
/// on that holds a double NUL, or the last byte of the data.
pub open spec fn strings_end(data: Seq<u8>, e: int) -> int
    decreases data.len() - e,
{
    if e + 1 < data.len() && !(data[e] == 0 && data[e + 1] == 0) {
        strings_end(data, e + 1)
    } else {
        e
    }
}

pub proof fn lemma_strings_end_bounds(data: Seq<u8>, e: int)
    requires
        0 <= e <= data.len(),
    ensures
        e <= strings_end(data, e) <= data.len(),
    decreases data.len() - e,
{
    if e + 1 < data.len() && !(data[e] == 0 && data[e + 1] == 0) {
        lemma_strings_end_bounds(data, e + 1);
    }
}

/// The structures of the table from offset `off` on: the walk stops at a
/// header that does not fit, a length below 4 or past the data, or the
/// end-of-table structure (type 127).
pub open spec fn structures_from(data: Seq<u8>, off: int) -> Seq<(u8, int, int, int)>
    decreases data.len() + 2 - off,
    via structures_from_decreases
{
    if off < 0 || off + 4 > data.len() {
        seq![]
    } else {
        let stype = data[off];
        let length = data[off + 1] as int;
        if length < 4 || off + length > data.len() {
            seq![]
        } else {
            let end = strings_end(data, off + length);
            if stype == 127 {
                seq![]
            } else {
                seq![span_tuple(stype, off, length, end)] + structures_from(data, end + 2)
            }
        }
    }
}

#[via_fn]
proof fn structures_from_decreases(data: Seq<u8>, off: int) {
    if 0 <= off && off + 4 <= data.len() {
        let length = data[off + 1] as int;
        if 4 <= length && off + length <= data.len() {
            lemma_strings_end_bounds(data, off + length);
        }
    }
}

/// Walks the structures of the table.
fn structures(data: &[u8]) -> (r: Vec<Span>)
    ensures
        r@.map_values(|s: Span| span_view(s)) == structures_from(data@, 0),
        forall|i: int|
            0 <= i < r@.len() ==> {
                let s = #[trigger] r@[i];
                4 <= s.length && s.start + s.length <= s.end <= data@.len()
            },
{
    let mut out: Vec<Span> = Vec::new();
    let mut off: usize = 0;
    loop
        invariant_except_break
            off <= data@.len(),
            out@.map_values(|s: Span| span_view(s)) + structures_from(data@, off as int)
                == structures_from(data@, 0),
        invariant
            forall|i: int|
                0 <= i < out@.len() ==> {
                    let s = #[trigger] out@[i];
                    4 <= s.length && s.start + s.length <= s.end <= data@.len()
                },
        ensures
            out@.map_values(|s: Span| span_view(s)) == structures_from(data@, 0),
        decreases data@.len() - off,
    {
        let ghost prev = out@.map_values(|s: Span| span_view(s));
        if data.len() - off < 4 {
            assert(prev + seq![] =~= prev);
            break;
        }
        let stype = data[off];
        let length = data[off + 1] as usize;
        if length < 4 || length > data.len() - off {
            assert(prev + seq![] =~= prev);
            break;
        }
        let mut end = off + length;
        while data.len() - end > 1 && !(data[end] == 0 && data[end + 1] == 0)
            invariant
                off + length <= end <= data@.len(),
                strings_end(data@, end as int) == strings_end(data@, off + length),
            decreases data@.len() - end,
        {
            end = end + 1;
        }
        if stype == 127 {
            assert(prev + seq![] =~= prev);
            break;
        }
        proof {
            lemma_strings_end_bounds(data@, off + length);
        }
        let span = Span { stype, start: off, length, end };
        out.push(span);
        proof {
            let v = out@.map_values(|s: Span| span_view(s));
            assert(v =~= prev.push(span_view(span)));
            assert(structures_from(data@, off as int) == seq![span_view(span)] + structures_from(
                data@,
                end + 2,
            ));
            assert(v + structures_from(data@, end + 2) =~= prev + structures_from(
                data@,
                off as int,
            ));
        }
        if data.len() - end < 2 {
            proof {
                let v = out@.map_values(|s: Span| span_view(s));
                assert(structures_from(data@, end + 2) =~= seq![]);
                assert(v + seq![] =~= v);
            }
            break;
        }
        off = end + 2;
    }
    out
}


/// Index of the first NUL at or after `i`, or the length.
pub open spec fn first_zero(s: Seq<u8>, i: int) -> int
    decreases s.len() - i,
{
    if i < 0 || i >= s.len() || s[i] == 0 {
        i
    } else {
        first_zero(s, i + 1)
    }
}

/// Piece `k` (counting from 0) of `s[start..]` split at NUL bytes, as
/// `slice::split(|&b| b == 0)` yields them.
pub open spec fn piece(s: Seq<u8>, start: int, k: nat) -> Option<Seq<u8>>
    decreases k,
{
    let e = first_zero(s, start);
    if k == 0 {
        Some(s.subrange(start, e))
    } else if e >= s.len() {
        None
    } else {
        piece(s, e + 1, (k - 1) as nat)
    }
}

/// String `index` (1-based; 0 = none) of a string set: lossily decoded
/// from UTF-8 and trimmed; empty when the set has no such string.
pub open spec fn smbios_string(strings: Seq<u8>, index: u8) -> Seq<char> {
    if index == 0 {
        seq![]
    } else {
        match piece(strings, 0, (index - 1) as nat) {
            Some(p) => trim_spec(utf8_lossy(p)),
            None => seq![],
        }
    }
}

proof fn lemma_first_zero_bounds(s: Seq<u8>, i: int)
    requires
        0 <= i <= s.len(),
    ensures
        i <= first_zero(s, i) <= s.len(),
        first_zero(s, i) < s.len() ==> s[first_zero(s, i)] == 0,
    decreases s.len() - i,
{
    if i < s.len() && s[i] != 0 {
        lemma_first_zero_bounds(s, i + 1);
    }
}

/// The `index`-th string of the string set (see `smbios_string`).
fn get_string(strings: &[u8], index: u8) -> (r: String)
    ensures
        r@ == smbios_string(strings@, index),
{
    if index == 0 {
        return String::new();
    }
    let mut k: u8 = index - 1;
    let mut start: usize = 0;
    loop
        invariant
            index > 0,
            start <= strings@.len(),
            piece(strings@, start as int, k as nat) == piece(strings@, 0, (index - 1) as nat),
        decreases k,
    {
        let mut e = start;
        while e < strings.len() && strings[e] != 0
            invariant
                start <= e <= strings@.len(),
                first_zero(strings@, e as int) == first_zero(strings@, start as int),
            decreases strings@.len() - e,
        {
            e = e + 1;
        }
        assert(first_zero(strings@, e as int) == e);
        if k == 0 {
            let p = vstd::slice::slice_subrange(strings, start, e);
            let lossy = from_utf8_lossy(p);
            let cs = crate::text::chars_of(lossy.as_str());
            let t = trim_chars(&cs);
            return string_from(&t);
        }
        if e >= strings.len() {
            return String::new();
        }
        start = e + 1;
        k = k - 1;
    }
}

/// `body[off]`, or 0 past its end.
pub open spec fn byte_at(body: Seq<u8>, off: int) -> u8 {
    if 0 <= off < body.len() {
        body[off]
    } else {
        0
    }
}

/// Little-endian `u16` at `body[off..off + 2]`, or 0 when it does not fit.
pub open spec fn u16_at(body: Seq<u8>, off: int) -> u16 {
    if 0 <= off && off + 2 <= body.len() {
        (body[off] as int + body[off + 1] as int * 256) as u16
    } else {
        0
    }
}

/// Little-endian `u32` at `body[off..off + 4]` (which must fit).
pub open spec fn u32_at(body: Seq<u8>, off: int) -> u32 {
    (body[off] as int + body[off + 1] as int * 0x100 + body[off + 2] as int * 0x1_0000
        + body[off + 3] as int * 0x100_0000) as u32
}

fn at(body: &[u8], off: usize) -> (r: u8)
    ensures
        r == byte_at(body@, off as int),
{
    if off < body.len() {
        body[off]
    } else {
        0
    }
}

fn get_u16(body: &[u8], off: usize) -> (r: u16)
    ensures
        r == u16_at(body@, off as int),
{
    if off <= body.len() && body.len() - off >= 2 {
        (body[off] as u16) + (body[off + 1] as u16) * 256
    } else {
        0
    }
}

fn get_u32(body: &[u8], off: usize) -> (r: u32)
    requires
        off + 4 <= body@.len(),
    ensures
        r == u32_at(body@, off as int),
{
    (body[off] as u32) + (body[off + 1] as u32) * 0x100 + (body[off + 2] as u32) * 0x1_0000
        + (body[off + 3] as u32) * 0x100_0000
}

/// A RAM module as mathematical values.
pub struct RamModuleView {
    pub size_mb: u64,
    pub speed_mts: u32,
    pub configured_mts: u32,
    pub slot: Seq<char>,
    pub manufacturer: Seq<char>,
    pub part_number: Seq<char>,
}

impl View for RamModule {
    type V = RamModuleView;

    open spec fn view(&self) -> RamModuleView {
        RamModuleView {
            size_mb: self.size_mb,
            speed_mts: self.speed_mts,
            configured_mts: self.configured_mts,
            slot: self.slot@,
            manufacturer: self.manufacturer@,
            part_number: self.part_number@,
        }
    }
}

/// Module size in MB from a type 17 formatted part: 0x7FFF means the
/// size is in the extended size field (a `u32` at 0x1C), bit 15 means
/// the unit is kB, otherwise it is MB.
pub open spec fn module_size_mb(body: Seq<u8>) -> u64 {
    let raw = u16_at(body, 0x0C);
    if raw == 0x7FFF && body.len() >= 0x20 {
        u32_at(body, 0x1C) as u64
    } else if raw >= 0x8000 {
        ((raw - 0x8000) / 1024) as u64
    } else {
        raw as u64
    }
}

/// The slot name: DeviceLocator, completed by BankLocator when that says
/// something else (`"DIMM_A1 (BANK 0)"`), or BankLocator alone when the
/// device locator is empty.
pub open spec fn slot_name(device: Seq<char>, bank: Seq<char>) -> Seq<char> {
    if device.len() == 0 {
        bank
    } else if bank.len() > 0 && bank != device {
        device + seq![' ', '('] + bank + seq![')']
    } else {
        device
    }
}

/// The module a type 17 structure describes; `None` for an empty slot
/// (size 0).
pub open spec fn module_of(body: Seq<u8>, strings: Seq<u8>) -> Option<RamModuleView> {
    if u16_at(body, 0x0C) == 0 {
        None
    } else {
        Some(
            RamModuleView {
                size_mb: module_size_mb(body),
                speed_mts: u16_at(body, 0x15) as u32,
                configured_mts: u16_at(body, 0x20) as u32,
                slot: slot_name(
                    smbios_string(strings, byte_at(body, 0x10)),
                    smbios_string(strings, byte_at(body, 0x11)),
                ),
                manufacturer: smbios_string(strings, byte_at(body, 0x17)),
                part_number: smbios_string(strings, byte_at(body, 0x1A)),
            },
        )
    }
}

/// The formatted part of a structure.
pub open spec fn body_of(data: Seq<u8>, sp: (u8, int, int, int)) -> Seq<u8> {
    data.subrange(sp.1, sp.1 + sp.2)
}

/// The string set of a structure.
pub open spec fn strings_of(data: Seq<u8>, sp: (u8, int, int, int)) -> Seq<u8> {
    data.subrange(sp.1 + sp.2, sp.3)
}

/// Every memory device structure is long enough to hold the size field
/// (0x0C..0x0E) that is read from it.
pub open spec fn memory_devices_well_formed(data: Seq<u8>) -> bool {
    forall|i: int|
        0 <= i < structures_from(data, 0).len() ==> {
            let sp = #[trigger] structures_from(data, 0)[i];
            sp.0 == 17 ==> sp.2 >= 0x0E
        }
}

/// RAM modules and slot count over the first `n` structures.
pub open spec fn modules_upto(data: Seq<u8>, sps: Seq<(u8, int, int, int)>) -> (
    Seq<RamModuleView>,
    nat,
)
    decreases sps.len(),
{
    if sps.len() == 0 {
        (seq![], 0)
    } else {
        let prev = modules_upto(data, sps.drop_last());
        let sp = sps.last();
        if sp.0 != 17 {
            prev
        } else {
            match module_of(body_of(data, sp), strings_of(data, sp)) {
                Some(m) => (prev.0.push(m), prev.1 + 1),
                None => (prev.0, prev.1 + 1),
            }
        }
    }
}

/// The installed modules and the number of memory device slots the
/// table describes.
pub open spec fn type17_spec(data: Seq<u8>) -> (Seq<RamModuleView>, nat) {
    modules_upto(data, structures_from(data, 0))
}

fn module_from(body: &[u8], strings: &[u8]) -> (r: Option<RamModule>)
    requires
        body@.len() >= 0x0E,
    ensures
        match (r, module_of(body@, strings@)) {
            (Some(m), Some(v)) => m@ == v,
            (None, None) => true,
            _ => false,
        },
{
    let size_raw = get_u16(body, 0x0C);
    if size_raw == 0 {
        return None;
    }
    let size_mb: u64 = if size_raw == 0x7FFF && body.len() >= 0x20 {
        get_u32(body, 0x1C) as u64
    } else if size_raw >= 0x8000 {
        ((size_raw - 0x8000) / 1024) as u64
    } else {
        size_raw as u64
    };
    let device = get_string(strings, at(body, 0x10));
    let bank = get_string(strings, at(body, 0x11));
    let dv = crate::text::chars_of(device.as_str());
    let bv = crate::text::chars_of(bank.as_str());
    let slot = if dv.len() == 0 {
        bank
    } else if bv.len() > 0 && !crate::text::chars_eq(&bv, &dv) {
        let mut all = dv.clone();
        all.push(' ');
        all.push('(');
        let mut k: usize = 0;
        let ghost base = all@;
        while k < bv.len()
            invariant
                k <= bv.len(),
                all@ == base + bv@.take(k as int),
            decreases bv.len() - k,
        {
            all.push(bv[k]);
            k = k + 1;
            assert(all@ =~= base + bv@.take(k as int));
        }
        all.push(')');
        assert(bv@.take(bv@.len() as int) =~= bv@);
        assert(all@ =~= dv@ + seq![' ', '('] + bv@ + seq![')']);
        string_from(&all)
    } else {
        device
    };
    Some(
        RamModule {
            size_mb,
            speed_mts: get_u16(body, 0x15) as u32,
            configured_mts: get_u16(body, 0x20) as u32,
            slot,
            manufacturer: get_string(strings, at(body, 0x17)),
            part_number: get_string(strings, at(body, 0x1A)),
        },
    )
}


proof fn lemma_structures_len(data: Seq<u8>, off: int)
    requires
        0 <= off <= data.len() + 2,
    ensures
        structures_from(data, off).len() * 6 <= data.len() + 2 - off,
    decreases data.len() + 2 - off,
{
    if 0 <= off && off + 4 <= data.len() {
        let length = data[off + 1] as int;
        if 4 <= length && off + length <= data.len() && data[off] != 127 {
            lemma_strings_end_bounds(data, off + length);
            lemma_structures_len(data, strings_end(data, off + length) + 2);
        }
    }
}

/// Installed modules and the number of memory device slots in the
/// structures of `data` (the table without its 8-byte header).
fn parse_type17(data: &[u8]) -> (r: (Vec<RamModule>, u32))
    requires
        memory_devices_well_formed(data@),
        data@.len() <= u32::MAX,
    ensures
        r.0@.map_values(|m: RamModule| m@) == type17_spec(data@).0,
        r.1 == type17_spec(data@).1,
{
    let spans = structures(data);
    let ghost sps = spans@.map_values(|s: Span| span_view(s));
    proof {
        lemma_structures_len(data@, 0);
    }
    let mut modules: Vec<RamModule> = Vec::new();
    let mut slots: u32 = 0;
    let mut i: usize = 0;
    while i < spans.len()
        invariant
            i <= spans@.len(),
            sps == spans@.map_values(|s: Span| span_view(s)),
            sps == structures_from(data@, 0),
            sps.len() * 6 <= data@.len() + 2,
            data@.len() <= u32::MAX,
            memory_devices_well_formed(data@),
            slots <= i,
            forall|k: int|
                0 <= k < spans@.len() ==> {
                    let s = #[trigger] spans@[k];
                    4 <= s.length && s.start + s.length <= s.end <= data@.len()
                },
            modules@.map_values(|m: RamModule| m@) == modules_upto(data@, sps.take(i as int)).0,
            slots == modules_upto(data@, sps.take(i as int)).1,
        decreases spans@.len() - i,
    {
        let sp = spans[i];
        let ghost spv = span_view(sp);
        proof {
            assert(sps[i as int] == spv);
            assert(sps.take(i + 1).drop_last() =~= sps.take(i as int));
            assert(sps.take(i + 1).last() == spv);
        }
        if sp.stype == 17 {
            proof {
                assert(spv.2 >= 0x0E);
            }
            let body = vstd::slice::slice_subrange(data, sp.start, sp.start + sp.length);
            let strings = vstd::slice::slice_subrange(data, sp.start + sp.length, sp.end);
            assert(body@ == body_of(data@, spv));
            assert(strings@ == strings_of(data@, spv));
            let ghost before = modules@.map_values(|m: RamModule| m@);
            match module_from(body, strings) {
                Some(m) => {
                    modules.push(m);
                    assert(modules@.map_values(|m: RamModule| m@) =~= before.push(m@));
                },
                None => {},
            }
            slots = slots + 1;
        }
        i = i + 1;
    }
    assert(sps.take(spans@.len() as int) =~= sps);
    (modules, slots)
}

/// The RAM modules of a raw SMBIOS table (with its 8-byte header) and the
/// number of memory device slots; nothing when the table is shorter than
/// its header.
pub fn ram_modules(table: &[u8]) -> (r: (Vec<RamModule>, u32))
    requires
        table@.len() >= 8 ==> memory_devices_well_formed(table@.skip(8)),
        table@.len() <= u32::MAX,
    ensures
        table@.len() < 8 ==> r.0@.len() == 0 && r.1 == 0,
        table@.len() >= 8 ==> r.0@.map_values(|m: RamModule| m@) == type17_spec(
            table@.skip(8),
        ).0 && r.1 == type17_spec(table@.skip(8)).1,
{
    if table.len() < 8 {
        return (Vec::new(), 0);
    }
    let data = vstd::slice::slice_subrange(table, 8, table.len());
    assert(data@ =~= table@.skip(8));
    parse_type17(data)
}

/// Whether `ram_modules` can read the table: every memory device
/// structure holds its size field.
pub fn ram_table_well_formed(table: &[u8]) -> (b: bool)
    ensures
        b == (table@.len() >= 8 ==> memory_devices_well_formed(table@.skip(8))),
{
    if table.len() < 8 {
        return true;
    }
    let data = vstd::slice::slice_subrange(table, 8, table.len());
    assert(data@ =~= table@.skip(8));
    let spans = structures(data);
    let ghost sps = spans@.map_values(|s: Span| span_view(s));
    let mut i: usize = 0;
    while i < spans.len()
        invariant
            i <= spans@.len(),
            sps == spans@.map_values(|s: Span| span_view(s)),
            sps == structures_from(data@, 0),
            forall|k: int| 0 <= k < i ==> (#[trigger] sps[k]).0 == 17 ==> sps[k].2 >= 0x0E,
            data@ == table@.skip(8),
            table@.len() >= 8,
        decreases spans@.len() - i,
    {
        let sp = spans[i];
        assert(sps[i as int] == span_view(sp));
        if sp.stype == 17 && sp.length < 0x0E {
            assert(!memory_devices_well_formed(data@)) by {
                assert(structures_from(data@, 0)[i as int] == sps[i as int]);
            }
            return false;
        }
        i = i + 1;
    }
    true
}

/// A board as mathematical values.
pub struct BoardView {
    pub manufacturer: Seq<char>,
    pub product: Seq<char>,
    pub version: Seq<char>,
    pub serial: Seq<char>,
    pub bios_vendor: Seq<char>,
    pub bios_version: Seq<char>,
    pub bios_date: Seq<char>,
    pub system_manufacturer: Seq<char>,
    pub system_product: Seq<char>,
}

impl View for Board {
    type V = BoardView;

    open spec fn view(&self) -> BoardView {
        BoardView {
            manufacturer: self.manufacturer@,
            product: self.product@,
            version: self.version@,
            serial: self.serial@,
            bios_vendor: self.bios_vendor@,
            bios_version: self.bios_version@,
            bios_date: self.bios_date@,
            system_manufacturer: self.system_manufacturer@,
            system_product: self.system_product@,
        }
    }
}

/// The board nothing has been read into.
pub open spec fn empty_board() -> BoardView {
    BoardView {
        manufacturer: seq![],
        product: seq![],
        version: seq![],
        serial: seq![],
        bios_vendor: seq![],
        bios_version: seq![],
        bios_date: seq![],
        system_manufacturer: seq![],
        system_product: seq![],
    }
}

/// What one structure adds: type 0 sets the BIOS strings, type 1 the
/// machine, and the first type 2 with a product (later ones are riser
/// cards) the baseboard.
pub open spec fn board_step(b: BoardView, body: Seq<u8>, strings: Seq<u8>, stype: u8) -> BoardView {
    if stype == 0 {
        BoardView {
            bios_vendor: smbios_string(strings, byte_at(body, 0x04)),
            bios_version: smbios_string(strings, byte_at(body, 0x05)),
            bios_date: smbios_string(strings, byte_at(body, 0x08)),
            ..b
        }
    } else if stype == 1 {
        BoardView {
            system_manufacturer: smbios_string(strings, byte_at(body, 0x04)),
            system_product: smbios_string(strings, byte_at(body, 0x05)),
            ..b
        }
    } else if stype == 2 && b.product.len() == 0 {
        BoardView {
            manufacturer: smbios_string(strings, byte_at(body, 0x04)),
            product: smbios_string(strings, byte_at(body, 0x05)),
            version: smbios_string(strings, byte_at(body, 0x06)),
            serial: smbios_string(strings, byte_at(body, 0x07)),
            ..b
        }
    } else {
        b
    }
}

/// The board after reading the structures `sps` in order.
pub open spec fn board_upto(data: Seq<u8>, sps: Seq<(u8, int, int, int)>) -> BoardView
    decreases sps.len(),
{
    if sps.len() == 0 {
        empty_board()
    } else {
        let sp = sps.last();
        board_step(board_upto(data, sps.drop_last()), body_of(data, sp), strings_of(data, sp), sp.0)
    }
}

/// The board a table (without its header) describes.
pub open spec fn board_spec(data: Seq<u8>) -> BoardView {
    board_upto(data, structures_from(data, 0))
}

fn parse_board(data: &[u8]) -> (r: Board)
    ensures
        r@ == board_spec(data@),
{
    let spans = structures(data);
    let ghost sps = spans@.map_values(|s: Span| span_view(s));
    let mut out = Board {
        manufacturer: String::new(),
        product: String::new(),
        version: String::new(),
        serial: String::new(),
        bios_vendor: String::new(),
        bios_version: String::new(),
        bios_date: String::new(),
        system_manufacturer: String::new(),
        system_product: String::new(),
    };
    assert(out@ == empty_board());
    assert(sps.take(0) =~= Seq::<(u8, int, int, int)>::empty());
    let mut i: usize = 0;
    while i < spans.len()
        invariant
            i <= spans@.len(),
            sps == spans@.map_values(|s: Span| span_view(s)),
            sps == structures_from(data@, 0),
            forall|k: int|
                0 <= k < spans@.len() ==> {
                    let s = #[trigger] spans@[k];
                    4 <= s.length && s.start + s.length <= s.end <= data@.len()
                },
            out@ == board_upto(data@, sps.take(i as int)),
        decreases spans@.len() - i,
    {
        let sp = spans[i];
        let ghost spv = span_view(sp);
        let ghost prev = out@;
        proof {
            assert(sps[i as int] == spv);
            assert(sps.take(i + 1).drop_last() =~= sps.take(i as int));
            assert(sps.take(i + 1).last() == spv);
        }
        let body = vstd::slice::slice_subrange(data, sp.start, sp.start + sp.length);
        let strings = vstd::slice::slice_subrange(data, sp.start + sp.length, sp.end);
        assert(body@ == body_of(data@, spv));
        assert(strings@ == strings_of(data@, spv));
        if sp.stype == 0 {
            out.bios_vendor = get_string(strings, at(body, 0x04));
            out.bios_version = get_string(strings, at(body, 0x05));
            out.bios_date = get_string(strings, at(body, 0x08));
        } else if sp.stype == 1 {
            out.system_manufacturer = get_string(strings, at(body, 0x04));
            out.system_product = get_string(strings, at(body, 0x05));
        } else if sp.stype == 2 && out.product.as_str().is_empty() {
            out.manufacturer = get_string(strings, at(body, 0x04));
            out.product = get_string(strings, at(body, 0x05));
            out.version = get_string(strings, at(body, 0x06));
            out.serial = get_string(strings, at(body, 0x07));
        }
        assert(out@ == board_step(prev, body@, strings@, sp.stype));
        i = i + 1;
    }
    assert(sps.take(spans@.len() as int) =~= sps);
    out
}

/// The board, firmware and machine a raw SMBIOS table (with its 8-byte
/// header) describes; all empty when the table holds nothing past the
/// header.
pub fn board(table: &[u8]) -> (r: Board)
    ensures
        table@.len() <= 8 ==> r@ == empty_board(),
        table@.len() > 8 ==> r@ == board_spec(table@.skip(8)),
{
    if table.len() <= 8 {
        let b = Board {
            manufacturer: String::new(),
            product: String::new(),
            version: String::new(),
            serial: String::new(),
            bios_vendor: String::new(),
            bios_version: String::new(),
            bios_date: String::new(),
            system_manufacturer: String::new(),
            system_product: String::new(),
        };
        return b;
    }
    let data = vstd::slice::slice_subrange(table, 8, table.len());
    assert(data@ =~= table@.skip(8));
    parse_board(data)
}

} // verus!
