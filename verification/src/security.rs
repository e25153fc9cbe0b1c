//! State of the built-in Windows protection — READ ONLY.
//!
//! One question: "am I protected?" The answers come from public sources
//! (SecurityCenter2 WMI, Defender WMI, the registry, BitLocker WMI) and
//! where there is no answer, that is said — no guessing. The queries run
//! outside this crate and hand in their rows and values; what they mean
//! is decided here.

use vstd::prelude::*;

use crate::text::{
    chars_eq, chars_of, contains, eq_ignore_ascii_case, eq_ignore_ascii_case_spec, occurs_from,
    parse_u32, parse_u32_spec, parse_u64, parse_u64_spec, piece_at, split_piece, string_from,
    trim_chars, trim_spec,
};

verus! {

/// One antivirus as Security Center knows it.
#[derive(Debug, Clone, Default, PartialEq, Eq)]
pub struct AvProduct {
    pub name: String,
    /// Is realtime protection running? (productState bit 0x1000)
    pub enabled: bool,
    /// Are the definitions current? (bit 0x10 = out of date)
    pub up_to_date: bool,
    /// The registered program is NOT on disk.
    ///
    /// Security Center need not clean a registration up after an
    /// uninstall, so an antivirus long gone can hang there for years —
    /// and report itself as running. Without this flag the user would be
    /// told of protection that is not there.
    pub leftover: bool,
}

/// Details of Defender from its own WMI (only when it is active).
#[derive(Debug, Clone, Default, PartialEq, Eq)]
pub struct DefenderStatus {
    pub realtime: bool,
    /// Age of the definitions in days.
    pub signature_age_days: Option<u32>,
    /// Age of the last quick scan in days.
    pub quick_scan_age_days: Option<u32>,
}

/// The firewall per profile (domain, private, public).
#[derive(Debug, Clone, Copy, Default, PartialEq, Eq)]
pub struct FirewallState {
    pub domain: Option<bool>,
    pub private: Option<bool>,
    pub public: Option<bool>,
}

/// UAC configuration.
#[derive(Debug, Clone, Copy, Default, PartialEq, Eq)]
pub struct UacState {
    pub enabled: bool,
    /// 0 = no prompt … 2 = consent on the secure desktop (default).
    pub admin_prompt: Option<u32>,
    pub secure_desktop: bool,
}

/// Encryption of one volume (BitLocker).
#[derive(Debug, Clone, Default, PartialEq, Eq)]
pub struct VolumeEncryption {
    pub letter: String,
    /// 0 = not encrypted, 1 = protected, 2 = unknown/locked.
    pub protection: u32,
}

/// The overall protection state.
#[derive(Debug, Clone, Default, PartialEq, Eq)]
pub struct Protection {
    pub av: Vec<AvProduct>,
    pub defender: Option<DefenderStatus>,
    pub firewall: FirewallState,
    pub uac: UacState,
    /// `None` = the machine boots through legacy BIOS (no Secure Boot).
    pub secure_boot: Option<bool>,
    /// (present, specification version) — from WMI MicrosoftTpm.
    pub tpm: Option<(bool, String)>,
    pub volumes: Vec<VolumeEncryption>,
}

/// One WMI result row: property name → value as text, in the order the
/// properties were asked for.
pub type WmiRow = Vec<(String, String)>;

/// The value of the first property named `key`.
pub open spec fn lookup(row: Seq<(String, String)>, key: Seq<char>) -> Option<Seq<char>>
    decreases row.len(),
{
    if row.len() == 0 {
        None
    } else if row[0].0@ == key {
        Some(row[0].1@)
    } else {
        lookup(row.drop_first(), key)
    }
}

/// The value of a property of a row.
pub fn row_get(row: &[(String, String)], key: &str) -> (r: Option<String>)
    ensures
        match r {
            Some(v) => lookup(row@, key@) == Some(v@),
            None => lookup(row@, key@) is None,
        },
{
    let k = chars_of(key);
    let mut i: usize = 0;
    assert(row@.skip(0) =~= row@);
    while i < row.len()
        invariant
            i <= row.len(),
            k@ == key@,
            lookup(row@, key@) == lookup(row@.skip(i as int), key@),
        decreases row.len() - i,
    {
        assert(row@.skip(i as int)[0] == row@[i as int]);
        if chars_eq(&chars_of(row[i].0.as_str()), &k) {
            return Some(string_from(&chars_of(row[i].1.as_str())));
        }
        assert(row@.skip(i as int).drop_first() =~= row@.skip(i as int + 1));
        i = i + 1;
    }
    None
}

/// A WMI boolean as text: `True`/`False` (any case) or the numbers of a
/// VARIANT_BOOL (-1, 1 / 0); anything else is not a boolean.
pub open spec fn bool_text(v: Seq<char>) -> Option<bool> {
    if eq_ignore_ascii_case_spec(v, "true"@) || v == "-1"@ || v == "1"@ {
        Some(true)
    } else if eq_ignore_ascii_case_spec(v, "false"@) || v == "0"@ {
        Some(false)
    } else {
        None
    }
}

/// A boolean property of a row.
pub open spec fn flag_spec(row: Seq<(String, String)>, key: Seq<char>) -> Option<bool> {
    match lookup(row, key) {
        Some(v) => bool_text(v),
        None => None,
    }
}

/// A boolean property of a row; `None` when missing or not a boolean.
pub fn flag(row: &[(String, String)], key: &str) -> (r: Option<bool>)
    ensures
        r == flag_spec(row@, key@),
{
    match row_get(row, key) {
        Some(v) => {
            let c = chars_of(v.as_str());
            if eq_ignore_ascii_case(&c, &chars_of("true")) || chars_eq(&c, &chars_of("-1"))
                || chars_eq(&c, &chars_of("1")) {
                Some(true)
            } else if eq_ignore_ascii_case(&c, &chars_of("false")) || chars_eq(&c, &chars_of("0")) {
                Some(false)
            } else {
                None
            }
        },
        None => None,
    }
}

/// The path of a registered product looks like a file path: a drive
/// letter and a colon, and a slash or backslash. Anything else (an URI
/// scheme such as `windowsdefender://`) cannot be checked.
pub open spec fn looks_like_path(p: Seq<char>) -> bool {
    let b = vstd::utf8::encode_utf8(p);
    &&& b.len() > 3
    &&& b[1] == 58u8
    &&& (occurs_from(p, seq!['\\'], 0) || occurs_from(p, seq!['/'], 0))
}

/// Is the registration orphaned — the binary it names is not on disk?
/// Nothing is claimed for a missing or empty path, for a path that is
/// not a file path, or when its existence could not be checked: calling
/// protection non-existent out of ignorance would be worse than leaving
/// it be.
pub open spec fn product_gone_spec(path: Option<Seq<char>>, exists: Option<bool>) -> bool {
    match path {
        None => false,
        Some(p) => {
            let t = trim_spec(p);
            t.len() > 0 && looks_like_path(t) && exists == Some(false)
        },
    }
}

/// Whether a product registration is a leftover. `exists` is what
/// checking the trimmed path on disk gave (`None` when it could not be
/// checked).
pub fn product_gone(path: &Option<String>, exists: Option<bool>) -> (b: bool)
    ensures
        b == product_gone_spec(
            match *path {
                Some(p) => Some(p@),
                None => None,
            },
            exists,
        ),
{
    let p = match path {
        Some(p) => p,
        None => return false,
    };
    let t = trim_chars(&chars_of(p.as_str()));
    if t.len() == 0 {
        return false;
    }
    let ts = string_from(&t);
    let b = ts.as_str().as_bytes();
    let bs: Vec<char> = vec!['\\'];
    let fs: Vec<char> = vec!['/'];
    assert(bs@ =~= seq!['\\']);
    assert(fs@ =~= seq!['/']);
    let looks = b.len() > 3 && b[1] == 58u8 && (contains(&t, &bs) || contains(&t, &fs));
    looks && exists == Some(false)
}

/// `AvProduct` as mathematical values.
pub struct AvProductView {
    pub name: Seq<char>,
    pub enabled: bool,
    pub up_to_date: bool,
    pub leftover: bool,
}

impl View for AvProduct {
    type V = AvProductView;

    open spec fn view(&self) -> AvProductView {
        AvProductView {
            name: self.name@,
            enabled: self.enabled,
            up_to_date: self.up_to_date,
            leftover: self.leftover,
        }
    }
}

/// One `AntiVirusProduct` row with the answer of checking its path on
/// disk (`None` when not checked or not checkable).
#[derive(Debug, Clone, Default)]
pub struct AvRow {
    pub row: WmiRow,
    pub path_exists: Option<bool>,
}

/// The antivirus a row describes: it needs a numeric `productState` and
/// a `displayName`; the state bits are the documented
/// WSC_SECURITY_PRODUCT_STATE ones.
pub open spec fn av_spec(r: AvRow) -> Option<AvProductView> {
    match lookup(r.row@, "productState"@) {
        None => None,
        Some(st) => match parse_u32_spec(st) {
            None => None,
            Some(state) => match lookup(r.row@, "displayName"@) {
                None => None,
                Some(name) => Some(
                    AvProductView {
                        name,
                        enabled: state & 0x1000 != 0,
                        up_to_date: state & 0x10 == 0,
                        leftover: product_gone_spec(
                            lookup(r.row@, "pathToSignedProductExe"@),
                            r.path_exists,
                        ),
                    },
                ),
            },
        },
    }
}

fn av_of(r: &AvRow) -> (a: Option<AvProduct>)
    ensures
        match a {
            Some(v) => av_spec(*r) == Some(v@),
            None => av_spec(*r) is None,
        },
{
    let st = match row_get(r.row.as_slice(), "productState") {
        Some(s) => s,
        None => return None,
    };
    let state = match parse_u32(&chars_of(st.as_str())) {
        Some(v) => v,
        None => return None,
    };
    let name = match row_get(r.row.as_slice(), "displayName") {
        Some(n) => n,
        None => return None,
    };
    let path = row_get(r.row.as_slice(), "pathToSignedProductExe");
    Some(
        AvProduct {
            name,
            enabled: state & 0x1000 != 0,
            up_to_date: state & 0x10 == 0,
            leftover: product_gone(&path, r.path_exists),
        },
    )
}

/// The antiviruses of the rows, in row order.
pub open spec fn av_list(rows: Seq<AvRow>) -> Seq<AvProductView>
    decreases rows.len(),
{
    if rows.len() == 0 {
        Seq::empty()
    } else {
        match av_spec(rows.last()) {
            Some(a) => av_list(rows.drop_last()).push(a),
            None => av_list(rows.drop_last()),
        }
    }
}

/// The antiviruses registered in Security Center (root\SecurityCenter2).
pub fn av_products(rows: &[AvRow]) -> (r: Vec<AvProduct>)
    ensures
        r@.map_values(|a: AvProduct| a@) == av_list(rows@),
{
    let mut out: Vec<AvProduct> = Vec::new();
    let mut i: usize = 0;
    while i < rows.len()
        invariant
            i <= rows.len(),
            out@.map_values(|a: AvProduct| a@) == av_list(rows@.take(i as int)),
        decreases rows.len() - i,
    {
        proof {
            assert(rows@.take(i as int + 1).drop_last() =~= rows@.take(i as int));
        }
        match av_of(&rows[i]) {
            Some(a) => {
                let ghost before = out@.map_values(|a: AvProduct| a@);
                let ghost av = a@;
                out.push(a);
                assert(out@.map_values(|a: AvProduct| a@) =~= before.push(av));
            },
            None => {},
        }
        i = i + 1;
    }
    assert(rows@.take(rows@.len() as int) =~= rows@);
    out
}

/// `DefenderStatus` as mathematical values.
pub struct DefenderView {
    pub realtime: bool,
    pub signature_age_days: Option<u32>,
    pub quick_scan_age_days: Option<u32>,
}

/// Defender's details from the first `MSFT_MpComputerStatus` row: the
/// realtime flag must read as a boolean; a quick-scan age of 100 years
/// or more (4294967295 = never scanned) is no age.
pub open spec fn defender_spec(rows: Seq<WmiRow>) -> Option<DefenderView> {
    if rows.len() == 0 {
        None
    } else {
        let r = rows[0]@;
        match flag_spec(r, "RealTimeProtectionEnabled"@) {
            None => None,
            Some(rt) => Some(
                DefenderView {
                    realtime: rt,
                    signature_age_days: match lookup(r, "AntivirusSignatureAge"@) {
                        Some(v) => parse_u32_spec(v),
                        None => None,
                    },
                    quick_scan_age_days: match lookup(r, "QuickScanAge"@) {
                        Some(v) => match parse_u64_spec(v) {
                            Some(n) => if n < 36500 {
                                Some(n as u32)
                            } else {
                                None
                            },
                            None => None,
                        },
                        None => None,
                    },
                },
            ),
        }
    }
}

/// Defender's details (root\Microsoft\Windows\Defender); on a machine
/// with another antivirus the query is usually empty.
pub fn defender_status(rows: &[WmiRow]) -> (r: Option<DefenderStatus>)
    ensures
        match r {
            Some(d) => defender_spec(rows@) == Some(
                DefenderView {
                    realtime: d.realtime,
                    signature_age_days: d.signature_age_days,
                    quick_scan_age_days: d.quick_scan_age_days,
                },
            ),
            None => defender_spec(rows@) is None,
        },
{
    if rows.len() == 0 {
        return None;
    }
    let r = rows[0].as_slice();
    let rt = match flag(r, "RealTimeProtectionEnabled") {
        Some(v) => v,
        None => return None,
    };
    let sig = match row_get(r, "AntivirusSignatureAge") {
        Some(v) => parse_u32(&chars_of(v.as_str())),
        None => None,
    };
    let quick = match row_get(r, "QuickScanAge") {
        Some(v) => match parse_u64(&chars_of(v.as_str())) {
            Some(n) => if n < 36500 {
                Some(n as u32)
            } else {
                None
            },
            None => None,
        },
        None => None,
    };
    Some(DefenderStatus { realtime: rt, signature_age_days: sig, quick_scan_age_days: quick })
}

/// A registry number read as on/off.
pub open spec fn on_off(v: Option<u64>) -> Option<bool> {
    match v {
        Some(n) => Some(n != 0),
        None => None,
    }
}

fn on_off_of(v: Option<u64>) -> (r: Option<bool>)
    ensures
        r == on_off(v),
{
    match v {
        Some(n) => Some(n != 0),
        None => None,
    }
}

/// The firewall per profile from the `EnableFirewall` values of
/// DomainProfile, StandardProfile and PublicProfile.
pub fn firewall(domain: Option<u64>, standard: Option<u64>, public: Option<u64>) -> (r: FirewallState)
    ensures
        r.domain == on_off(domain),
        r.private == on_off(standard),
        r.public == on_off(public),
{
    FirewallState { domain: on_off_of(domain), private: on_off_of(standard), public: on_off_of(public) }
}

/// UAC from `Policies\System`: off without `EnableLUA`; the secure
/// desktop is on unless `PromptOnSecureDesktop` says 0.
pub fn uac(enable_lua: Option<u64>, prompt_admin: Option<u64>, secure_desktop: Option<u64>) -> (r: UacState)
    ensures
        r.enabled == (match enable_lua {
            Some(v) => v,
            None => 0u64,
        } != 0),
        r.admin_prompt == match prompt_admin {
            Some(v) => Some(v as u32),
            None => None::<u32>,
        },
        r.secure_desktop == (match secure_desktop {
            Some(v) => v,
            None => 1u64,
        } != 0),
{
    UacState {
        enabled: match enable_lua {
            Some(v) => v,
            None => 0,
        } != 0,
        admin_prompt: match prompt_admin {
            Some(v) => Some(v as u32),
            None => None,
        },
        secure_desktop: match secure_desktop {
            Some(v) => v,
            None => 1,
        } != 0,
    }
}

/// Secure Boot: the key exists only on a UEFI machine. `None` = legacy
/// BIOS, where Secure Boot does not exist — a fact, not an error.
pub fn secure_boot(uefi_secure_boot_enabled: Option<u64>) -> (r: Option<bool>)
    ensures
        r == on_off(uefi_secure_boot_enabled),
{
    on_off_of(uefi_secure_boot_enabled)
}

/// The TPM from the first `Win32_Tpm` row: whether it is enabled (false
/// when unreadable) and the first entry of its `SpecVersion` list,
/// trimmed (empty when missing).
pub open spec fn tpm_spec(rows: Seq<WmiRow>) -> Option<(bool, Seq<char>)> {
    if rows.len() == 0 {
        None
    } else {
        let r = rows[0]@;
        Some(
            (
                match flag_spec(r, "IsEnabled_InitialValue"@) {
                    Some(b) => b,
                    None => false,
                },
                match lookup(r, "SpecVersion"@) {
                    Some(v) => match piece_at(v, ',', 0) {
                        Some(first) => trim_spec(first),
                        None => trim_spec(v),
                    },
                    None => Seq::empty(),
                },
            ),
        )
    }
}

/// The TPM through WMI (root\CIMV2\Security\MicrosoftTpm).
pub fn tpm(rows: &[WmiRow]) -> (r: Option<(bool, String)>)
    ensures
        match r {
            Some((b, s)) => tpm_spec(rows@) == Some((b, s@)),
            None => tpm_spec(rows@) is None,
        },
{
    if rows.len() == 0 {
        return None;
    }
    let r = rows[0].as_slice();
    let enabled = match flag(r, "IsEnabled_InitialValue") {
        Some(b) => b,
        None => false,
    };
    let version = match row_get(r, "SpecVersion") {
        Some(v) => {
            let cs = chars_of(v.as_str());
            match split_piece(&cs, ',', 0) {
                Some(first) => string_from(&trim_chars(&first)),
                None => string_from(&trim_chars(&cs)),
            }
        },
        None => String::new(),
    };
    Some((enabled, version))
}

/// `VolumeEncryption` as mathematical values.
pub struct VolumeEncryptionView {
    pub letter: Seq<char>,
    pub protection: u32,
}

impl View for VolumeEncryption {
    type V = VolumeEncryptionView;

    open spec fn view(&self) -> VolumeEncryptionView {
        VolumeEncryptionView { letter: self.letter@, protection: self.protection }
    }
}

/// The volumes of the `Win32_EncryptableVolume` rows that have a drive
/// letter and a numeric protection status, in row order.
pub open spec fn volumes_spec(rows: Seq<WmiRow>) -> Seq<VolumeEncryptionView>
    decreases rows.len(),
{
    if rows.len() == 0 {
        Seq::empty()
    } else {
        let rest = volumes_spec(rows.drop_last());
        let r = rows.last()@;
        match (lookup(r, "DriveLetter"@), lookup(r, "ProtectionStatus"@)) {
            (Some(l), Some(p)) => match parse_u32_spec(p) {
                Some(n) => rest.push(VolumeEncryptionView { letter: l, protection: n }),
                None => rest,
            },
            _ => rest,
        }
    }
}

/// BitLocker per volume (root\CIMV2\Security\MicrosoftVolumeEncryption).
pub fn bitlocker(rows: &[WmiRow]) -> (r: Vec<VolumeEncryption>)
    ensures
        r@.map_values(|v: VolumeEncryption| v@) == volumes_spec(rows@),
{
    let mut out: Vec<VolumeEncryption> = Vec::new();
    let mut i: usize = 0;
    while i < rows.len()
        invariant
            i <= rows.len(),
            out@.map_values(|v: VolumeEncryption| v@) == volumes_spec(rows@.take(i as int)),
        decreases rows.len() - i,
    {
        proof {
            assert(rows@.take(i as int + 1).drop_last() =~= rows@.take(i as int));
        }
        let r = rows[i].as_slice();
        match (row_get(r, "DriveLetter"), row_get(r, "ProtectionStatus")) {
            (Some(l), Some(p)) => match parse_u32(&chars_of(p.as_str())) {
                Some(n) => {
                    let ghost before = out@.map_values(|v: VolumeEncryption| v@);
                    let v = VolumeEncryption { letter: l, protection: n };
                    let ghost vv = v@;
                    out.push(v);
                    assert(out@.map_values(|v: VolumeEncryption| v@) =~= before.push(vv));
                },
                None => {},
            },
            _ => {},
        }
        i = i + 1;
    }
    assert(rows@.take(rows@.len() as int) =~= rows@);
    out
}

/// Everything the protection state is read from, as the queries
/// returned it.
#[derive(Debug, Clone, Default)]
pub struct ProtectionSources {
    /// `AntiVirusProduct` rows of root\SecurityCenter2.
    pub av: Vec<AvRow>,
    /// `MSFT_MpComputerStatus` rows.
    pub defender: Vec<WmiRow>,
    /// `EnableFirewall` of DomainProfile, StandardProfile, PublicProfile.
    pub firewall_domain: Option<u64>,
    pub firewall_standard: Option<u64>,
    pub firewall_public: Option<u64>,
    /// `EnableLUA`, `ConsentPromptBehaviorAdmin`, `PromptOnSecureDesktop`.
    pub enable_lua: Option<u64>,
    pub prompt_admin: Option<u64>,
    pub secure_desktop: Option<u64>,
    /// `SecureBoot\State\UEFISecureBootEnabled`.
    pub secure_boot: Option<u64>,
    /// `Win32_Tpm` rows.
    pub tpm: Vec<WmiRow>,
    /// `Win32_EncryptableVolume` rows.
    pub volumes: Vec<WmiRow>,
}

/// The whole protection state from its sources.
pub fn protection(src: &ProtectionSources) -> (r: Protection)
    ensures
        r.av@.map_values(|a: AvProduct| a@) == av_list(src.av@),
        match r.defender {
            Some(d) => defender_spec(src.defender@) == Some(
                DefenderView {
                    realtime: d.realtime,
                    signature_age_days: d.signature_age_days,
                    quick_scan_age_days: d.quick_scan_age_days,
                },
            ),
            None => defender_spec(src.defender@) is None,
        },
        r.firewall.domain == on_off(src.firewall_domain),
        r.firewall.private == on_off(src.firewall_standard),
        r.firewall.public == on_off(src.firewall_public),
        r.uac.enabled == (match src.enable_lua {
            Some(v) => v,
            None => 0u64,
        } != 0),
        r.uac.admin_prompt == match src.prompt_admin {
            Some(v) => Some(v as u32),
            None => None::<u32>,
        },
        r.uac.secure_desktop == (match src.secure_desktop {
            Some(v) => v,
            None => 1u64,
        } != 0),
        r.secure_boot == on_off(src.secure_boot),
        match r.tpm {
            Some((b, s)) => tpm_spec(src.tpm@) == Some((b, s@)),
            None => tpm_spec(src.tpm@) is None,
        },
        r.volumes@.map_values(|v: VolumeEncryption| v@) == volumes_spec(src.volumes@),
{
    Protection {
        av: av_products(src.av.as_slice()),
        defender: defender_status(src.defender.as_slice()),
        firewall: firewall(src.firewall_domain, src.firewall_standard, src.firewall_public),
        uac: uac(src.enable_lua, src.prompt_admin, src.secure_desktop),
        secure_boot: secure_boot(src.secure_boot),
        tpm: tpm(src.tpm.as_slice()),
        volumes: bitlocker(src.volumes.as_slice()),
    }
}

} // verus!
