//! Basic GPU identification from the registry — vendor neutral. Every
//! WDDM driver (NVIDIA, AMD, Intel, Qualcomm) writes `DriverDesc` and
//! `HardwareInformation.qwMemorySize` into the display class
//! `{4d36e968-…}`. The keys are read elsewhere and handed in.

use vstd::prelude::*;

use crate::text::{chars_of, is_digit};

verus! {

/// The display adapters class key.
pub const DISPLAY_CLASS: &'static str =
    "SYSTEM\\CurrentControlSet\\Control\\Class\\{4d36e968-e325-11ce-bfc1-08002be10318}";

/// Basic GPU data (no runtime metrics).
#[derive(Debug, Clone, Default, PartialEq, Eq)]
pub struct BasicGpu {
    pub name: Option<String>,
    pub vram_total_mb: Option<u64>,
}

/// One subkey of the display class, as read: its name, `DriverDesc` and
/// `HardwareInformation.qwMemorySize`.
#[derive(Debug, Clone, Default)]
pub struct AdapterKey {
    pub subkey: String,
    pub driver_desc: Option<String>,
    pub memory_size: Option<u64>,
}

/// `BasicGpu` as mathematical values.
pub struct BasicGpuView {
    pub name: Option<Seq<char>>,
    pub vram_total_mb: Option<u64>,
}

impl View for BasicGpu {
    type V = BasicGpuView;

    open spec fn view(&self) -> BasicGpuView {
        BasicGpuView {
            name: match self.name {
                Some(n) => Some(n@),
                None => None,
            },
            vram_total_mb: self.vram_total_mb,
        }
    }
}

/// Adapter subkeys are numeric ("0000"…); "Properties" and the like are not.
pub open spec fn all_ascii_digits(s: Seq<char>) -> bool {
    forall|i: int| 0 <= i < s.len() ==> is_digit(#[trigger] s[i])
}

/// The best adapter among the keys: the one with the most dedicated
/// VRAM (the discrete GPU), the first on a tie; software adapters (0 B)
/// lose but still give a name. With the VRAM of the best so far.
pub open spec fn detect_from(keys: Seq<AdapterKey>) -> (BasicGpuView, u64)
    decreases keys.len(),
{
    if keys.len() == 0 {
        (BasicGpuView { name: None, vram_total_mb: None }, 0u64)
    } else {
        let (best, best_vram) = detect_from(keys.drop_last());
        let k = keys.last();
        if !all_ascii_digits(k.subkey@) {
            (best, best_vram)
        } else {
            match k.driver_desc {
                None => (best, best_vram),
                Some(name) => {
                    let vram = match k.memory_size {
                        Some(v) => v,
                        None => 0u64,
                    };
                    if best.name is None || vram > best_vram {
                        (
                            BasicGpuView {
                                name: Some(name@),
                                vram_total_mb: if vram > 0 {
                                    Some((vram / 1048576) as u64)
                                } else {
                                    None
                                },
                            },
                            vram,
                        )
                    } else {
                        (best, best_vram)
                    }
                },
            }
        }
    }
}

fn digits_only(s: &str) -> (b: bool)
    ensures
        b == all_ascii_digits(s@),
{
    let cs = chars_of(s);
    let mut i: usize = 0;
    while i < cs.len()
        invariant
            i <= cs.len(),
            cs@ == s@,
            forall|j: int| 0 <= j < i ==> is_digit(#[trigger] cs@[j]),
        decreases cs.len() - i,
    {
        if !('0' <= cs[i] && cs[i] <= '9') {
            return false;
        }
        i = i + 1;
    }
    true
}

/// Finds the adapter with the most dedicated VRAM (the discrete GPU; the
/// first on a tie).
pub fn detect(keys: &[AdapterKey]) -> (r: BasicGpu)
    ensures
        r@ == detect_from(keys@).0,
{
    let mut best = BasicGpu { name: None, vram_total_mb: None };
    let mut best_vram: u64 = 0;
    let mut i: usize = 0;
    while i < keys.len()
        invariant
            i <= keys.len(),
            (best@, best_vram) == detect_from(keys@.take(i as int)),
        decreases keys.len() - i,
    {
        proof {
            assert(keys@.take(i as int + 1).drop_last() =~= keys@.take(i as int));
        }
        let k = &keys[i];
        if digits_only(k.subkey.as_str()) {
            match &k.driver_desc {
                Some(name) => {
                    let vram = match k.memory_size {
                        Some(v) => v,
                        None => 0,
                    };
                    if best.name.is_none() || vram > best_vram {
                        best_vram = vram;
                        best = BasicGpu {
                            name: Some(crate::text::string_from(&chars_of(name.as_str()))),
                            vram_total_mb: if vram > 0 {
                                Some(vram / 1048576)
                            } else {
                                None
                            },
                        };
                    }
                },
                None => {},
            }
        }
        i = i + 1;
    }
    assert(keys@.take(keys@.len() as int) =~= keys@);
    best
}

/// A key that names an adapter: a numeric subkey with a `DriverDesc`.
pub open spec fn names_adapter(k: AdapterKey) -> bool {
    all_ascii_digits(k.subkey@) && k.driver_desc is Some
}

/// The dedicated VRAM a key reports; none counts as 0.
pub open spec fn vram_of(k: AdapterKey) -> u64 {
    match k.memory_size {
        Some(v) => v,
        None => 0u64,
    }
}

/// What an adapter key gives: its name, and its VRAM in MiB when it
/// reports any.
pub open spec fn gpu_of(k: AdapterKey) -> BasicGpuView {
    BasicGpuView {
        name: Some(k.driver_desc->0@),
        vram_total_mb: if vram_of(k) > 0 {
            Some((vram_of(k) / 1048576) as u64)
        } else {
            None
        },
    }
}

/// Nothing found: no name and no VRAM.
pub open spec fn no_gpu() -> BasicGpuView {
    BasicGpuView { name: None, vram_total_mb: None }
}

/// `keys[b]` is the first adapter key with the most VRAM.
pub open spec fn is_best_key(keys: Seq<AdapterKey>, b: int) -> bool {
    &&& 0 <= b < keys.len()
    &&& names_adapter(keys[b])
    &&& forall|j: int|
        0 <= j < keys.len() && names_adapter(#[trigger] keys[j]) ==> vram_of(keys[j]) <= vram_of(
            keys[b],
        )
    &&& forall|j: int|
        0 <= j < b && names_adapter(#[trigger] keys[j]) ==> vram_of(keys[j]) < vram_of(keys[b])
}

proof fn lemma_detect_index(keys: Seq<AdapterKey>) -> (b: int)
    ensures
        b == -1 ==> detect_from(keys) == (no_gpu(), 0u64) && forall|j: int| 0 <= j < keys.len() ==> !names_adapter(#[trigger] keys[j]),
        b != -1 ==> is_best_key(keys, b) && detect_from(keys) == (gpu_of(keys[b]), vram_of(keys[b])),
    decreases keys.len(),
{
    if keys.len() == 0 {
        -1
    } else {
        let pre = keys.drop_last();
        let n = keys.len() - 1;
        let k = keys.last();
        let p = lemma_detect_index(pre);
        assert(keys[n] == k);
        assert forall|j: int| 0 <= j < n implies #[trigger] keys[j] == pre[j] by {}
        if !names_adapter(k) {
            if p != -1 {
                assert forall|j: int|
                    0 <= j < keys.len() && names_adapter(#[trigger] keys[j]) implies vram_of(
                    keys[j],
                ) <= vram_of(keys[p]) by {
                    assert(keys[j] == pre[j]);
                }
            }
            p
        } else if p == -1 {
            n
        } else if vram_of(k) > vram_of(pre[p]) {
            assert forall|j: int|
                0 <= j < keys.len() && names_adapter(#[trigger] keys[j]) implies vram_of(keys[j])
                <= vram_of(keys[n]) by {
                if j < n {
                    assert(keys[j] == pre[j]);
                }
            }
            assert forall|j: int| 0 <= j < n && names_adapter(#[trigger] keys[j]) implies vram_of(
                keys[j],
            ) < vram_of(keys[n]) by {
                assert(keys[j] == pre[j]);
            }
            n
        } else {
            assert forall|j: int|
                0 <= j < keys.len() && names_adapter(#[trigger] keys[j]) implies vram_of(keys[j])
                <= vram_of(keys[p]) by {
                if j < n {
                    assert(keys[j] == pre[j]);
                }
            }
            p
        }
    }
}

/// Which adapter `detect` reports. With no numeric subkey that has a
/// `DriverDesc`, it reports nothing; otherwise it reports the first such
/// key with the most dedicated VRAM: its `DriverDesc` as the name, and
/// its VRAM in MiB (bytes / 1048576) when that is above 0.
pub proof fn lemma_detect_best(keys: Seq<AdapterKey>)
    ensures
        (forall|j: int| 0 <= j < keys.len() ==> !names_adapter(#[trigger] keys[j])) ==> detect_from(
            keys,
        ).0 == no_gpu(),
        (exists|j: int| 0 <= j < keys.len() && names_adapter(#[trigger] keys[j])) ==> exists|b: int|
            is_best_key(keys, b) && detect_from(keys).0 == gpu_of(#[trigger] keys[b]),
{
    let b = lemma_detect_index(keys);
    if b != -1 {
        assert(is_best_key(keys, b) && detect_from(keys).0 == gpu_of(keys[b]));
    }
}

} // verus!
