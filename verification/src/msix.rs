//! MSIX/AppX inventory through WinRT `PackageManager`. The WinRT calls
//! live outside this crate and hand in what each package reports;
//! frameworks and resource packages are skipped here — users care about
//! apps.

use vstd::prelude::*;

use crate::text::{append_str, chars_of, dec_digits, occurs_at, push_decimal, starts_with, string_from};

verus! {

/// One installed MSIX package.
#[derive(Debug, Clone, Default, PartialEq, Eq)]
pub struct MsixPackage {
    /// PackageFamilyName — matched with the identity cascade.
    pub family: String,
    pub display_name: String,
    pub publisher: Option<String>,
    pub version: Option<String>,
    /// The install directory (exact — from the package manifest).
    pub install_path: Option<String>,
}

/// What one package reports, as read: `None` where a call failed.
#[derive(Debug, Clone, Default)]
pub struct PackageRow {
    pub is_framework: Option<bool>,
    pub is_resource: Option<bool>,
    pub family: Option<String>,
    pub display_name: Option<String>,
    pub id_name: Option<String>,
    pub version: Option<(u16, u16, u16, u16)>,
    pub publisher: Option<String>,
    pub installed_path: Option<String>,
}

/// `MsixPackage` as mathematical values.
pub struct MsixPackageView {
    pub family: Seq<char>,
    pub display_name: Seq<char>,
    pub publisher: Option<Seq<char>>,
    pub version: Option<Seq<char>>,
    pub install_path: Option<Seq<char>>,
}

impl View for MsixPackage {
    type V = MsixPackageView;

    open spec fn view(&self) -> MsixPackageView {
        MsixPackageView {
            family: self.family@,
            display_name: self.display_name@,
            publisher: opt(self.publisher),
            version: opt(self.version),
            install_path: opt(self.install_path),
        }
    }
}

pub open spec fn opt(s: Option<String>) -> Option<Seq<char>> {
    match s {
        Some(v) => Some(v@),
        None => None,
    }
}

/// A display text that is usable: not empty and not an unresolved
/// `ms-resource:` reference.
pub open spec fn usable_text(s: Option<Seq<char>>) -> Option<Seq<char>> {
    match s {
        Some(t) => if t.len() > 0 && !occurs_at(t, "ms-resource:"@, 0) {
            Some(t)
        } else {
            None
        },
        None => None,
    }
}

/// "Major.Minor.Build.Revision".
pub open spec fn version_text(v: (u16, u16, u16, u16)) -> Seq<char> {
    dec_digits(v.0 as nat) + seq!['.'] + dec_digits(v.1 as nat) + seq!['.'] + dec_digits(v.2 as nat)
        + seq!['.'] + dec_digits(v.3 as nat)
}

/// The package a row describes: no frameworks or resource packages,
/// and a family name is needed. The display name falls back to the
/// identity name, then the family (it can fail for packages not
/// provisioned for a user).
pub open spec fn package_spec(r: PackageRow) -> Option<MsixPackageView> {
    let framework = match r.is_framework {
        Some(b) => b,
        None => false,
    };
    let resource = match r.is_resource {
        Some(b) => b,
        None => false,
    };
    let family = match r.family {
        Some(f) => f@,
        None => Seq::empty(),
    };
    if framework || resource || family.len() == 0 {
        None
    } else {
        Some(
            MsixPackageView {
                display_name: match usable_text(opt(r.display_name)) {
                    Some(d) => d,
                    None => match r.id_name {
                        Some(n) => n@,
                        None => family,
                    },
                },
                family,
                publisher: usable_text(opt(r.publisher)),
                version: match r.version {
                    Some(v) => Some(version_text(v)),
                    None => None,
                },
                install_path: match r.installed_path {
                    Some(p) => if p@.len() > 0 {
                        Some(p@)
                    } else {
                        None
                    },
                    None => None,
                },
            },
        )
    }
}

fn usable(s: &Option<String>) -> (r: Option<String>)
    ensures
        opt(r) == usable_text(opt(*s)),
{
    match s {
        Some(t) => {
            let cs = chars_of(t.as_str());
            if cs.len() > 0 && !starts_with(&cs, &chars_of("ms-resource:")) {
                Some(string_from(&cs))
            } else {
                None
            }
        },
        None => None,
    }
}

/// The package version as text.
pub fn format_version(v: (u16, u16, u16, u16)) -> (r: String)
    ensures
        r@ == version_text(v),
{
    let mut cs: Vec<char> = Vec::new();
    push_decimal(&mut cs, v.0 as u64);
    cs.push('.');
    push_decimal(&mut cs, v.1 as u64);
    cs.push('.');
    push_decimal(&mut cs, v.2 as u64);
    cs.push('.');
    push_decimal(&mut cs, v.3 as u64);
    assert(cs@ =~= version_text(v));
    string_from(&cs)
}

/// The package one row describes, if it is an app.
pub fn package_from(r: &PackageRow) -> (p: Option<MsixPackage>)
    ensures
        match p {
            Some(v) => package_spec(*r) == Some(v@),
            None => package_spec(*r) is None,
        },
{
    let framework = match r.is_framework {
        Some(b) => b,
        None => false,
    };
    let resource = match r.is_resource {
        Some(b) => b,
        None => false,
    };
    if framework || resource {
        return None;
    }
    let family = match &r.family {
        Some(f) => string_from(&chars_of(f.as_str())),
        None => String::new(),
    };
    if family.unicode_len() == 0 {
        return None;
    }
    let display_name = match usable(&r.display_name) {
        Some(d) => d,
        None => match &r.id_name {
            Some(n) => string_from(&chars_of(n.as_str())),
            None => string_from(&chars_of(family.as_str())),
        },
    };
    Some(
        MsixPackage {
            display_name,
            family,
            publisher: usable(&r.publisher),
            version: match r.version {
                Some(v) => Some(format_version(v)),
                None => None,
            },
            install_path: match &r.installed_path {
                Some(p) => if p.unicode_len() > 0 {
                    Some(string_from(&chars_of(p.as_str())))
                } else {
                    None
                },
                None => None,
            },
        },
    )
}

/// The app packages of the rows, in order.
pub open spec fn packages_spec(rows: Seq<PackageRow>) -> Seq<MsixPackageView>
    decreases rows.len(),
{
    if rows.len() == 0 {
        Seq::empty()
    } else {
        match package_spec(rows.last()) {
            Some(p) => packages_spec(rows.drop_last()).push(p),
            None => packages_spec(rows.drop_last()),
        }
    }
}

/// Lists the MSIX app packages (no frameworks, no resource packages).
pub fn packages(rows: &[PackageRow]) -> (r: Vec<MsixPackage>)
    ensures
        r@.map_values(|p: MsixPackage| p@) == packages_spec(rows@),
{
    let mut out: Vec<MsixPackage> = Vec::new();
    let mut i: usize = 0;
    while i < rows.len()
        invariant
            i <= rows.len(),
            out@.map_values(|p: MsixPackage| p@) == packages_spec(rows@.take(i as int)),
        decreases rows.len() - i,
    {
        proof {
            assert(rows@.take(i as int + 1).drop_last() =~= rows@.take(i as int));
        }
        match package_from(&rows[i]) {
            Some(p) => {
                let ghost before = out@.map_values(|p: MsixPackage| p@);
                let ghost pv = p@;
                out.push(p);
                assert(out@.map_values(|p: MsixPackage| p@) =~= before.push(pv));
            },
            None => {},
        }
        i = i + 1;
    }
    assert(rows@.take(rows@.len() as int) =~= rows@);
    out
}

} // verus!
