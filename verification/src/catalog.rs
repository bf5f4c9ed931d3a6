//! The Angular major-version catalog: package versions and toolchain
//! requirements of every supported major. Entries for majors 21 and later are
//! marked `confirmed: false` (estimated TypeScript / Node requirements).

use vstd::prelude::*;
use crate::text::{chars_equal, decimal, from_chars, push_decimal, push_str, str_equal};

verus! {

/// Toolchain + package versions for one Angular major release.
#[derive(Debug, Clone, Copy)]
pub struct AngularMajor {
    pub major: u32,
    /// `@angular/core` and every monorepo package sharing its version.
    pub core: &'static str,
    /// `@angular/cli` and `@angular-devkit/*` (they share a version number).
    pub cli: &'static str,
    /// `@angular/material` / `@angular/cdk` (own line since 8.x; equal major).
    pub material: &'static str,
    /// `zone.js`.
    pub zone_js: &'static str,
    /// `rxjs`.
    pub rxjs: &'static str,
    /// `tslib`.
    pub tslib: &'static str,
    /// Minimum supported TypeScript (major, minor).
    pub typescript: (u32, u32),
    /// Maximum supported TypeScript (major, minor).
    pub typescript_max: (u32, u32),
    /// Required Node.js version (display string).
    pub node: &'static str,
    /// Whether catalog data is fully confirmed (true for <= 20).
    pub confirmed: bool,
}

pub const LATEST_MAJOR: u32 = 22;

pub const MIN_SUPPORTED_MAJOR: u32 = 6;

/// The catalog entry of `major`, if it is supported.
pub open spec fn catalog_entry(major: u32) -> Option<AngularMajor> {
    match major {
        6 => Some(AngularMajor {
            major: 6,
            core: "6.1.10",
            cli: "6.2.9",
            material: "6.4.7",
            zone_js: "0.8.28",
            rxjs: "6.6.7",
            tslib: "1.10.0",
            typescript: (2, 7),
            typescript_max: (2, 9),
            node: ">= 8.9",
            confirmed: true,
        }),
        7 => Some(AngularMajor {
            major: 7,
            core: "7.2.16",
            cli: "7.3.10",
            material: "7.3.7",
            zone_js: "0.8.29",
            rxjs: "6.6.7",
            tslib: "1.10.0",
            typescript: (3, 1),
            typescript_max: (3, 2),
            node: ">= 8.9",
            confirmed: true,
        }),
        8 => Some(AngularMajor {
            major: 8,
            core: "8.2.14",
            cli: "8.3.29",
            material: "8.2.3",
            zone_js: "0.9.1",
            rxjs: "6.6.7",
            tslib: "1.10.0",
            typescript: (3, 4),
            typescript_max: (3, 5),
            node: ">= 10.9",
            confirmed: true,
        }),
        9 => Some(AngularMajor {
            major: 9,
            core: "9.1.13",
            cli: "9.1.15",
            material: "9.2.4",
            zone_js: "0.10.3",
            rxjs: "6.6.7",
            tslib: "2.6.3",
            typescript: (3, 6),
            typescript_max: (3, 8),
            node: ">= 10.13",
            confirmed: true,
        }),
        10 => Some(AngularMajor {
            major: 10,
            core: "10.2.5",
            cli: "10.2.4",
            material: "10.2.7",
            zone_js: "0.10.3",
            rxjs: "6.6.7",
            tslib: "2.6.3",
            typescript: (3, 9),
            typescript_max: (3, 9),
            node: ">= 10.13",
            confirmed: true,
        }),
        11 => Some(AngularMajor {
            major: 11,
            core: "11.2.14",
            cli: "11.2.19",
            material: "11.2.13",
            zone_js: "0.11.8",
            rxjs: "6.6.7",
            tslib: "2.6.3",
            typescript: (4, 0),
            typescript_max: (4, 1),
            node: ">= 10.13",
            confirmed: true,
        }),
        12 => Some(AngularMajor {
            major: 12,
            core: "12.2.17",
            cli: "12.2.18",
            material: "12.2.13",
            zone_js: "0.11.8",
            rxjs: "6.6.7",
            tslib: "2.6.3",
            typescript: (4, 2),
            typescript_max: (4, 3),
            node: ">= 12.14",
            confirmed: true,
        }),
        13 => Some(AngularMajor {
            major: 13,
            core: "13.4.0",
            cli: "13.3.11",
            material: "13.3.9",
            zone_js: "0.11.8",
            rxjs: "7.5.7",
            tslib: "2.6.3",
            typescript: (4, 4),
            typescript_max: (4, 6),
            node: ">= 12.20",
            confirmed: true,
        }),
        14 => Some(AngularMajor {
            major: 14,
            core: "14.3.0",
            cli: "14.2.13",
            material: "14.2.7",
            zone_js: "0.11.8",
            rxjs: "7.5.7",
            tslib: "2.6.3",
            typescript: (4, 6),
            typescript_max: (4, 8),
            node: ">= 14.15",
            confirmed: true,
        }),
        15 => Some(AngularMajor {
            major: 15,
            core: "15.2.10",
            cli: "15.2.11",
            material: "15.2.9",
            zone_js: "0.13.3",
            rxjs: "7.5.7",
            tslib: "2.6.3",
            typescript: (4, 8),
            typescript_max: (5, 0),
            node: ">= 14.20",
            confirmed: true,
        }),
        16 => Some(AngularMajor {
            major: 16,
            core: "16.2.12",
            cli: "16.2.16",
            material: "16.2.14",
            zone_js: "0.14.10",
            rxjs: "7.8.1",
            tslib: "2.6.3",
            typescript: (4, 9),
            typescript_max: (5, 1),
            node: ">= 16.14",
            confirmed: true,
        }),
        17 => Some(AngularMajor {
            major: 17,
            core: "17.3.12",
            cli: "17.3.17",
            material: "17.3.10",
            zone_js: "0.14.10",
            rxjs: "7.8.1",
            tslib: "2.6.3",
            typescript: (5, 2),
            typescript_max: (5, 4),
            node: ">= 18.13",
            confirmed: true,
        }),
        18 => Some(AngularMajor {
            major: 18,
            core: "18.2.14",
            cli: "18.2.21",
            material: "18.2.14",
            zone_js: "0.14.10",
            rxjs: "7.8.1",
            tslib: "2.6.3",
            typescript: (5, 4),
            typescript_max: (5, 5),
            node: ">= 18.19",
            confirmed: true,
        }),
        19 => Some(AngularMajor {
            major: 19,
            core: "19.2.25",
            cli: "19.2.27",
            material: "19.2.19",
            zone_js: "0.15.1",
            rxjs: "7.8.1",
            tslib: "2.6.3",
            typescript: (5, 5),
            typescript_max: (5, 8),
            node: ">= 20.11",
            confirmed: true,
        }),
        20 => Some(AngularMajor {
            major: 20,
            core: "20.3.27",
            cli: "20.3.34",
            material: "20.2.14",
            zone_js: "0.16.2",
            rxjs: "7.8.1",
            tslib: "2.6.3",
            typescript: (5, 8),
            typescript_max: (5, 9),
            node: ">= 20.19",
            confirmed: true,
        }),
        21 => Some(AngularMajor {
            major: 21,
            core: "21.2.19",
            cli: "21.2.21",
            material: "21.2.14",
            zone_js: "0.16.2",
            rxjs: "7.8.1",
            tslib: "2.6.3",
            typescript: (5, 8),
            typescript_max: (5, 9),
            node: ">= 22.12",
            confirmed: false,
        }),
        22 => Some(AngularMajor {
            major: 22,
            core: "22.1.1",
            cli: "22.1.3",
            material: "22.1.2",
            zone_js: "0.16.2",
            rxjs: "7.8.1",
            tslib: "2.6.3",
            typescript: (5, 9),
            typescript_max: (5, 9),
            node: ">= 22.12",
            confirmed: false,
        }),
        _ => None,
    }
}

/// Look up a catalog entry by major.
pub fn catalog_major(major: u32) -> (res: Option<AngularMajor>)
    ensures
        res == catalog_entry(major),
{
    match major {
        6 => Some(AngularMajor {
            major: 6,
            core: "6.1.10",
            cli: "6.2.9",
            material: "6.4.7",
            zone_js: "0.8.28",
            rxjs: "6.6.7",
            tslib: "1.10.0",
            typescript: (2, 7),
            typescript_max: (2, 9),
            node: ">= 8.9",
            confirmed: true,
        }),
        7 => Some(AngularMajor {
            major: 7,
            core: "7.2.16",
            cli: "7.3.10",
            material: "7.3.7",
            zone_js: "0.8.29",
            rxjs: "6.6.7",
            tslib: "1.10.0",
            typescript: (3, 1),
            typescript_max: (3, 2),
            node: ">= 8.9",
            confirmed: true,
        }),
        8 => Some(AngularMajor {
            major: 8,
            core: "8.2.14",
            cli: "8.3.29",
            material: "8.2.3",
            zone_js: "0.9.1",
            rxjs: "6.6.7",
            tslib: "1.10.0",
            typescript: (3, 4),
            typescript_max: (3, 5),
            node: ">= 10.9",
            confirmed: true,
        }),
        9 => Some(AngularMajor {
            major: 9,
            core: "9.1.13",
            cli: "9.1.15",
            material: "9.2.4",
            zone_js: "0.10.3",
            rxjs: "6.6.7",
            tslib: "2.6.3",
            typescript: (3, 6),
            typescript_max: (3, 8),
            node: ">= 10.13",
            confirmed: true,
        }),
        10 => Some(AngularMajor {
            major: 10,
            core: "10.2.5",
            cli: "10.2.4",
            material: "10.2.7",
            zone_js: "0.10.3",
            rxjs: "6.6.7",
            tslib: "2.6.3",
            typescript: (3, 9),
            typescript_max: (3, 9),
            node: ">= 10.13",
            confirmed: true,
        }),
        11 => Some(AngularMajor {
            major: 11,
            core: "11.2.14",
            cli: "11.2.19",
            material: "11.2.13",
            zone_js: "0.11.8",
            rxjs: "6.6.7",
            tslib: "2.6.3",
            typescript: (4, 0),
            typescript_max: (4, 1),
            node: ">= 10.13",
            confirmed: true,
        }),
        12 => Some(AngularMajor {
            major: 12,
            core: "12.2.17",
            cli: "12.2.18",
            material: "12.2.13",
            zone_js: "0.11.8",
            rxjs: "6.6.7",
            tslib: "2.6.3",
            typescript: (4, 2),
            typescript_max: (4, 3),
            node: ">= 12.14",
            confirmed: true,
        }),
        13 => Some(AngularMajor {
            major: 13,
            core: "13.4.0",
            cli: "13.3.11",
            material: "13.3.9",
            zone_js: "0.11.8",
            rxjs: "7.5.7",
            tslib: "2.6.3",
            typescript: (4, 4),
            typescript_max: (4, 6),
            node: ">= 12.20",
            confirmed: true,
        }),
        14 => Some(AngularMajor {
            major: 14,
            core: "14.3.0",
            cli: "14.2.13",
            material: "14.2.7",
            zone_js: "0.11.8",
            rxjs: "7.5.7",
            tslib: "2.6.3",
            typescript: (4, 6),
            typescript_max: (4, 8),
            node: ">= 14.15",
            confirmed: true,
        }),
        15 => Some(AngularMajor {
            major: 15,
            core: "15.2.10",
            cli: "15.2.11",
            material: "15.2.9",
            zone_js: "0.13.3",
            rxjs: "7.5.7",
            tslib: "2.6.3",
            typescript: (4, 8),
            typescript_max: (5, 0),
            node: ">= 14.20",
            confirmed: true,
        }),
        16 => Some(AngularMajor {
            major: 16,
            core: "16.2.12",
            cli: "16.2.16",
            material: "16.2.14",
            zone_js: "0.14.10",
            rxjs: "7.8.1",
            tslib: "2.6.3",
            typescript: (4, 9),
            typescript_max: (5, 1),
            node: ">= 16.14",
            confirmed: true,
        }),
        17 => Some(AngularMajor {
            major: 17,
            core: "17.3.12",
            cli: "17.3.17",
            material: "17.3.10",
            zone_js: "0.14.10",
            rxjs: "7.8.1",
            tslib: "2.6.3",
            typescript: (5, 2),
            typescript_max: (5, 4),
            node: ">= 18.13",
            confirmed: true,
        }),
        18 => Some(AngularMajor {
            major: 18,
            core: "18.2.14",
            cli: "18.2.21",
            material: "18.2.14",
            zone_js: "0.14.10",
            rxjs: "7.8.1",
            tslib: "2.6.3",
            typescript: (5, 4),
            typescript_max: (5, 5),
            node: ">= 18.19",
            confirmed: true,
        }),
        19 => Some(AngularMajor {
            major: 19,
            core: "19.2.25",
            cli: "19.2.27",
            material: "19.2.19",
            zone_js: "0.15.1",
            rxjs: "7.8.1",
            tslib: "2.6.3",
            typescript: (5, 5),
            typescript_max: (5, 8),
            node: ">= 20.11",
            confirmed: true,
        }),
        20 => Some(AngularMajor {
            major: 20,
            core: "20.3.27",
            cli: "20.3.34",
            material: "20.2.14",
            zone_js: "0.16.2",
            rxjs: "7.8.1",
            tslib: "2.6.3",
            typescript: (5, 8),
            typescript_max: (5, 9),
            node: ">= 20.19",
            confirmed: true,
        }),
        21 => Some(AngularMajor {
            major: 21,
            core: "21.2.19",
            cli: "21.2.21",
            material: "21.2.14",
            zone_js: "0.16.2",
            rxjs: "7.8.1",
            tslib: "2.6.3",
            typescript: (5, 8),
            typescript_max: (5, 9),
            node: ">= 22.12",
            confirmed: false,
        }),
        22 => Some(AngularMajor {
            major: 22,
            core: "22.1.1",
            cli: "22.1.3",
            material: "22.1.2",
            zone_js: "0.16.2",
            rxjs: "7.8.1",
            tslib: "2.6.3",
            typescript: (5, 9),
            typescript_max: (5, 9),
            node: ">= 22.12",
            confirmed: false,
        }),
        _ => None,
    }
}

/// All supported Angular majors, oldest first.
pub fn catalog() -> (res: Vec<AngularMajor>)
    ensures
        res@.len() == LATEST_MAJOR - MIN_SUPPORTED_MAJOR + 1,
        forall|i: int| 0 <= i < res@.len() ==> catalog_entry((MIN_SUPPORTED_MAJOR + i) as u32) == Some(#[trigger] res@[i]),
{
    let mut out: Vec<AngularMajor> = Vec::new();
    let mut m: u32 = MIN_SUPPORTED_MAJOR;
    while m <= LATEST_MAJOR
        invariant
            MIN_SUPPORTED_MAJOR <= m <= LATEST_MAJOR + 1,
            out@.len() == m - MIN_SUPPORTED_MAJOR,
            forall|i: int| 0 <= i < out@.len() ==> catalog_entry((MIN_SUPPORTED_MAJOR + i) as u32) == Some(#[trigger] out@[i]),
        decreases LATEST_MAJOR + 1 - m,
    {
        match catalog_major(m) {
            Some(e) => {
                out.push(e);
            },
            None => {
                assert(false);
            },
        }
        m = m + 1;
    }
    out
}

/// The catalog covers exactly the majors `MIN_SUPPORTED_MAJOR..=LATEST_MAJOR`,
/// and each entry is the entry of its own major.
pub proof fn catalog_is_contiguous(major: u32)
    ensures
        catalog_entry(major) is Some <==> MIN_SUPPORTED_MAJOR <= major <= LATEST_MAJOR,
        catalog_entry(major) matches Some(e) ==> e.major == major,
{
}

/// Only the estimated entries, majors 21 and later, are unconfirmed.
pub proof fn catalog_confirmed_through_20(major: u32)
    ensures
        catalog_entry(major) matches Some(e) ==> (e.confirmed <==> major <= 20),
{
}

/// The number of `.` characters in `s`.
pub open spec fn dot_count(s: Seq<char>) -> nat
    decreases s.len(),
{
    if s.len() == 0 {
        0
    } else {
        dot_count(s.drop_last()) + if s.last() == '.' {
            1nat
        } else {
            0nat
        }
    }
}

/// Every catalog version of `@angular/core` has three dot-separated parts,
/// and every `@angular/material` version at least three.
pub proof fn catalog_versions_are_three_part(major: u32)
    ensures
        catalog_entry(major) matches Some(e) ==> dot_count(e.core@) == 2 && dot_count(e.material@)
            >= 2,
{
    match major {
        6 => {
            reveal_strlit("6.1.10");
            reveal_strlit("6.4.7");
            reveal_with_fuel(dot_count, 8);
        },
        7 => {
            reveal_strlit("7.2.16");
            reveal_strlit("7.3.7");
            reveal_with_fuel(dot_count, 8);
        },
        8 => {
            reveal_strlit("8.2.14");
            reveal_strlit("8.2.3");
            reveal_with_fuel(dot_count, 8);
        },
        9 => {
            reveal_strlit("9.1.13");
            reveal_strlit("9.2.4");
            reveal_with_fuel(dot_count, 8);
        },
        10 => {
            reveal_strlit("10.2.5");
            reveal_strlit("10.2.7");
            reveal_with_fuel(dot_count, 8);
        },
        11 => {
            reveal_strlit("11.2.14");
            reveal_strlit("11.2.13");
            reveal_with_fuel(dot_count, 8);
        },
        12 => {
            reveal_strlit("12.2.17");
            reveal_strlit("12.2.13");
            reveal_with_fuel(dot_count, 8);
        },
        13 => {
            reveal_strlit("13.4.0");
            reveal_strlit("13.3.9");
            reveal_with_fuel(dot_count, 8);
        },
        14 => {
            reveal_strlit("14.3.0");
            reveal_strlit("14.2.7");
            reveal_with_fuel(dot_count, 8);
        },
        15 => {
            reveal_strlit("15.2.10");
            reveal_strlit("15.2.9");
            reveal_with_fuel(dot_count, 8);
        },
        16 => {
            reveal_strlit("16.2.12");
            reveal_strlit("16.2.14");
            reveal_with_fuel(dot_count, 8);
        },
        17 => {
            reveal_strlit("17.3.12");
            reveal_strlit("17.3.10");
            reveal_with_fuel(dot_count, 8);
        },
        18 => {
            reveal_strlit("18.2.14");
            reveal_strlit("18.2.14");
            reveal_with_fuel(dot_count, 8);
        },
        19 => {
            reveal_strlit("19.2.25");
            reveal_strlit("19.2.19");
            reveal_with_fuel(dot_count, 8);
        },
        20 => {
            reveal_strlit("20.3.27");
            reveal_strlit("20.2.14");
            reveal_with_fuel(dot_count, 8);
        },
        21 => {
            reveal_strlit("21.2.19");
            reveal_strlit("21.2.14");
            reveal_with_fuel(dot_count, 8);
        },
        22 => {
            reveal_strlit("22.1.1");
            reveal_strlit("22.1.2");
            reveal_with_fuel(dot_count, 8);
        },
        _ => {},
    }
}

/// Highest supported major: the largest major in the catalog.
pub fn latest_major() -> (res: u32)
    ensures
        catalog_entry(res) is Some,
        forall|m: u32| #[trigger] catalog_entry(m) is Some ==> m <= res,
        res == LATEST_MAJOR,
{
    let entries = catalog();
    let mut best: u32 = 0;
    let mut i: usize = 0;
    while i < entries.len()
        invariant
            i <= entries@.len(),
            entries@.len() == LATEST_MAJOR - MIN_SUPPORTED_MAJOR + 1,
            forall|k: int| 0 <= k < entries@.len() ==> catalog_entry((MIN_SUPPORTED_MAJOR + k) as u32) == Some(#[trigger] entries@[k]),
            i == 0 ==> best == 0,
            i > 0 ==> best == MIN_SUPPORTED_MAJOR + i - 1,
        decreases entries@.len() - i,
    {
        proof {
            catalog_is_contiguous((MIN_SUPPORTED_MAJOR + i) as u32);
        }
        if entries[i].major > best {
            best = entries[i].major;
        }
        i = i + 1;
    }
    proof {
        assert forall|m: u32| #[trigger] catalog_entry(m) is Some implies m <= best by {
            catalog_is_contiguous(m);
        }
    }
    best
}

/// Whether `p` is one of the `@angular/*` monorepo packages, which share
/// `@angular/core`'s version.
pub open spec fn is_monorepo_package(p: Seq<char>) -> bool {
    p == "@angular/core"@ || p == "@angular/common"@ || p == "@angular/compiler"@ || p == "@angular/compiler-cli"@ || p == "@angular/animations"@ || p == "@angular/forms"@ || p == "@angular/router"@ || p == "@angular/platform-browser"@ || p == "@angular/platform-browser-dynamic"@ || p == "@angular/platform-server"@ || p == "@angular/elements"@ || p == "@angular/service-worker"@ || p == "@angular/upgrade"@ || p == "@angular/localize"@ || p == "@angular/ssr"@
}

pub fn monorepo_package(p: &str) -> (res: bool)
    ensures
        res == is_monorepo_package(p@),
{
    str_equal(p, "@angular/core") || str_equal(p, "@angular/common") || str_equal(p, "@angular/compiler") || str_equal(p, "@angular/compiler-cli") || str_equal(p, "@angular/animations") || str_equal(p, "@angular/forms") || str_equal(p, "@angular/router") || str_equal(p, "@angular/platform-browser") || str_equal(p, "@angular/platform-browser-dynamic") || str_equal(p, "@angular/platform-server") || str_equal(p, "@angular/elements") || str_equal(p, "@angular/service-worker") || str_equal(p, "@angular/upgrade") || str_equal(p, "@angular/localize") || str_equal(p, "@angular/ssr")
}

/// Whether `p` is `@angular/material` or `@angular/cdk`, which track Angular's major.
pub open spec fn is_material_package(p: Seq<char>) -> bool {
    p == "@angular/material"@ || p == "@angular/cdk"@
}

pub fn material_package(p: &str) -> (res: bool)
    ensures
        res == is_material_package(p@),
{
    str_equal(p, "@angular/material") || str_equal(p, "@angular/cdk")
}

/// `~MAJOR.MINOR.0` for the newest supported TypeScript.
pub open spec fn typescript_spec_text(cat: AngularMajor) -> Seq<char> {
    seq!['~'] + decimal(cat.typescript_max.0 as nat) + seq!['.'] + decimal(cat.typescript_max.1 as nat) + seq!['.', '0']
}

/// TypeScript devDependency specifier for a major, e.g. `~5.8.0` (pins to the
/// newest supported TypeScript, mirroring what `ng update` produces).
pub fn typescript_spec(cat: &AngularMajor) -> (res: String)
    ensures
        res@ == typescript_spec_text(*cat),
{
    let mut v: Vec<char> = Vec::new();
    v.push('~');
    push_decimal(&mut v, cat.typescript_max.0 as u128);
    v.push('.');
    push_decimal(&mut v, cat.typescript_max.1 as u128);
    v.push('.');
    v.push('0');
    proof {
        assert(v@ =~= typescript_spec_text(*cat));
    }
    from_chars(v.as_slice())
}

pub open spec fn version_pair_text(p: (u32, u32)) -> Seq<char> {
    decimal(p.0 as nat) + seq!['.'] + decimal(p.1 as nat)
}

/// Display string of the supported TypeScript range, `5.5 - 5.8`, or a single
/// version when the bounds coincide.
pub open spec fn typescript_range_text(cat: AngularMajor) -> Seq<char> {
    let min = version_pair_text(cat.typescript);
    let max = version_pair_text(cat.typescript_max);
    if min == max {
        min
    } else {
        min + " - "@ + max
    }
}

pub fn typescript_range(cat: &AngularMajor) -> (res: String)
    ensures
        res@ == typescript_range_text(*cat),
{
    let mut min: Vec<char> = Vec::new();
    push_decimal(&mut min, cat.typescript.0 as u128);
    min.push('.');
    push_decimal(&mut min, cat.typescript.1 as u128);
    let mut max: Vec<char> = Vec::new();
    push_decimal(&mut max, cat.typescript_max.0 as u128);
    max.push('.');
    push_decimal(&mut max, cat.typescript_max.1 as u128);
    proof {
        assert(min@ =~= version_pair_text(cat.typescript));
        assert(max@ =~= version_pair_text(cat.typescript_max));
    }
    let same = chars_equal(min.as_slice(), max.as_slice());
    if same {
        from_chars(min.as_slice())
    } else {
        push_str(&mut min, " - ");
        let mut k: usize = 0;
        let ghost base = min@;
        while k < max.len()
            invariant
                k <= max@.len(),
                min@ == base + max@.take(k as int),
            decreases max@.len() - k,
        {
            min.push(max[k]);
            proof {
                assert(max@.take(k + 1) =~= max@.take(k as int).push(max@[k as int]));
            }
            k = k + 1;
        }
        proof {
            assert(max@.take(max@.len() as int) =~= max@);
            assert(min@ =~= version_pair_text(cat.typescript) + " - "@ + version_pair_text(cat.typescript_max));
        }
        from_chars(min.as_slice())
    }
}

} // verus!
