//! The command line: its commands as plain values, and the text the
//! `catalog`, `analyze` and `migrate` commands print.

use vstd::prelude::*;
use crate::catalog::{catalog, catalog_entry, typescript_range, typescript_range_text, AngularMajor, LATEST_MAJOR, MIN_SUPPORTED_MAJOR};
use crate::migrate::MigrationOutcome;
use crate::model::strings_view;
use crate::package::{all_deps_spec, dependency_major, pairs_get, pairs_view, lookup_pairs, PackageView, Project};
use crate::pattern::push_text;
use crate::plan::{dec, push_dec};
use crate::text::decimal;

verus! {

/// The parsed command line.
pub struct Cli {
    pub command: Commands,
}

/// The subcommands.
pub enum Commands {
    /// Inspect the project: detected Angular / CLI / TS versions and layout.
    Analyze {
        /// Project root.
        path: String,
    },
    /// Show the step-by-step migration plan without changing anything.
    Plan {
        /// Project root.
        path: String,
        /// Target Angular major (defaults to the newest supported).
        target: Option<u32>,
        /// Write the plan to this file.
        report: Option<String>,
    },
    /// Apply the migration to the project.
    Migrate {
        /// Project root.
        path: String,
        /// Target Angular major (defaults to the newest supported).
        target: Option<u32>,
        /// Print what would change without writing anything.
        dry_run: bool,
        /// Skip npm-registry lookups for third-party dependencies.
        offline: bool,
        /// Apply recommended third-party dependency bumps.
        apply_recommended: bool,
        /// Also rewrite *ngIf/*ngFor to @if/@for control-flow blocks.
        apply_control_flow: bool,
        /// Write a report to this file.
        report: Option<String>,
    },
    /// List the supported Angular majors and their package versions.
    Catalog,
}


// ---------------------------------------------------------------------------
// Padding
// ---------------------------------------------------------------------------

pub open spec fn spaces(n: nat) -> Seq<char> {
    Seq::new(n, |i: int| ' ')
}

/// `s` right-aligned in `w` columns (`{:>w}`).
pub open spec fn pad_left(s: Seq<char>, w: nat) -> Seq<char> {
    if s.len() >= w {
        s
    } else {
        spaces((w - s.len()) as nat) + s
    }
}

/// `s` left-aligned in `w` columns (`{:w}` for a string).
pub open spec fn pad_right(s: Seq<char>, w: nat) -> Seq<char> {
    if s.len() >= w {
        s
    } else {
        s + spaces((w - s.len()) as nat)
    }
}

fn push_spaces(out: &mut String, n: usize)
    ensures
        final(out)@ == old(out)@ + spaces(n as nat),
{
    let ghost o0 = out@;
    let mut i: usize = 0;
    while i < n
        invariant
            i <= n,
            out@ == o0 + spaces(i as nat),
        decreases n - i,
    {
        crate::text::string_push(out, ' ');
        proof {
            assert(spaces((i + 1) as nat) =~= spaces(i as nat).push(' '));
        }
        i = i + 1;
    }
}

fn char_count(s: &str) -> (res: usize)
    ensures
        res == s@.len(),
{
    let cs = crate::text::to_chars(s);
    cs.len()
}

fn push_padded_left(out: &mut String, s: &str, w: usize)
    ensures
        final(out)@ == old(out)@ + pad_left(s@, w as nat),
{
    let n = char_count(s);
    if n < w {
        push_spaces(out, w - n);
    }
    push_text(out, s);
    proof {
        if n < w {
            assert(old(out)@ + spaces((w - n) as nat) + s@ =~= old(out)@ + pad_left(s@, w as nat));
        }
    }
}

fn push_padded_right(out: &mut String, s: &str, w: usize)
    ensures
        final(out)@ == old(out)@ + pad_right(s@, w as nat),
{
    let n = char_count(s);
    push_text(out, s);
    if n < w {
        push_spaces(out, w - n);
    }
    proof {
        if n < w {
            assert(old(out)@ + s@ + spaces((w - n) as nat) =~= old(out)@ + pad_right(s@, w as nat));
        }
    }
}

// ---------------------------------------------------------------------------
// `catalog`
// ---------------------------------------------------------------------------

/// The header of the catalog table.
pub open spec fn catalog_header() -> Seq<char> {
    pad_left("major"@, 4) + "  "@ + pad_left("core"@, 9) + "  "@ + pad_left("cli"@, 9) + "  "@
        + pad_left("material"@, 9) + "  "@ + pad_left("zone.js"@, 9) + "  "@ + pad_left("rxjs"@, 8)
        + "  "@ + pad_left("typescript"@, 14) + "  "@ + pad_left("node"@, 8)
}

/// One row of the catalog table; estimated entries are marked `(est.)`.
pub open spec fn catalog_row(e: AngularMajor) -> Seq<char> {
    pad_left(dec(e.major), 4) + "  "@ + pad_left(e.core@, 9) + "  "@ + pad_left(e.cli@, 9) + "  "@
        + pad_left(e.material@, 9) + "  "@ + pad_left(e.zone_js@, 9) + "  "@ + pad_left(e.rxjs@, 8)
        + "  "@ + pad_left(typescript_range_text(e), 14) + "  "@ + pad_left(e.node@, 8) + if e.confirmed {
        Seq::empty()
    } else {
        "  (est.)"@
    }
}

/// The row of `major` (empty when it is not in the catalog).
pub open spec fn catalog_row_of(major: u32) -> Seq<char> {
    match catalog_entry(major) {
        Some(e) => catalog_row(e),
        None => Seq::empty(),
    }
}

fn catalog_header_exec() -> (res: String)
    ensures
        res@ == catalog_header(),
{
    let mut out = String::new();
    push_padded_left(&mut out, "major", 4);
    push_text(&mut out, "  ");
    push_padded_left(&mut out, "core", 9);
    push_text(&mut out, "  ");
    push_padded_left(&mut out, "cli", 9);
    push_text(&mut out, "  ");
    push_padded_left(&mut out, "material", 9);
    push_text(&mut out, "  ");
    push_padded_left(&mut out, "zone.js", 9);
    push_text(&mut out, "  ");
    push_padded_left(&mut out, "rxjs", 8);
    push_text(&mut out, "  ");
    push_padded_left(&mut out, "typescript", 14);
    push_text(&mut out, "  ");
    push_padded_left(&mut out, "node", 8);
    proof {
        assert(out@ =~= catalog_header());
    }
    out
}

fn catalog_row_exec(e: &AngularMajor) -> (res: String)
    ensures
        res@ == catalog_row(*e),
{
    let mut out = String::new();
    let m = crate::text::decimal_string(e.major as u64);
    push_padded_left(&mut out, m.as_str(), 4);
    push_text(&mut out, "  ");
    push_padded_left(&mut out, e.core, 9);
    push_text(&mut out, "  ");
    push_padded_left(&mut out, e.cli, 9);
    push_text(&mut out, "  ");
    push_padded_left(&mut out, e.material, 9);
    push_text(&mut out, "  ");
    push_padded_left(&mut out, e.zone_js, 9);
    push_text(&mut out, "  ");
    push_padded_left(&mut out, e.rxjs, 8);
    push_text(&mut out, "  ");
    let ts = typescript_range(e);
    push_padded_left(&mut out, ts.as_str(), 14);
    push_text(&mut out, "  ");
    push_padded_left(&mut out, e.node, 8);
    if !e.confirmed {
        push_text(&mut out, "  (est.)");
    }
    proof {
        assert(out@ =~= catalog_row(*e));
    }
    out
}

/// The lines the `catalog` command prints: the header, then one row per
/// supported major, oldest first.
pub fn catalog_lines() -> (res: Vec<String>)
    ensures
        res@.len() == LATEST_MAJOR - MIN_SUPPORTED_MAJOR + 2,
        res@[0]@ == catalog_header(),
        forall|i: int|
            1 <= i < res@.len() ==> (#[trigger] res@[i])@ == catalog_row_of(
                (MIN_SUPPORTED_MAJOR + i - 1) as u32,
            ),
{
    let entries = catalog();
    let mut out: Vec<String> = Vec::new();
    out.push(catalog_header_exec());
    let mut i: usize = 0;
    while i < entries.len()
        invariant
            i <= entries@.len(),
            entries@.len() == LATEST_MAJOR - MIN_SUPPORTED_MAJOR + 1,
            forall|k: int| 0 <= k < entries@.len() ==> catalog_entry((MIN_SUPPORTED_MAJOR + k) as u32) == Some(#[trigger] entries@[k]),
            out@.len() == i + 1,
            out@[0]@ == catalog_header(),
            forall|k: int|
                1 <= k < out@.len() ==> (#[trigger] out@[k])@ == catalog_row_of(
                    (MIN_SUPPORTED_MAJOR + k - 1) as u32,
                ),
        decreases entries@.len() - i,
    {
        let row = catalog_row_exec(&entries[i]);
        out.push(row);
        proof {
            assert(catalog_entry((MIN_SUPPORTED_MAJOR + i) as u32) == Some(entries@[i as int]));
            assert forall|k: int|
                1 <= k < out@.len() implies (#[trigger] out@[k])@ == catalog_row_of(
                    (MIN_SUPPORTED_MAJOR + k - 1) as u32,
                ) by {
                if k == out@.len() - 1 {
                    assert(k - 1 == i);
                }
            }
        }
        i = i + 1;
    }
    out
}

// ---------------------------------------------------------------------------
// `analyze`
// ---------------------------------------------------------------------------

pub open spec fn opt_text(o: Option<Seq<char>>, absent: Seq<char>) -> Seq<char> {
    match o {
        Some(s) => s,
        None => absent,
    }
}

/// Names joined with `, `.
pub open spec fn join_names(ns: Seq<Seq<char>>) -> Seq<char>
    decreases ns.len(),
{
    if ns.len() == 0 {
        Seq::empty()
    } else if ns.len() == 1 {
        ns[0]
    } else {
        join_names(ns.drop_last()) + ", "@ + ns.last()
    }
}

/// `  name: version` for each dependency.
pub open spec fn dep_lines(ds: Seq<(Seq<char>, Seq<char>)>) -> Seq<Seq<char>> {
    ds.map_values(|d: (Seq<char>, Seq<char>)| "  "@ + d.0 + ": "@ + d.1)
}

/// A toolchain line: the key left-aligned in 8 columns, then its version.
pub open spec fn tool_line(all: Seq<(Seq<char>, Seq<char>)>, key: Seq<char>) -> Seq<char> {
    pad_right(key, 8) + ": "@ + opt_text(pairs_get(all, key, 0), "(none)"@)
}

/// The lines the `analyze` command prints, given the file names of the
/// project's tsconfig files.
pub open spec fn analysis_spec(p: Project, tsconfig_names: Seq<Seq<char>>) -> Seq<Seq<char>> {
    let all = all_deps_spec(p.package@);
    seq![
        "Project: "@ + opt_text(p.package@.name, "(unnamed project)"@),
        "Root:    "@ + p.root@,
        match dependency_major(p.package@, "@angular/core"@) {
            Some(m) => "Angular: v"@ + dec(m),
            None => "Angular: (none found)"@,
        },
        "CLI:     "@ + match dependency_major(p.package@, "@angular/cli"@) {
            Some(m) => seq!['v'] + dec(m),
            None => "(not installed)"@,
        },
        tool_line(all, "typescript"@),
        tool_line(all, "rxjs"@),
        tool_line(all, "zone.js"@),
        tool_line(all, "tslib"@),
        "Workspace config: "@ + match p.workspace_path {
            Some(w) => w@,
            None => "(none)"@,
        },
        "tsconfigs: "@ + join_names(tsconfig_names),
        "e2e target: "@ + if crate::package::has_e2e_spec(p) {
            "yes"@
        } else {
            "no"@
        },
        "\nDependencies:"@,
    ] + dep_lines(all)
}

fn push_owned(out: &mut Vec<String>, line: String)
    ensures
        strings_view(final(out)@) == strings_view(old(out)@).push(line@),
{
    let ghost o0 = strings_view(out@);
    out.push(line);
    proof {
        assert(strings_view(out@) =~= o0.push(line@));
    }
}

fn tool_line_exec(all: &Vec<(String, String)>, key: &str) -> (res: String)
    ensures
        res@ == tool_line(pairs_view(all@), key@),
{
    let mut line = String::new();
    push_padded_right(&mut line, key, 8);
    push_text(&mut line, ": ");
    match lookup_pairs(all, key) {
        Some(v) => push_text(&mut line, v.as_str()),
        None => push_text(&mut line, "(none)"),
    }
    proof {
        assert(line@ =~= tool_line(pairs_view(all@), key@));
    }
    line
}

/// The lines the `analyze` command prints for `project`, whose tsconfig
/// files are named `tsconfig_names`.
pub fn analysis_lines(project: &Project, tsconfig_names: &Vec<String>) -> (res: Vec<String>)
    ensures
        strings_view(res@) == analysis_spec(*project, strings_view(tsconfig_names@)),
{
    let mut out: Vec<String> = Vec::new();
    let all = project.package.all_dependencies();
    let mut l0 = String::new();
    push_text(&mut l0, "Project: ");
    push_text(&mut l0, project.package.name());
    let ghost g0 = l0@;
    proof {
        assert(g0 =~= "Project: "@ + opt_text(project.package@.name, "(unnamed project)"@));
    }
    push_owned(&mut out, l0);
    let mut l1 = String::new();
    push_text(&mut l1, "Root:    ");
    push_text(&mut l1, project.root.as_str());
    push_owned(&mut out, l1);
    let mut l2 = String::new();
    match project.angular_major() {
        Some(m) => {
            push_text(&mut l2, "Angular: v");
            push_dec(&mut l2, m as u64);
        },
        None => push_text(&mut l2, "Angular: (none found)"),
    }
    let ghost g2 = l2@;
    proof {
        assert(g2 =~= match dependency_major(project.package@, "@angular/core"@) {
            Some(m) => "Angular: v"@ + dec(m),
            None => "Angular: (none found)"@,
        });
    }
    push_owned(&mut out, l2);
    let mut l3 = String::new();
    push_text(&mut l3, "CLI:     ");
    match project.cli_major() {
        Some(m) => {
            push_text(&mut l3, "v");
            push_dec(&mut l3, m as u64);
        },
        None => push_text(&mut l3, "(not installed)"),
    }
    let ghost g3 = l3@;
    proof {
        reveal_strlit("v");
        assert(g3 =~= "CLI:     "@ + match dependency_major(project.package@, "@angular/cli"@) {
            Some(m) => seq!['v'] + dec(m),
            None => "(not installed)"@,
        });
    }
    push_owned(&mut out, l3);
    push_owned(&mut out, tool_line_exec(&all, "typescript"));
    push_owned(&mut out, tool_line_exec(&all, "rxjs"));
    push_owned(&mut out, tool_line_exec(&all, "zone.js"));
    push_owned(&mut out, tool_line_exec(&all, "tslib"));
    let mut l8 = String::new();
    push_text(&mut l8, "Workspace config: ");
    match &project.workspace_path {
        Some(w) => push_text(&mut l8, w.as_str()),
        None => push_text(&mut l8, "(none)"),
    }
    let ghost g8 = l8@;
    proof {
        assert(g8 =~= "Workspace config: "@ + match project.workspace_path {
            Some(w) => w@,
            None => "(none)"@,
        });
    }
    push_owned(&mut out, l8);
    let mut l9 = String::new();
    push_text(&mut l9, "tsconfigs: ");
    let ghost ns = strings_view(tsconfig_names@);
    let ghost head = l9@;
    let mut k: usize = 0;
    proof {
        assert(ns.take(0) =~= Seq::<Seq<char>>::empty());
        assert(l9@ =~= head + join_names(ns.take(0)));
    }
    while k < tsconfig_names.len()
        invariant
            k <= tsconfig_names@.len(),
            ns == strings_view(tsconfig_names@),
            l9@ == head + join_names(ns.take(k as int)),
        decreases tsconfig_names@.len() - k,
    {
        if k > 0 {
            push_text(&mut l9, ", ");
        }
        push_text(&mut l9, tsconfig_names[k].as_str());
        proof {
            let t = ns.take(k + 1);
            assert(t.drop_last() =~= ns.take(k as int));
            assert(t.last() == tsconfig_names@[k as int]@);
            if k == 0 {
                assert(join_names(t) == t[0]);
            }
            assert(l9@ =~= head + join_names(t));
        }
        k = k + 1;
    }
    proof {
        assert(ns.take(tsconfig_names@.len() as int) =~= ns);
    }
    push_owned(&mut out, l9);
    let mut l10 = String::new();
    push_text(&mut l10, "e2e target: ");
    if project.has_e2e_target() {
        push_text(&mut l10, "yes");
    } else {
        push_text(&mut l10, "no");
    }
    let ghost g10 = l10@;
    proof {
        assert(g10 =~= "e2e target: "@ + if crate::package::has_e2e_spec(*project) {
            "yes"@
        } else {
            "no"@
        });
    }
    push_owned(&mut out, l10);
    push_owned(&mut out, "\nDependencies:".to_owned());
    let ghost fixed = strings_view(out@);
    let ghost dv = pairs_view(all@);
    let mut j: usize = 0;
    proof {
        assert(dep_lines(dv).take(0) =~= Seq::<Seq<char>>::empty());
        assert(strings_view(out@) =~= fixed + dep_lines(dv).take(0));
    }
    while j < all.len()
        invariant
            j <= all@.len(),
            dv == pairs_view(all@),
            strings_view(out@) == fixed + dep_lines(dv).take(j as int),
        decreases all@.len() - j,
    {
        let mut line = String::new();
        push_text(&mut line, "  ");
        push_text(&mut line, all[j].0.as_str());
        push_text(&mut line, ": ");
        push_text(&mut line, all[j].1.as_str());
        proof {
            assert(line@ =~= dep_lines(dv)[j as int]);
            assert(dep_lines(dv).take(j + 1) =~= dep_lines(dv).take(j as int).push(line@));
        }
        push_owned(&mut out, line);
        j = j + 1;
    }
    proof {
        assert(dep_lines(dv).take(all@.len() as int) =~= dep_lines(dv));
        let sp = analysis_spec(*project, ns);
        assert(fixed.len() == 12);
        assert(fixed[0] == sp[0]);
        assert(fixed[1] == sp[1]);
        assert(fixed[2] == sp[2]);
        assert(fixed[3] == sp[3]);
        assert(fixed[8] == sp[8]);
        assert(fixed[9] == sp[9]);
        assert(fixed[10] == sp[10]);
        assert(fixed =~= sp.take(12));
        assert(strings_view(out@) =~= analysis_spec(*project, ns));
    }
    out
}

// ---------------------------------------------------------------------------
// `migrate`
// ---------------------------------------------------------------------------

/// The lines the `migrate` command prints after a migration: the log, the
/// warnings (when any) and the control-flow counts (when something was
/// skipped).
pub open spec fn summary_spec(o: MigrationOutcome) -> Seq<Seq<char>> {
    strings_view(o.log@) + (if o.warnings@.len() > 0 {
        seq!["\nWarnings:"@] + strings_view(o.warnings@).map_values(|w: Seq<char>| "  ! "@ + w)
    } else {
        Seq::empty()
    }) + if o.control_flow_skipped > 0 {
        seq![
            "\nControl-flow: "@ + decimal(o.control_flow_migrated as nat) + " migrated, "@ + decimal(
                o.control_flow_skipped as nat,
            ) + " skipped (see warnings)."@,
        ]
    } else {
        Seq::empty()
    }
}

/// The lines the `migrate` command prints for `outcome`.
pub fn summary_lines(outcome: &MigrationOutcome) -> (res: Vec<String>)
    ensures
        strings_view(res@) == summary_spec(*outcome),
{
    let mut out: Vec<String> = Vec::new();
    let mut i: usize = 0;
    while i < outcome.log.len()
        invariant
            i <= outcome.log@.len(),
            strings_view(out@) == strings_view(outcome.log@).take(i as int),
        decreases outcome.log@.len() - i,
    {
        proof {
            assert(strings_view(outcome.log@).take(i + 1) =~= strings_view(outcome.log@).take(i as int).push(outcome.log@[i as int]@));
        }
        push_owned(&mut out, outcome.log[i].clone());
        i = i + 1;
    }
    proof {
        assert(strings_view(outcome.log@).take(outcome.log@.len() as int) =~= strings_view(outcome.log@));
    }
    let ghost wl = strings_view(outcome.warnings@).map_values(|w: Seq<char>| "  ! "@ + w);
    if outcome.warnings.len() > 0 {
        push_owned(&mut out, "\nWarnings:".to_owned());
        let ghost head = strings_view(out@);
        let mut j: usize = 0;
        proof {
            assert(wl.take(0) =~= Seq::<Seq<char>>::empty());
            assert(strings_view(out@) =~= head + wl.take(0));
        }
        while j < outcome.warnings.len()
            invariant
                j <= outcome.warnings@.len(),
                wl == strings_view(outcome.warnings@).map_values(|w: Seq<char>| "  ! "@ + w),
                strings_view(out@) == head + wl.take(j as int),
            decreases outcome.warnings@.len() - j,
        {
            let mut line = String::new();
            push_text(&mut line, "  ! ");
            push_text(&mut line, outcome.warnings[j].as_str());
            proof {
                assert(line@ =~= wl[j as int]);
                assert(wl.take(j + 1) =~= wl.take(j as int).push(line@));
            }
            push_owned(&mut out, line);
            j = j + 1;
        }
        proof {
            assert(wl.take(outcome.warnings@.len() as int) =~= wl);
        }
    }
    if outcome.control_flow_skipped > 0 {
        let mut line = String::new();
        push_text(&mut line, "\nControl-flow: ");
        push_dec(&mut line, outcome.control_flow_migrated as u64);
        push_text(&mut line, " migrated, ");
        push_dec(&mut line, outcome.control_flow_skipped as u64);
        push_text(&mut line, " skipped (see warnings).");
        push_owned(&mut out, line);
    }
    proof {
        assert(strings_view(out@) =~= summary_spec(*outcome));
    }
    out
}

} // verus!
