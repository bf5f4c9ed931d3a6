//! Data-driven migration rules for each Angular major transition.
//!
//! Rules are keyed by the transition `from -> from + 1`. Version alignment of
//! `@angular/*` and the toolchain happens once at the end against the target
//! major's catalog entry, so this module only encodes structural changes
//! (source rewrites, config changes, removed packages, notes).

use vstd::prelude::*;
use crate::model::{MigrationRule, RuleSpec, rules_view, strings_view};
use crate::text::{decimal, from_chars, push_decimal, push_str};

verus! {

/// Options that influence rule generation.
#[derive(Debug, Clone, Copy)]
pub struct PlanOptions {
    /// Also emit the structural-directive -> control-flow migration rule
    /// (Angular 17+). Defaults to a note instead.
    pub apply_control_flow: bool,
}

impl PlanOptions {
    pub fn default() -> (res: PlanOptions)
        ensures
            !res.apply_control_flow,
    {
        PlanOptions { apply_control_flow: false }
    }
}

/// The deprecated CLI flags stripped from npm scripts at Angular 13.
pub open spec fn v13_flags() -> Seq<Seq<char>> {
    seq!["--prod"@, "--aot"@, "--build-optimizer"@, "--vendor-chunk"@, "--common-chunk"@, "--named-chunks"@, "--output-hashing"@, "--extract-licenses"@, "--show-circular-dependencies"@]
}

fn strip_flags_rule() -> (res: MigrationRule)
    ensures
        res@ == (RuleSpec::StripScriptFlags { flags: v13_flags() }),
{
    let mut flags: Vec<String> = Vec::new();
    flags.push("--prod".to_owned());
    flags.push("--aot".to_owned());
    flags.push("--build-optimizer".to_owned());
    flags.push("--vendor-chunk".to_owned());
    flags.push("--common-chunk".to_owned());
    flags.push("--named-chunks".to_owned());
    flags.push("--output-hashing".to_owned());
    flags.push("--extract-licenses".to_owned());
    flags.push("--show-circular-dependencies".to_owned());
    proof {
        assert(strings_view(flags@) =~= v13_flags());
    }
    MigrationRule::StripScriptFlags { flags }
}

/// The note for a transition without curated rules.
pub open spec fn uncurated_note(from: u32) -> Seq<char> {
    "Transition "@ + decimal(from as nat) + " -> "@ + decimal(from as nat + 1)
        + ": no curated rules; consult https://update.angular.io."@
}

/// The rules for upgrading one major step (`from` -> `from + 1`).
pub open spec fn step_rules_spec(from: u32, opts: PlanOptions) -> Seq<RuleSpec> {
    match from {
        6 => seq![
            RuleSpec::Note { text: "Angular 7: TypeScript 3.1 required. No automated source changes. See the \
                 official Angular 7 update guide for manual steps."@ },
        ],
        7 => seq![
            RuleSpec::Note { text: "Angular 8: TypeScript 3.4, differential loading enabled by default. \
                 `@angular/http` is fully removed (use `@angular/common/http`)."@ },
        ],
        8 => seq![
            RuleSpec::Note { text: "Angular 9 (Ivy default): recompile all libraries; View Engine libraries must \
                 publish Ivy-compatible (partial-Ivy) builds."@ },
            RuleSpec::Note { text: "Angular 9 enables Ivy by default. Projects still on View Engine \
    (angularCompilerOptions.enableIvy: false) must be migrated to Ivy before continuing; \
    this tool removes the flag at Angular 13 where View Engine is deleted."@ },
            RuleSpec::Note { text: "@ViewChild / @ContentChild: in Ivy the `static` flag defaults to false. Run the \
                 official schematic (`ng update @angular/core --from 8 --to 9`) which inserts \
                 `static: true` where the query result is used before the view initialises. This \
                 tool does not automate that analysis."@ },
            RuleSpec::Note { text: "TypeScript 3.6-3.8, Node 10.13+, tslib ^2.0.0 required (bumped by the tool)."@ },
        ],
        9 => seq![
            RuleSpec::Note { text: "Angular 10: TypeScript 3.9; IE9/IE10 support dropped from the default \
                 browser targets."@ },
        ],
        10 => seq![
            RuleSpec::Note { text: "Angular 11: TypeScript 4.0; browser support for Firefox ESR unchanged."@ },
        ],
        11 => seq![
            RuleSpec::Note { text: "Angular 12: TypeScript 4.2, Webpack 5, IE11 deprecation announced. \
                 `--prod` and related build flags become deprecated."@ },
        ],
        12 => seq![
            RuleSpec::RemoveCompilerOption { key: "enableIvy"@ },
            RuleSpec::StripScriptFlags { flags: v13_flags() },
            RuleSpec::DepRemove { package: "@angular-devkit/build-ng-packagr"@ },
            RuleSpec::Note { text: "Angular 13 removes View Engine entirely: `enableIvy` is deleted from \
                 angularCompilerOptions (removed by the tool). Verify the project is Ivy-ready."@ },
            RuleSpec::Note { text: "Angular 13 removes the deprecated `Renderer` type (use `Renderer2`), removes \
                 the `--prod`/`--aot`/etc. build flags (stripped from npm scripts by the tool), \
                 and drops `entryComponents` support."@ },
            RuleSpec::Note { text: "rxjs 6 -> 7: the tool bumps rxjs to ^7.5.7. Manual work may be required: \
                 `toPromise` removed, `combineLatest`/`merge`/`forkJoin` signatures changed, \
                 `switchMap`/`map` untouched."@ },
            RuleSpec::Note { text: "TypeScript 4.4-4.6, Node 12.20+ required."@ },
        ],
        13 => seq![
            RuleSpec::RemoveNgModuleField { field: "entryComponents"@ },
            RuleSpec::Note { text: "Angular 14 removes `entryComponents` from @NgModule (removed by the tool). \
                 Forms are now strictly typed; untyped forms may require `UntypedFormControl` \
                 etc. when strict templates are enabled."@ },
            RuleSpec::Note { text: "TypeScript 4.6-4.8, Node 14.15+ required."@ },
        ],
        14 => seq![
            RuleSpec::Note { text: "Angular 15 removes `ComponentFactoryResolver`, `ComponentFactory` and the \
                 factory-based `ViewContainerRef.createComponent` overload. Replace \
                 `resolver.resolveComponentFactory(X)` with \
                 `viewContainerRef.createComponent(X)`. This tool does not automate that rewrite."@ },
            RuleSpec::Note { text: "Standalone components are now stable; `provideRouter`/`bootstrapApplication` \
                 are recommended for new code."@ },
            RuleSpec::Note { text: "TypeScript 4.8-5.0, Node 14.20+/16.13+ required."@ },
        ],
        15 => seq![
            RuleSpec::DepRemove { package: "@angular/language-service"@ },
            RuleSpec::Note { text: "Angular 16: the standalone `@angular/language-service` package is removed \
                 (removed by the tool; language support ships inside @angular/compiler-cli)."@ },
            RuleSpec::Note { text: "Standalone APIs are now the default recommendation; `ng new` generates \
                 standalone apps."@ },
            RuleSpec::Note { text: "TypeScript 4.9-5.1, Node 16.14+/18.10+ required."@ },
        ],
        16 => seq![
            RuleSpec::RemoveWorkspaceTarget { target: "e2e"@ },
            RuleSpec::RemoveScript { script: "e2e"@ },
            RuleSpec::DepRemove { package: "protractor"@ },
            (if opts.apply_control_flow { RuleSpec::ControlFlowMigration } else { RuleSpec::Note { text: "Angular 17 introduces `@if`/`@for`/`@switch` control-flow blocks. Run \
                     `ng generate @angular/core:control-flow` (or re-run this tool with \
                     `--apply-control-flow`) to migrate structural directives. The tool's \
                     opt-in rewrite handles plain `*ngIf`/`*ngFor` on elements and ng-container."@ } }),
            RuleSpec::Note { text: "Angular 17 removes `ng e2e` and the protractor builder (e2e target, script and \
                 dependency removed by the tool); migrate e2e tests to Playwright or another \
                 runner."@ },
            RuleSpec::Note { text: "Vite is the new default build/dev server; esbuild-powered. SSR uses \
                 `@angular/ssr` instead of `@nguniversal/*`."@ },
            RuleSpec::Note { text: "Node 18.13+/20.9+ required."@ },
        ],
        17 => seq![
            RuleSpec::Note { text: "Angular 18: optional `@defer` blocks for lazy-loading template parts; \
                 zoneless change detection in developer preview."@ },
            RuleSpec::Note { text: "Node 18.19+/20.11+ required."@ },
        ],
        18 => seq![
            RuleSpec::Note { text: "Angular 19: `provideAppInitializer` replaces the deprecated \
                 `APP_INITIALIZER` multi-provider; standalone components are the default for \
                 `ng new`."@ },
            RuleSpec::Note { text: "Node 20.11+/22.11+ required."@ },
        ],
        19 => seq![
            RuleSpec::Note { text: "Angular 20: review the Angular 20 breaking-changes list (deprecated symbols \
                 removed, zoneless change detection promotion)."@ },
            RuleSpec::Note { text: "Node 20.19+/22.12+ required."@ },
        ],
        20 => seq![
            RuleSpec::Note { text: "Angular 21: consult the official update guide at https://update.angular.io. \
                 The catalog entry for v21 is best-effort (TypeScript/Node requirements not yet \
                 fully verified by this tool)."@ },
        ],
        21 => seq![
            RuleSpec::Note { text: "Angular 22: consult the official update guide at https://update.angular.io. \
                 The catalog entry for v22 is best-effort."@ },
        ],
        _ => seq![RuleSpec::Note { text: uncurated_note(from) }],
    }
}

/// Rules for upgrading one major step (`from` -> `from + 1`).
pub fn step_rules(from: u32, opts: PlanOptions) -> (res: Vec<MigrationRule>)
    requires
        from < u32::MAX,
    ensures
        rules_view(res@) == step_rules_spec(from, opts),
{
    let mut rules: Vec<MigrationRule> = Vec::new();
    match from {
        6 => {
            rules.push(MigrationRule::note("Angular 7: TypeScript 3.1 required. No automated source changes. See the \
                 official Angular 7 update guide for manual steps."));
        },
        7 => {
            rules.push(MigrationRule::note("Angular 8: TypeScript 3.4, differential loading enabled by default. \
                 `@angular/http` is fully removed (use `@angular/common/http`)."));
        },
        8 => {
            rules.push(MigrationRule::note("Angular 9 (Ivy default): recompile all libraries; View Engine libraries must \
                 publish Ivy-compatible (partial-Ivy) builds."));
            rules.push(MigrationRule::note("Angular 9 enables Ivy by default. Projects still on View Engine \
    (angularCompilerOptions.enableIvy: false) must be migrated to Ivy before continuing; \
    this tool removes the flag at Angular 13 where View Engine is deleted."));
            rules.push(MigrationRule::note("@ViewChild / @ContentChild: in Ivy the `static` flag defaults to false. Run the \
                 official schematic (`ng update @angular/core --from 8 --to 9`) which inserts \
                 `static: true` where the query result is used before the view initialises. This \
                 tool does not automate that analysis."));
            rules.push(MigrationRule::note("TypeScript 3.6-3.8, Node 10.13+, tslib ^2.0.0 required (bumped by the tool)."));
        },
        9 => {
            rules.push(MigrationRule::note("Angular 10: TypeScript 3.9; IE9/IE10 support dropped from the default \
                 browser targets."));
        },
        10 => {
            rules.push(MigrationRule::note("Angular 11: TypeScript 4.0; browser support for Firefox ESR unchanged."));
        },
        11 => {
            rules.push(MigrationRule::note("Angular 12: TypeScript 4.2, Webpack 5, IE11 deprecation announced. \
                 `--prod` and related build flags become deprecated."));
        },
        12 => {
            rules.push(MigrationRule::RemoveCompilerOption { key: "enableIvy".to_owned() });
            rules.push(strip_flags_rule());
            rules.push(MigrationRule::DepRemove { package: "@angular-devkit/build-ng-packagr".to_owned() });
            rules.push(MigrationRule::note("Angular 13 removes View Engine entirely: `enableIvy` is deleted from \
                 angularCompilerOptions (removed by the tool). Verify the project is Ivy-ready."));
            rules.push(MigrationRule::note("Angular 13 removes the deprecated `Renderer` type (use `Renderer2`), removes \
                 the `--prod`/`--aot`/etc. build flags (stripped from npm scripts by the tool), \
                 and drops `entryComponents` support."));
            rules.push(MigrationRule::note("rxjs 6 -> 7: the tool bumps rxjs to ^7.5.7. Manual work may be required: \
                 `toPromise` removed, `combineLatest`/`merge`/`forkJoin` signatures changed, \
                 `switchMap`/`map` untouched."));
            rules.push(MigrationRule::note("TypeScript 4.4-4.6, Node 12.20+ required."));
        },
        13 => {
            rules.push(MigrationRule::RemoveNgModuleField { field: "entryComponents".to_owned() });
            rules.push(MigrationRule::note("Angular 14 removes `entryComponents` from @NgModule (removed by the tool). \
                 Forms are now strictly typed; untyped forms may require `UntypedFormControl` \
                 etc. when strict templates are enabled."));
            rules.push(MigrationRule::note("TypeScript 4.6-4.8, Node 14.15+ required."));
        },
        14 => {
            rules.push(MigrationRule::note("Angular 15 removes `ComponentFactoryResolver`, `ComponentFactory` and the \
                 factory-based `ViewContainerRef.createComponent` overload. Replace \
                 `resolver.resolveComponentFactory(X)` with \
                 `viewContainerRef.createComponent(X)`. This tool does not automate that rewrite."));
            rules.push(MigrationRule::note("Standalone components are now stable; `provideRouter`/`bootstrapApplication` \
                 are recommended for new code."));
            rules.push(MigrationRule::note("TypeScript 4.8-5.0, Node 14.20+/16.13+ required."));
        },
        15 => {
            rules.push(MigrationRule::DepRemove { package: "@angular/language-service".to_owned() });
            rules.push(MigrationRule::note("Angular 16: the standalone `@angular/language-service` package is removed \
                 (removed by the tool; language support ships inside @angular/compiler-cli)."));
            rules.push(MigrationRule::note("Standalone APIs are now the default recommendation; `ng new` generates \
                 standalone apps."));
            rules.push(MigrationRule::note("TypeScript 4.9-5.1, Node 16.14+/18.10+ required."));
        },
        16 => {
            rules.push(MigrationRule::RemoveWorkspaceTarget { target: "e2e".to_owned() });
            rules.push(MigrationRule::RemoveScript { script: "e2e".to_owned() });
            rules.push(MigrationRule::DepRemove { package: "protractor".to_owned() });
            if opts.apply_control_flow {
                rules.push(MigrationRule::ControlFlowMigration);
            } else {
                rules.push(MigrationRule::note("Angular 17 introduces `@if`/`@for`/`@switch` control-flow blocks. Run \
                     `ng generate @angular/core:control-flow` (or re-run this tool with \
                     `--apply-control-flow`) to migrate structural directives. The tool's \
                     opt-in rewrite handles plain `*ngIf`/`*ngFor` on elements and ng-container."));
            }
            rules.push(MigrationRule::note("Angular 17 removes `ng e2e` and the protractor builder (e2e target, script and \
                 dependency removed by the tool); migrate e2e tests to Playwright or another \
                 runner."));
            rules.push(MigrationRule::note("Vite is the new default build/dev server; esbuild-powered. SSR uses \
                 `@angular/ssr` instead of `@nguniversal/*`."));
            rules.push(MigrationRule::note("Node 18.13+/20.9+ required."));
        },
        17 => {
            rules.push(MigrationRule::note("Angular 18: optional `@defer` blocks for lazy-loading template parts; \
                 zoneless change detection in developer preview."));
            rules.push(MigrationRule::note("Node 18.19+/20.11+ required."));
        },
        18 => {
            rules.push(MigrationRule::note("Angular 19: `provideAppInitializer` replaces the deprecated \
                 `APP_INITIALIZER` multi-provider; standalone components are the default for \
                 `ng new`."));
            rules.push(MigrationRule::note("Node 20.11+/22.11+ required."));
        },
        19 => {
            rules.push(MigrationRule::note("Angular 20: review the Angular 20 breaking-changes list (deprecated symbols \
                 removed, zoneless change detection promotion)."));
            rules.push(MigrationRule::note("Node 20.19+/22.12+ required."));
        },
        20 => {
            rules.push(MigrationRule::note("Angular 21: consult the official update guide at https://update.angular.io. \
                 The catalog entry for v21 is best-effort (TypeScript/Node requirements not yet \
                 fully verified by this tool)."));
        },
        21 => {
            rules.push(MigrationRule::note("Angular 22: consult the official update guide at https://update.angular.io. \
                 The catalog entry for v22 is best-effort."));
        },
        _ => {
            let mut t: Vec<char> = Vec::new();
            push_str(&mut t, "Transition ");
            push_decimal(&mut t, from as u128);
            push_str(&mut t, " -> ");
            push_decimal(&mut t, (from + 1) as u128);
            push_str(&mut t, ": no curated rules; consult https://update.angular.io.");
            let text = from_chars(t.as_slice());
            rules.push(MigrationRule::Note { text });
        },
    }
    proof {
        assert(rules_view(rules@) =~= step_rules_spec(from, opts));
    }
    rules
}

/// Every transition has at least one rule (a note at the very least).
pub proof fn every_transition_has_rules(from: u32, opts: PlanOptions)
    ensures
        step_rules_spec(from, opts).len() >= 1,
{
}

/// The control-flow rewrite is opt-in: it appears only at the 16 -> 17 step
/// and only when requested.
pub proof fn control_flow_rule_is_opt_in(from: u32, opts: PlanOptions)
    ensures
        step_rules_spec(from, opts).contains(RuleSpec::ControlFlowMigration) <==> (from == 16
            && opts.apply_control_flow),
{
    if from == 16 && opts.apply_control_flow {
        assert(step_rules_spec(from, opts)[3] == RuleSpec::ControlFlowMigration);
    }
}

/// The 12 -> 13 step strips the CLI flags that Angular 13 removed from npm
/// scripts: `--prod`, `--aot`, `--build-optimizer`, `--vendor-chunk`,
/// `--common-chunk`, `--named-chunks`, `--output-hashing`,
/// `--extract-licenses` and `--show-circular-dependencies`, and no other.
pub proof fn v13_step_strips_deprecated_flags(opts: PlanOptions)
    ensures
        exists|k: int|
            0 <= k < step_rules_spec(12, opts).len() && (#[trigger] step_rules_spec(12, opts)[k] matches RuleSpec::StripScriptFlags { flags } && {
                &&& flags.contains("--prod"@)
                &&& flags.contains("--aot"@)
                &&& flags.contains("--build-optimizer"@)
                &&& flags.contains("--vendor-chunk"@)
                &&& flags.contains("--common-chunk"@)
                &&& flags.contains("--named-chunks"@)
                &&& flags.contains("--output-hashing"@)
                &&& flags.contains("--extract-licenses"@)
                &&& flags.contains("--show-circular-dependencies"@)
                &&& forall|j: int| 0 <= j < flags.len() ==> {
                    ||| flags[j] == "--prod"@
                    ||| flags[j] == "--aot"@
                    ||| flags[j] == "--build-optimizer"@
                    ||| flags[j] == "--vendor-chunk"@
                    ||| flags[j] == "--common-chunk"@
                    ||| flags[j] == "--named-chunks"@
                    ||| flags[j] == "--output-hashing"@
                    ||| flags[j] == "--extract-licenses"@
                    ||| flags[j] == "--show-circular-dependencies"@
                }
            }),
{
    let rules = step_rules_spec(12, opts);
    let f = v13_flags();
    assert(rules[1] == RuleSpec::StripScriptFlags { flags: f });
    assert(f[0] == "--prod"@);
    assert(f[1] == "--aot"@);
    assert(f[2] == "--build-optimizer"@);
    assert(f[3] == "--vendor-chunk"@);
    assert(f[4] == "--common-chunk"@);
    assert(f[5] == "--named-chunks"@);
    assert(f[6] == "--output-hashing"@);
    assert(f[7] == "--extract-licenses"@);
    assert(f[8] == "--show-circular-dependencies"@);
}

} // verus!
