# angular_migrator

Plans and applies Angular major-version migrations: dependency bumps,
configuration edits, `@NgModule` metadata clean-up and the opt-in
`*ngIf` / `*ngFor` to `@if` / `@for` template rewrite, one major at a time.

The library under `src/` is verified with Verus. Every public function states
its result in `ensures` over spec functions on plain values (`Seq<char>`
texts, sections of `package.json` as key/value sequences, rule and plan
views), and the laws of the library are public proof functions:

- `catalog` — the version catalog of the supported majors; `catalog_is_contiguous`,
  `catalog_confirmed_through_20`, `catalog_versions_are_three_part`.
- `rules` — the rules of each major step; `every_transition_has_rules`,
  `control_flow_rule_is_opt_in`.
- `plan` — planning and rendering; `plan_visits_every_major`.
- `package` — the parts of `package.json` / `angular.json` the tool edits;
  `all_dependencies_sorted`, `scripts_sorted`, `merged_dependency_lookup`.
- `dependencies` — dependency and script rules, catalog alignment;
  `alignment_sets_catalog_versions`, `alignment_is_idempotent`,
  `removed_dependency_is_gone`, `updated_dependency_reads_back`.
- `thirdparty`, `npm` — third-party suggestions and registry version choice;
  `suggestions_are_sorted`, `registry_suggestions_are_sorted`,
  `suggestions_are_tracked_bumps`.
- `control_flow` — the template rewrite; `one_warning_per_skip`,
  `unmigrated_range_unchanged`.
- `transforms`, `tsconfig` — `@NgModule` property removal, JSONC stripping
  (`plain_json_is_unchanged`) and the `angularCompilerOptions` edit.
- `migrate`, `cli` — the decisions of a migration run and the text the
  commands print.
- `pattern` — regular expressions through the `regex` crate.

`app/` is the command-line program: argument parsing, reading and writing
files, walking the project tree, the npm registry lookup, and turning
compiler-option values into JSON (they may be floating-point numbers).
