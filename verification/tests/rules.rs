use angular_migrator::model::MigrationRule;
use angular_migrator::rules::{step_rules, PlanOptions};

#[test]
fn every_transition_has_at_least_a_note() {
    for from in 6..=21 {
        let rules = step_rules(from, PlanOptions::default());
        assert!(!rules.is_empty(), "transition {from} should have rules");
    }
}

#[test]
fn control_flow_rule_is_opt_in() {
    let without = step_rules(16, PlanOptions::default());
    assert!(without
        .iter()
        .all(|r| !matches!(r, MigrationRule::ControlFlowMigration)));
    let with = step_rules(
        16,
        PlanOptions {
            apply_control_flow: true,
        },
    );
    assert!(with
        .iter()
        .any(|r| matches!(r, MigrationRule::ControlFlowMigration)));
}

#[test]
fn v13_removes_enable_ivy() {
    let rules = step_rules(12, PlanOptions::default());
    assert!(rules.iter().any(
        |r| matches!(r, MigrationRule::RemoveCompilerOption { key } if key == "enableIvy")
    ));
}

#[test]
fn v14_removes_entry_components() {
    let rules = step_rules(13, PlanOptions::default());
    assert!(rules.iter().any(
        |r| matches!(r, MigrationRule::RemoveNgModuleField { field } if field == "entryComponents")
    ));
}

#[test]
fn v17_removes_e2e() {
    let rules = step_rules(16, PlanOptions::default());
    assert!(rules
        .iter()
        .any(|r| matches!(r, MigrationRule::RemoveScript { script } if script == "e2e")));
    assert!(rules.iter().any(
        |r| matches!(r, MigrationRule::RemoveWorkspaceTarget { target } if target == "e2e")
    ));
    assert!(rules
        .iter()
        .any(|r| matches!(r, MigrationRule::DepRemove { package } if package == "protractor")));
}

#[test]
fn control_flow_never_requested_elsewhere() {
    for from in 6..=21 {
        if from == 16 {
            continue;
        }
        let rules = step_rules(
            from,
            PlanOptions {
                apply_control_flow: true,
            },
        );
        assert!(rules
            .iter()
            .all(|r| !matches!(r, MigrationRule::ControlFlowMigration)));
    }
}

#[test]
fn uncurated_transition_gets_a_note() {
    let rules = step_rules(30, PlanOptions::default());
    assert_eq!(rules.len(), 1);
    assert_eq!(
        rules[0],
        MigrationRule::note("Transition 30 -> 31: no curated rules; consult https://update.angular.io.")
    );
}
