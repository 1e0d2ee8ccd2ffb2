use time_cargo::batch::{
    default_exclusions, has_wildcard, is_excluded, is_metadata_entry, plan_batch, plan_package,
    should_abort,
    BatchConfig, PackagePlan,
};
use time_cargo::krate::KrateName;

fn spec(name: &str) -> KrateName {
    KrateName { name: name.to_string(), version: None }
}

fn config(force: bool, stop_on_error: bool) -> BatchConfig {
    BatchConfig { run_tests: false, run_benchmarks: false, release_mode: false, force, stop_on_error }
}

#[test]
fn excluded_names_are_never_attempted() {
    let ex = default_exclusions();
    for name in ["gfx_text", "parasailors", "parasail-sys", "simple"] {
        for completed in [false, true] {
            for force in [false, true] {
                assert_eq!(plan_package(&spec(name), &ex, completed, force), PackagePlan::Excluded);
            }
        }
    }
}

#[test]
fn exclusion_matches_the_whole_name() {
    let ex = default_exclusions();
    assert!(is_excluded("simple", &ex));
    assert!(!is_excluded("simple2", &ex));
    assert!(!is_excluded("simpl", &ex));
    assert!(!is_excluded("Simple", &ex));
}

#[test]
fn completed_package_is_skipped_without_force() {
    let ex = default_exclusions();
    assert_eq!(plan_package(&spec("serde"), &ex, true, false), PackagePlan::Skip);
}

#[test]
fn completed_package_is_redone_with_force() {
    let ex = default_exclusions();
    assert_eq!(plan_package(&spec("serde"), &ex, true, true), PackagePlan::Redo);
}

#[test]
fn new_package_is_built() {
    let ex = default_exclusions();
    assert_eq!(plan_package(&spec("serde"), &ex, false, false), PackagePlan::Fresh);
    assert_eq!(plan_package(&spec("serde"), &ex, false, true), PackagePlan::Fresh);
}

#[test]
fn second_run_skips_everything() {
    // the first run leaves a log for every package it attempted
    let ex = default_exclusions();
    let names = ["a", "simple", "b"];
    let mut ledger: Vec<String> = vec![];
    for n in names {
        let p = plan_package(&spec(n), &ex, ledger.contains(&n.to_string()), false);
        if p == PackagePlan::Fresh || p == PackagePlan::Redo {
            ledger.push(n.to_string());
        }
    }
    assert_eq!(ledger, vec!["a".to_string(), "b".to_string()]);
    for n in names {
        let p = plan_package(&spec(n), &ex, ledger.contains(&n.to_string()), false);
        assert!(p == PackagePlan::Skip || p == PackagePlan::Excluded);
    }
}

#[test]
fn abort_only_on_failure_with_stop_on_error() {
    assert!(should_abort(true, &config(false, true)));
    assert!(!should_abort(true, &config(false, false)));
    assert!(!should_abort(false, &config(false, true)));
}

#[test]
fn hidden_and_json_entries_are_metadata() {
    assert!(is_metadata_entry(".git"));
    assert!(is_metadata_entry("config.json"));
    assert!(is_metadata_entry(".json"));
    assert!(!is_metadata_entry("serde"));
    assert!(!is_metadata_entry("json"));
    assert!(!is_metadata_entry(""));
}

#[test]
fn wildcard_is_found_anywhere() {
    assert!(has_wildcard(&vec!["a".to_string(), "*".to_string()]));
    assert!(!has_wildcard(&vec!["a*".to_string()]));
    assert!(!has_wildcard(&vec![]));
}

#[test]
fn batch_plans_follow_the_ledger() {
    let ex = default_exclusions();
    let specs = vec![spec("a"), spec("simple"), spec("b"), spec("a")];
    let plans = plan_batch(&specs, &ex, &vec!["b".to_string()], false);
    assert_eq!(
        plans,
        vec![PackagePlan::Fresh, PackagePlan::Excluded, PackagePlan::Skip, PackagePlan::Skip]
    );
}

#[test]
fn batch_rerun_attempts_nothing() {
    let ex = default_exclusions();
    let specs = vec![spec("a"), spec("simple"), spec("b")];
    let first = plan_batch(&specs, &ex, &vec![], false);
    assert_eq!(first, vec![PackagePlan::Fresh, PackagePlan::Excluded, PackagePlan::Fresh]);
    let recorded = vec!["a".to_string(), "b".to_string()];
    let second = plan_batch(&specs, &ex, &recorded, false);
    assert_eq!(second, vec![PackagePlan::Skip, PackagePlan::Excluded, PackagePlan::Skip]);
}

#[test]
fn batch_with_force_redoes_recorded_packages() {
    let ex = default_exclusions();
    let specs = vec![spec("a"), spec("gfx_text"), spec("c"), spec("a")];
    let plans = plan_batch(&specs, &ex, &vec!["a".to_string()], true);
    assert_eq!(
        plans,
        vec![PackagePlan::Redo, PackagePlan::Excluded, PackagePlan::Fresh, PackagePlan::Redo]
    );
}
