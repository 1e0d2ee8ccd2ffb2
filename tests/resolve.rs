use time_cargo::builder::{
    build_notice, failure_notice, phase_notice, phases, removal_notice, skip_notice, Phase,
    PhaseOutcome,
};
use time_cargo::batch::BatchConfig;
use time_cargo::krate::KrateName;
use time_cargo::resolve::{choose_version, select_candidate, Candidate, ResolveError};

fn cand(v: &str, major: u64, minor: u64, patch: u64, pre: bool) -> Candidate {
    Candidate { version: v.to_string(), major, minor, patch, pre_release: pre }
}

fn offered() -> Vec<Candidate> {
    vec![
        cand("0.9.0", 0, 9, 0, false),
        cand("1.2.0", 1, 2, 0, false),
        cand("2.0.0-alpha", 2, 0, 0, true),
        cand("1.10.1", 1, 10, 1, false),
        cand("1.3.5", 1, 3, 5, false),
    ]
}

#[test]
fn latest_release_is_chosen() {
    assert_eq!(select_candidate(&offered(), &None), Some(3));
}

#[test]
fn exact_version_is_chosen() {
    assert_eq!(select_candidate(&offered(), &Some("1.2.0".to_string())), Some(1));
    assert_eq!(select_candidate(&offered(), &Some("2.0.0-alpha".to_string())), Some(2));
}

#[test]
fn unknown_version_is_not_found() {
    let k = KrateName { name: "foo".to_string(), version: Some("3.0.0".to_string()) };
    match choose_version(&k, &offered()) {
        Err(e) => {
            assert_eq!(e.message(), "crate `foo=3.0.0` not in registry");
            assert_eq!(e.description(), "not in registry");
            assert!(e.cause().is_none());
        }
        Ok(_) => panic!("expected an error"),
    }
}

#[test]
fn no_versions_is_not_found() {
    assert_eq!(select_candidate(&vec![], &None), None);
    assert_eq!(select_candidate(&vec![cand("1.0.0-rc1", 1, 0, 0, true)], &None), None);
}

#[test]
fn equal_versions_keep_the_first() {
    let v = vec![cand("1.0.0", 1, 0, 0, false), cand("1.0.0", 1, 0, 0, false)];
    assert_eq!(select_candidate(&v, &None), Some(0));
}

#[test]
fn download_failure_message() {
    let k = KrateName { name: "bar".to_string(), version: None };
    let e = ResolveError::FailedToDownload(k, "checksum mismatch".to_string());
    assert_eq!(e.message(), "crate `bar` failed to download: checksum mismatch");
    assert_eq!(e.description(), "failed to download");
    assert_eq!(e.cause(), Some(&"checksum mismatch".to_string()));
}

#[test]
fn phases_follow_the_configuration() {
    let mut c = BatchConfig {
        run_tests: false,
        run_benchmarks: false,
        release_mode: true,
        force: false,
        stop_on_error: false,
    };
    assert_eq!(phases(&c), vec![Phase::Compile]);
    c.run_tests = true;
    c.run_benchmarks = true;
    assert_eq!(phases(&c), vec![Phase::Compile, Phase::Test, Phase::Bench]);
    c.run_tests = false;
    assert_eq!(phases(&c), vec![Phase::Compile, Phase::Bench]);
}

#[test]
fn phase_notices() {
    let ok = PhaseOutcome::Passed("1.5s".to_string());
    assert_eq!(phase_notice(Phase::Compile, "a-1.0", &ok), "> compile passed for `a-1.0`");
    assert_eq!(phase_notice(Phase::Test, "a-1.0", &ok), "> tests passed for `a-1.0`: 1.5s");
    let bad = PhaseOutcome::Failed("2 failed".to_string());
    assert_eq!(phase_notice(Phase::Bench, "a-1.0", &bad), "> benches failed for `a-1.0`: 2 failed");
    let tool = PhaseOutcome::ToolingError("no manifest".to_string());
    assert_eq!(phase_notice(Phase::Test, "a-1.0", &tool), "> cargo error for `a-1.0`: no manifest");
}

#[test]
fn batch_notices() {
    let k = KrateName { name: "foo".to_string(), version: Some("0.1".to_string()) };
    assert_eq!(skip_notice(&k), "foo=0.1: skipping");
    assert_eq!(removal_notice(&k), "foo=0.1: removing prior results");
    assert_eq!(build_notice(&k, "out/output/foo=0.1"), "foo=0.1: building and storing results in out/output/foo=0.1");
    assert_eq!(failure_notice(&k, "boom"), "foo=0.1: failed because of `boom`");
}
