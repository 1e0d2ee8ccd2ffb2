use vstd::prelude::*;
use crate::text::owned;
use crate::krate::{KrateName, token_text};
use crate::batch::BatchConfig;

verus! {

/// One invocation of the builder on a package.
#[derive(Clone, Copy, Debug, PartialEq, Eq, Structural)]
pub enum Phase {
    /// The library target, with per-pass timing switched on.
    Compile,
    Test,
    Bench,
}

/// How one phase ended. The text is the elapsed time for a passed test or
/// bench phase, and the builder's report otherwise.
#[derive(Clone, Debug)]
pub enum PhaseOutcome {
    Passed(String),
    /// The package under test failed.
    Failed(String),
    /// The builder itself failed.
    ToolingError(String),
}

/// The phases that a configuration runs, in order: the compile always, then the
/// tests and the benchmarks when asked for.
pub open spec fn phases_of(c: BatchConfig) -> Seq<Phase> {
    seq![Phase::Compile] + (if c.run_tests {
        seq![Phase::Test]
    } else {
        seq![]
    }) + (if c.run_benchmarks {
        seq![Phase::Bench]
    } else {
        seq![]
    })
}

/// The phases to run for each package.
pub fn phases(config: &BatchConfig) -> (r: Vec<Phase>)
    ensures
        r@ == phases_of(*config),
{
    let mut r: Vec<Phase> = Vec::new();
    r.push(Phase::Compile);
    if config.run_tests {
        r.push(Phase::Test);
    }
    if config.run_benchmarks {
        r.push(Phase::Bench);
    }
    proof {
        assert(r@ =~= phases_of(*config));
    }
    r
}

pub open spec fn phase_word(p: Phase) -> Seq<char> {
    match p {
        Phase::Compile => "compile"@,
        Phase::Test => "tests"@,
        Phase::Bench => "benches"@,
    }
}

/// The line that reports how a phase ended for package `pkg`.
pub open spec fn notice_text(p: Phase, pkg: Seq<char>, o: PhaseOutcome) -> Seq<char> {
    match o {
        PhaseOutcome::Passed(d) => "> "@ + phase_word(p) + " passed for `"@ + pkg + "`"@ + (if p
            == Phase::Compile {
            Seq::<char>::empty()
        } else {
            ": "@ + d@
        }),
        PhaseOutcome::Failed(d) => "> "@ + phase_word(p) + " failed for `"@ + pkg + "`: "@ + d@,
        PhaseOutcome::ToolingError(d) => "> cargo error for `"@ + pkg + "`: "@ + d@,
    }
}

fn word(p: Phase) -> (r: &'static str)
    ensures
        r@ == phase_word(p),
{
    match p {
        Phase::Compile => "compile",
        Phase::Test => "tests",
        Phase::Bench => "benches",
    }
}

/// Reports how a phase ended for package `pkg`.
pub fn phase_notice(p: Phase, pkg: &str, o: &PhaseOutcome) -> (r: String)
    ensures
        r@ == notice_text(p, pkg@, *o),
{
    proof {
        reveal_strlit("> ");
        reveal_strlit(" passed for `");
        reveal_strlit(" failed for `");
        reveal_strlit("> cargo error for `");
        reveal_strlit("`");
        reveal_strlit("`: ");
        reveal_strlit(": ");
    }
    match o {
        PhaseOutcome::Passed(d) => {
            let mut r = owned("> ");
            r.append(word(p));
            r.append(" passed for `");
            r.append(pkg);
            r.append("`");
            match p {
                Phase::Compile => {},
                _ => {
                    r.append(": ");
                    r.append(d.as_str());
                },
            }
            proof {
                assert(r@ =~= notice_text(p, pkg@, *o));
            }
            r
        },
        PhaseOutcome::Failed(d) => {
            let mut r = owned("> ");
            r.append(word(p));
            r.append(" failed for `");
            r.append(pkg);
            r.append("`: ");
            r.append(d.as_str());
            r
        },
        PhaseOutcome::ToolingError(d) => {
            let mut r = owned("> cargo error for `");
            r.append(pkg);
            r.append("`: ");
            r.append(d.as_str());
            r
        },
    }
}

/// The line for a package that is left alone because it already has a log.
pub fn skip_notice(k: &KrateName) -> (r: String)
    ensures
        r@ == token_text(k@) + ": skipping"@,
{
    proof {
        reveal_strlit(": skipping");
    }
    let mut r = k.to_string();
    r.append(": skipping");
    r
}

/// The line for a package whose prior output is about to be removed.
pub fn removal_notice(k: &KrateName) -> (r: String)
    ensures
        r@ == token_text(k@) + ": removing prior results"@,
{
    proof {
        reveal_strlit(": removing prior results");
    }
    let mut r = k.to_string();
    r.append(": removing prior results");
    r
}

/// The line for a package about to be built, with the directory of its output.
pub fn build_notice(k: &KrateName, out_dir: &str) -> (r: String)
    ensures
        r@ == token_text(k@) + ": building and storing results in "@ + out_dir@,
{
    proof {
        reveal_strlit(": building and storing results in ");
    }
    let mut r = k.to_string();
    r.append(": building and storing results in ");
    r.append(out_dir);
    r
}

/// The line for a package that failed, with the cause.
pub fn failure_notice(k: &KrateName, cause: &str) -> (r: String)
    ensures
        r@ == token_text(k@) + ": failed because of `"@ + cause@ + "`"@,
{
    proof {
        reveal_strlit(": failed because of `");
        reveal_strlit("`");
    }
    let mut r = k.to_string();
    r.append(": failed because of `");
    r.append(cause);
    r.append("`");
    r
}

} // verus!
