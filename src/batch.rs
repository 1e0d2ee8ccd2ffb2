use vstd::prelude::*;
use crate::text::{chars_of, owned, same_text, strings_view, contains_text};
use crate::krate::{KrateName, SpecError, parse_token, token_text, valid_spec, lemma_parse_then_format};

verus! {

/// The options of one batch run.
#[derive(Clone, Copy, Debug, PartialEq, Eq, Structural)]
pub struct BatchConfig {
    pub run_tests: bool,
    pub run_benchmarks: bool,
    pub release_mode: bool,
    pub force: bool,
    pub stop_on_error: bool,
}

/// What the batch does with one package.
#[derive(Clone, Copy, Debug, PartialEq, Eq, Structural)]
pub enum PackagePlan {
    /// On the exclusion list: never resolved or built.
    Excluded,
    /// Already has a log, and reprocessing was not asked for.
    Skip,
    /// No log yet: build it.
    Fresh,
    /// Has a log, and reprocessing was asked for: remove the old output, then build.
    Redo,
}

pub type SpecView = (Seq<char>, Option<Seq<char>>);

pub open spec fn plan_of(name: Seq<char>, excluded: Seq<Seq<char>>, completed: bool, force: bool) -> PackagePlan {
    if excluded.contains(name) {
        PackagePlan::Excluded
    } else if completed {
        if force {
            PackagePlan::Redo
        } else {
            PackagePlan::Skip
        }
    } else {
        PackagePlan::Fresh
    }
}

/// Whether a plan resolves and builds the package.
pub open spec fn attempts(p: PackagePlan) -> bool {
    p == PackagePlan::Fresh || p == PackagePlan::Redo
}

/// A batch over `specs` against a ledger of output names already holding a log:
/// the packages attempted, in order, and the ledger afterwards. `plan_batch`
/// plans each package as this does; the caller carries the plans out in order.
pub open spec fn run_batch(
    specs: Seq<SpecView>,
    excluded: Seq<Seq<char>>,
    ledger: Set<Seq<char>>,
    force: bool,
) -> (Seq<SpecView>, Set<Seq<char>>)
    decreases specs.len(),
{
    if specs.len() == 0 {
        (seq![], ledger)
    } else {
        let prior = run_batch(specs.drop_last(), excluded, ledger, force);
        let k = specs.last();
        if attempts(plan_of(k.0, excluded, prior.1.contains(token_text(k)), force)) {
            (prior.0.push(k), prior.1.insert(token_text(k)))
        } else {
            prior
        }
    }
}

/// Whether `name` is on the exclusion list.
pub fn is_excluded(name: &str, excluded: &Vec<String>) -> (r: bool)
    ensures
        r == strings_view(excluded@).contains(name@),
{
    contains_text(excluded, name)
}

/// Decides what to do with one package, given whether its output already holds
/// a log.
pub fn plan_package(k: &KrateName, excluded: &Vec<String>, completed: bool, force: bool) -> (r:
    PackagePlan)
    ensures
        r == plan_of(k@.0, strings_view(excluded@), completed, force),
{
    if is_excluded(k.name.as_str(), excluded) {
        PackagePlan::Excluded
    } else if completed {
        if force {
            PackagePlan::Redo
        } else {
            PackagePlan::Skip
        }
    } else {
        PackagePlan::Fresh
    }
}

/// Plans a whole batch against the output names that already hold a log: each
/// package is planned as if the packages before it had run, so a package listed
/// twice is built at most once.
pub fn plan_batch(specs: &Vec<KrateName>, excluded: &Vec<String>, recorded: &Vec<String>, force: bool) -> (r:
    Vec<PackagePlan>)
    ensures
        r.len() == specs.len(),
        forall|i: int|
            0 <= i < specs.len() ==> #[trigger] r@[i] == plan_of(
                specs@[i]@.0,
                strings_view(excluded@),
                run_batch(
                    specs_view(specs@).take(i),
                    strings_view(excluded@),
                    strings_view(recorded@).to_set(),
                    force,
                ).1.contains(token_text(specs@[i]@)),
                force,
            ),
{
    let ghost ex = strings_view(excluded@);
    let ghost start = strings_view(recorded@).to_set();
    let ghost all = specs_view(specs@);
    let mut ledger: Vec<String> = Vec::new();
    let mut j: usize = 0;
    while j < recorded.len()
        invariant
            0 <= j <= recorded.len(),
            strings_view(ledger@) == strings_view(recorded@).take(j as int),
        decreases recorded.len() - j,
    {
        let ghost before = strings_view(ledger@);
        let item = owned(recorded[j].as_str());
        ledger.push(item);
        proof {
            assert(strings_view(ledger@) =~= before.push(item@));
            assert(strings_view(recorded@).take(j + 1) =~= strings_view(recorded@).take(
                j as int,
            ).push(recorded@[j as int]@));
        }
        j = j + 1;
    }
    proof {
        assert(strings_view(recorded@).take(j as int) =~= strings_view(recorded@));
        assert(all.take(0) =~= Seq::<SpecView>::empty());
    }
    let mut r: Vec<PackagePlan> = Vec::new();
    let mut i: usize = 0;
    while i < specs.len()
        invariant
            0 <= i <= specs.len(),
            r.len() == i,
            ex == strings_view(excluded@),
            all == specs_view(specs@),
            start == strings_view(recorded@).to_set(),
            strings_view(ledger@).to_set() == run_batch(all.take(i as int), ex, start, force).1,
            forall|k: int|
                0 <= k < i ==> #[trigger] r@[k] == plan_of(
                    specs@[k]@.0,
                    ex,
                    run_batch(all.take(k), ex, start, force).1.contains(token_text(specs@[k]@)),
                    force,
                ),
        decreases specs.len() - i,
    {
        let key = specs[i].to_string();
        let completed = contains_text(&ledger, key.as_str());
        proof {
            assert(strings_view(ledger@).to_set().contains(key@) == strings_view(ledger@).contains(
                key@,
            ));
        }
        let p = plan_package(&specs[i], excluded, completed, force);
        let ghost prior = strings_view(ledger@);
        proof {
            let t = all.take(i + 1);
            assert(t.drop_last() =~= all.take(i as int));
            assert(t.last() == specs@[i as int]@);
        }
        if p == PackagePlan::Fresh || p == PackagePlan::Redo {
            ledger.push(key);
            proof {
                assert(strings_view(ledger@) =~= prior.push(key@));
                prior.lemma_push_to_set_commute(key@);
            }
        }
        r.push(p);
        i = i + 1;
    }
    r
}

/// Whether the batch stops after a package's outcome.
pub fn should_abort(failed: bool, config: &BatchConfig) -> (r: bool)
    ensures
        r == (failed && config.stop_on_error),
{
    failed && config.stop_on_error
}

/// The packages that are known to break the harness.
pub fn default_exclusions() -> (r: Vec<String>)
    ensures
        strings_view(r@) == seq![
            "gfx_text"@,
            "parasailors"@,
            "parasail-sys"@,
            "simple"@,
        ],
{
    let mut r: Vec<String> = Vec::new();
    r.push(owned("gfx_text"));
    r.push(owned("parasailors"));
    r.push(owned("parasail-sys"));
    r.push(owned("simple"));
    proof {
        assert(strings_view(r@) =~= seq!["gfx_text"@, "parasailors"@, "parasail-sys"@, "simple"@]);
    }
    r
}

/// An index entry that names no package: hidden (`.git`, ...) or metadata (`config.json`).
pub open spec fn is_metadata_name(n: Seq<char>) -> bool {
    (n.len() > 0 && n[0] == '.') || (n.len() >= 5 && n.skip(n.len() - 5) == seq![
        '.',
        'j',
        's',
        'o',
        'n',
    ])
}

/// Whether an index entry of this file name names no package.
pub fn is_metadata_entry(file_name: &str) -> (r: bool)
    ensures
        r == is_metadata_name(file_name@),
{
    let cs = chars_of(file_name);
    let n = cs.len();
    if n > 0 && cs[0] == '.' {
        return true;
    }
    if n < 5 {
        return false;
    }
    let r = cs[n - 5] == '.' && cs[n - 4] == 'j' && cs[n - 3] == 's' && cs[n - 2] == 'o' && cs[n
        - 1] == 'n';
    proof {
        let t = file_name@.skip(n - 5);
        if r {
            assert(t =~= seq!['.', 'j', 's', 'o', 'n']);
        } else if t == seq!['.', 'j', 's', 'o', 'n'] {
            assert(t[0] == '.' && t[1] == 'j' && t[2] == 's' && t[3] == 'o' && t[4] == 'n');
        }
    }
    r
}

/// The token that asks for every package of the index.
pub open spec fn wildcard() -> Seq<char> {
    seq!['*']
}

/// Whether the work list asks for every package of the index.
pub fn has_wildcard(tokens: &Vec<String>) -> (r: bool)
    ensures
        r == strings_view(tokens@).contains(wildcard()),
{
    proof {
        reveal_strlit("*");
        assert("*"@ =~= wildcard());
    }
    let mut i: usize = 0;
    while i < tokens.len()
        invariant
            0 <= i <= tokens.len(),
            "*"@ == wildcard(),
            forall|k: int| 0 <= k < i ==> tokens@[k]@ != wildcard(),
        decreases tokens.len() - i,
    {
        if same_text(tokens[i].as_str(), "*") {
            proof {
                assert(strings_view(tokens@)[i as int] == wildcard());
            }
            return true;
        }
        i = i + 1;
    }
    proof {
        if strings_view(tokens@).contains(wildcard()) {
            let k = choose|k: int|
                0 <= k < strings_view(tokens@).len() && strings_view(tokens@)[k] == wildcard();
            assert(tokens@[k]@ == wildcard());
        }
    }
    false
}

pub open spec fn specs_view(v: Seq<KrateName>) -> Seq<SpecView> {
    v.map_values(|k: KrateName| k@)
}

/// The work queue: every index name, without a version, when a token is the
/// wildcard; else each token parsed, or the position and error of the first that
/// does not parse.
pub open spec fn expand_spec(tokens: Seq<Seq<char>>, names: Seq<Seq<char>>) -> Result<
    Seq<SpecView>,
    (int, SpecError),
> {
    if tokens.contains(wildcard()) {
        Ok(names.map_values(|n: Seq<char>| (n, None::<Seq<char>>)))
    } else if exists|i: int| 0 <= i < tokens.len() && parse_token(tokens[i]) is Err {
        let i = choose|i: int|
            0 <= i < tokens.len() && parse_token(tokens[i]) is Err && forall|j: int|
                0 <= j < i ==> parse_token(tokens[j]) is Ok;
        Err((i, parse_token(tokens[i])->Err_0))
    } else {
        Ok(tokens.map_values(|t: Seq<char>| parse_token(t)->Ok_0))
    }
}

/// Builds the work queue from the command-line tokens and, for the wildcard,
/// the package names of the index.
pub fn expand_work(tokens: &Vec<String>, index_names: &Vec<String>) -> (r: Result<
    Vec<KrateName>,
    (usize, SpecError),
>)
    ensures
        match r {
            Ok(v) => expand_spec(strings_view(tokens@), strings_view(index_names@)) == Ok::<
                _,
                (int, SpecError),
            >(specs_view(v@)),
            Err(p) => expand_spec(strings_view(tokens@), strings_view(index_names@)) == Err::<
                Seq<SpecView>,
                _,
            >((p.0 as int, p.1)),
        },
        !strings_view(tokens@).contains(wildcard()) ==> match r {
            Ok(v) => forall|i: int| 0 <= i < v.len() ==> valid_spec(#[trigger] v@[i]@),
            Err(_) => true,
        },
{
    let ghost ts = strings_view(tokens@);
    let ghost ns = strings_view(index_names@);
    let mut out: Vec<KrateName> = Vec::new();
    if has_wildcard(tokens) {
        let mut i: usize = 0;
        while i < index_names.len()
            invariant
                0 <= i <= index_names.len(),
                ns == strings_view(index_names@),
                specs_view(out@) == ns.take(i as int).map_values(
                    |n: Seq<char>| (n, None::<Seq<char>>),
                ),
            decreases index_names.len() - i,
        {
            let k = KrateName { name: owned(index_names[i].as_str()), version: None };
            let ghost kv = k@;
            let ghost old_v = specs_view(out@);
            out.push(k);
            proof {
                assert(specs_view(out@) =~= old_v.push(kv));
                assert(specs_view(out@) =~= ns.take(i + 1).map_values(
                    |n: Seq<char>| (n, None::<Seq<char>>),
                ));
            }
            i = i + 1;
        }
        proof {
            assert(ns.take(i as int) =~= ns);
        }
        return Ok(out);
    }
    let mut i: usize = 0;
    while i < tokens.len()
        invariant
            0 <= i <= tokens.len(),
            ts == strings_view(tokens@),
            !ts.contains(wildcard()),
            forall|j: int| 0 <= j < i ==> parse_token(ts[j]) is Ok,
            specs_view(out@) == ts.take(i as int).map_values(|t: Seq<char>| parse_token(t)->Ok_0),
        decreases tokens.len() - i,
    {
        match KrateName::parse(tokens[i].as_str()) {
            Ok(k) => {
                let ghost kv = k@;
                let ghost old_v = specs_view(out@);
                out.push(k);
                proof {
                    assert(specs_view(out@) =~= old_v.push(kv));
                    assert(specs_view(out@) =~= ts.take(i + 1).map_values(
                        |t: Seq<char>| parse_token(t)->Ok_0,
                    ));
                }
            },
            Err(e) => {
                proof {
                    assert(parse_token(ts[i as int]) is Err);
                    let c = choose|c: int|
                        0 <= c < ts.len() && parse_token(ts[c]) is Err && forall|j: int|
                            0 <= j < c ==> parse_token(ts[j]) is Ok;
                    assert(c == i as int) by {
                        if c < i {
                        } else if c > i {
                        }
                    }
                }
                return Err((i, e));
            },
        }
        i = i + 1;
    }
    proof {
        assert(ts.take(i as int) =~= ts);
        assert forall|j: int| 0 <= j < out.len() implies valid_spec(#[trigger] out@[j]@) by {
            assert(specs_view(out@)[j] == parse_token(ts[j])->Ok_0);
            lemma_parse_then_format(ts[j]);
        }
    }
    Ok(out)
}

/// A batch only adds to the ledger.
pub proof fn lemma_ledger_grows(
    specs: Seq<SpecView>,
    excluded: Seq<Seq<char>>,
    ledger: Set<Seq<char>>,
    force: bool,
)
    ensures
        ledger.subset_of(run_batch(specs, excluded, ledger, force).1),
    decreases specs.len(),
{
    if specs.len() > 0 {
        lemma_ledger_grows(specs.drop_last(), excluded, ledger, force);
    }
}

/// After a batch, every package of it that is not excluded has a log.
pub proof fn lemma_batch_records(
    specs: Seq<SpecView>,
    excluded: Seq<Seq<char>>,
    ledger: Set<Seq<char>>,
    force: bool,
)
    ensures
        forall|i: int|
            0 <= i < specs.len() && !excluded.contains(specs[i].0) ==> run_batch(
                specs,
                excluded,
                ledger,
                force,
            ).1.contains(token_text(#[trigger] specs[i])),
    decreases specs.len(),
{
    if specs.len() > 0 {
        let front = specs.drop_last();
        lemma_batch_records(front, excluded, ledger, force);
        let after = run_batch(specs, excluded, ledger, force).1;
        let prior = run_batch(front, excluded, ledger, force).1;
        assert(prior.subset_of(after));
        assert forall|i: int|
            0 <= i < specs.len() && !excluded.contains(specs[i].0) implies after.contains(
            token_text(#[trigger] specs[i]),
        ) by {
            if i < specs.len() - 1 {
                assert(specs[i] == front[i]);
            }
        }
    }
}

/// With every package that is not excluded already holding a log, a batch
/// without `force` attempts nothing and leaves the ledger as it is.
pub proof fn lemma_all_recorded_skips(
    specs: Seq<SpecView>,
    excluded: Seq<Seq<char>>,
    ledger: Set<Seq<char>>,
)
    requires
        forall|i: int|
            0 <= i < specs.len() && !excluded.contains(specs[i].0) ==> ledger.contains(
                token_text(#[trigger] specs[i]),
            ),
    ensures
        run_batch(specs, excluded, ledger, false) == (Seq::<SpecView>::empty(), ledger),
    decreases specs.len(),
{
    if specs.len() > 0 {
        let front = specs.drop_last();
        assert forall|i: int|
            0 <= i < front.len() && !excluded.contains(front[i].0) implies ledger.contains(
            token_text(#[trigger] front[i]),
        ) by {
            assert(front[i] == specs[i]);
        }
        lemma_all_recorded_skips(front, excluded, ledger);
        assert(specs.last() == specs[specs.len() - 1]);
    }
}

/// Running the same batch twice over one ledger, the second run without
/// `force`: the second run attempts no package and changes no log.
pub proof fn lemma_rerun_is_idempotent(
    specs: Seq<SpecView>,
    excluded: Seq<Seq<char>>,
    ledger: Set<Seq<char>>,
    force: bool,
)
    ensures
        ({
            let first = run_batch(specs, excluded, ledger, force);
            run_batch(specs, excluded, first.1, false) == (Seq::<SpecView>::empty(), first.1)
        }),
{
    lemma_batch_records(specs, excluded, ledger, force);
    lemma_all_recorded_skips(specs, excluded, run_batch(specs, excluded, ledger, force).1);
}

/// With `force`, a package that already has a log and is not excluded is
/// reprocessed: its prior output is removed and it is built again.
pub proof fn lemma_force_redoes(name: Seq<char>, excluded: Seq<Seq<char>>)
    requires
        !excluded.contains(name),
    ensures
        plan_of(name, excluded, true, true) == PackagePlan::Redo,
{
}

pub open spec fn not_excluded(excluded: Seq<Seq<char>>) -> spec_fn(SpecView) -> bool {
    |k: SpecView| !excluded.contains(k.0)
}

/// With `force`, a batch attempts every package that is not excluded, in order,
/// whatever the ledger holds.
pub proof fn lemma_force_attempts_all(
    specs: Seq<SpecView>,
    excluded: Seq<Seq<char>>,
    ledger: Set<Seq<char>>,
)
    ensures
        run_batch(specs, excluded, ledger, true).0 == specs.filter(not_excluded(excluded)),
    decreases specs.len(),
{
    reveal(Seq::filter);
    if specs.len() > 0 {
        lemma_force_attempts_all(specs.drop_last(), excluded, ledger);
    }
}

/// No package on the exclusion list is ever attempted, even when the work list
/// names it.
pub proof fn lemma_excluded_never_attempted(
    specs: Seq<SpecView>,
    excluded: Seq<Seq<char>>,
    ledger: Set<Seq<char>>,
    force: bool,
)
    ensures
        forall|i: int|
            0 <= i < run_batch(specs, excluded, ledger, force).0.len() ==> !excluded.contains(
                (#[trigger] run_batch(specs, excluded, ledger, force).0[i]).0,
            ),
    decreases specs.len(),
{
    if specs.len() > 0 {
        lemma_excluded_never_attempted(specs.drop_last(), excluded, ledger, force);
        let prior = run_batch(specs.drop_last(), excluded, ledger, force).0;
        let now = run_batch(specs, excluded, ledger, force).0;
        assert forall|i: int| 0 <= i < now.len() implies !excluded.contains((#[trigger] now[i]).0) by {
            if i < prior.len() {
                assert(now[i] == prior[i]);
            }
        }
    }
}

} // verus!
