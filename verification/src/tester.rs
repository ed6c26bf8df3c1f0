//! The bookkeeping core of a table-driven test harness.
//!
//! A [`Tester`] registers named tests, runs them over inputs handed to it,
//! and keeps per-test results keyed by the test's name. The bodies of the
//! tests themselves — parsing an input into a case and exercising it — are
//! supplied through the [`TestSuite`] capability, so the harness logic here
//! is independent of how a test decides; [`ScriptedSuite`] is a
//! deterministic, table-driven implementation of that capability. An input
//! that no test accepts may still be a batch: a file that expands into a
//! sequence of named scenarios, each run like a directly supplied one.

use vstd::prelude::*;
use vstd::string::StringExecFns;

use crate::strutil::str_eq;

verus! {

/// How running one test over one input went.
#[derive(Clone, Debug)]
pub enum TestResult {
    /// The input file could not be read.
    ReadError,
    /// The input could not be parsed as a case for this test.
    ParseError,
    /// The test ran and passed.
    Success,
    /// The test ran and failed, with the reported message and location.
    Failure { message: String, location: String },
}

/// The mathematical value of a [`TestResult`].
pub enum TestResultView {
    ReadError,
    ParseError,
    Success,
    Failure { message: Seq<char>, location: Seq<char> },
}

impl View for TestResult {
    type V = TestResultView;

    open spec fn view(&self) -> TestResultView {
        match self {
            TestResult::ReadError => TestResultView::ReadError,
            TestResult::ParseError => TestResultView::ParseError,
            TestResult::Success => TestResultView::Success,
            TestResult::Failure { message, location } => TestResultView::Failure {
                message: message@,
                location: location@,
            },
        }
    }
}

impl TestResult {
    pub fn is_success(&self) -> (r: bool)
        ensures
            r == (self@ is Success),
    {
        matches!(self, TestResult::Success)
    }

    pub fn is_failure(&self) -> (r: bool)
        ensures
            r == (self@ is Failure),
    {
        matches!(self, TestResult::Failure { message: _, location: _ })
    }

    pub fn is_readerror(&self) -> (r: bool)
        ensures
            r == (self@ is ReadError),
    {
        matches!(self, TestResult::ReadError)
    }

    pub fn is_parseerror(&self) -> (r: bool)
        ensures
            r == (self@ is ParseError),
    {
        matches!(self, TestResult::ParseError)
    }
}

/// A duplicate of a result, equal in value.
pub fn copy_result(result: &TestResult) -> (r: TestResult)
    ensures
        r@ == result@,
{
    match result {
        TestResult::ReadError => TestResult::ReadError,
        TestResult::ParseError => TestResult::ParseError,
        TestResult::Success => TestResult::Success,
        TestResult::Failure { message, location } => TestResult::Failure {
            message: message.clone(),
            location: location.clone(),
        },
    }
}

/// A registered test. Its name keys the results; its body is supplied by the
/// [`TestSuite`] the harness runs with, at this test's registration index.
pub struct Test {
    pub name: String,
}

/// The views of a sequence of string pairs.
pub open spec fn string_pairs_view(pairs: Seq<(String, String)>) -> Seq<(Seq<char>, Seq<char>)> {
    pairs.map_values(|pair: (String, String)| (pair.0@, pair.1@))
}

/// The test bodies a harness runs with: what test `index` decides on an
/// input, and how an input expands when it is a batch of named scenarios
/// rather than a single case.
pub trait TestSuite {
    /// What test `index` decides on `input` at `path`; `ParseError` when the
    /// input is no case for it.
    spec fn test_outcome(&self, index: int, path: Seq<char>, input: Seq<char>) -> TestResultView;

    /// The named scenarios `input` at `path` expands to, when it parses as a
    /// batch.
    spec fn batch_expansion(&self, path: Seq<char>, input: Seq<char>) -> Option<
        Seq<(Seq<char>, Seq<char>)>,
    >;

    /// Run test `index` on `input` at `path`.
    fn run_test(&self, index: usize, path: &str, input: &str) -> (r: TestResult)
        ensures
            r@ == self.test_outcome(index as int, path@, input@),
    ;

    /// Expand `input` at `path` as a batch of named scenarios.
    fn expand_batch(&self, path: &str, input: &str) -> (r: Option<Vec<(String, String)>>)
        ensures
            (match r {
                None => self.batch_expansion(path@, input@) is None,
                Some(items) => self.batch_expansion(path@, input@) matches Some(expanded)
                    && string_pairs_view(items@) == expanded,
            }),
    ;
}

/// One scripted test: the outcome to report for each known input.
pub struct ScriptedTest {
    outcomes: Vec<(String, TestResult)>,
}

/// The views of one scripted test's outcome table.
pub open spec fn outcome_entries_view(entries: Seq<(String, TestResult)>) -> Seq<
    (Seq<char>, TestResultView),
> {
    entries.map_values(|pair: (String, TestResult)| (pair.0@, pair.1@))
}

impl View for ScriptedTest {
    type V = Seq<(Seq<char>, TestResultView)>;

    closed spec fn view(&self) -> Seq<(Seq<char>, TestResultView)> {
        outcome_entries_view(self.outcomes@)
    }
}

/// The first scripted outcome for `input`; `ParseError` without one.
pub open spec fn outcome_lookup(
    entries: Seq<(Seq<char>, TestResultView)>,
    input: Seq<char>,
) -> TestResultView
    decreases entries.len(),
{
    if entries.len() == 0 {
        TestResultView::ParseError
    } else if entries[0].0 == input {
        entries[0].1
    } else {
        outcome_lookup(entries.drop_first(), input)
    }
}

/// The first scripted expansion for `input`; none without one.
pub open spec fn batch_lookup(
    batches: Seq<(Seq<char>, Seq<(Seq<char>, Seq<char>)>)>,
    input: Seq<char>,
) -> Option<Seq<(Seq<char>, Seq<char>)>>
    decreases batches.len(),
{
    if batches.len() == 0 {
        None
    } else if batches[0].0 == input {
        Some(batches[0].1)
    } else {
        batch_lookup(batches.drop_first(), input)
    }
}

/// A deterministic, table-driven [`TestSuite`]: each registered test reports
/// scripted outcomes keyed by the input text, and scripted batches expand
/// likewise.
pub struct ScriptedSuite {
    tests: Vec<ScriptedTest>,
    batches: Vec<(String, Vec<(String, String)>)>,
}

impl ScriptedSuite {
    /// The outcome tables of the scripted tests, in registration order.
    pub closed spec fn tests_view(&self) -> Seq<Seq<(Seq<char>, TestResultView)>> {
        self.tests@.map_values(|test: ScriptedTest| test@)
    }

    /// The scripted batch expansions.
    pub closed spec fn batches_view(&self) -> Seq<(Seq<char>, Seq<(Seq<char>, Seq<char>)>)> {
        self.batches@.map_values(
            |batch: (String, Vec<(String, String)>)| (batch.0@, string_pairs_view(batch.1@)),
        )
    }

    /// A suite with no scripted tests and no scripted batches.
    pub fn new() -> (suite: ScriptedSuite)
        ensures
            suite.tests_view() == Seq::<Seq<(Seq<char>, TestResultView)>>::empty(),
            suite.batches_view() == Seq::<(Seq<char>, Seq<(Seq<char>, Seq<char>)>)>::empty(),
    {
        let suite = ScriptedSuite { tests: Vec::new(), batches: Vec::new() };
        proof {
            assert(suite.tests_view() =~= Seq::<Seq<(Seq<char>, TestResultView)>>::empty());
            assert(suite.batches_view() =~= Seq::<
                (Seq<char>, Seq<(Seq<char>, Seq<char>)>),
            >::empty());
        }
        suite
    }

    /// Register the next scripted test, with an empty outcome table.
    pub fn add_test(&mut self)
        ensures
            final(self).tests_view() == old(self).tests_view().push(
                Seq::<(Seq<char>, TestResultView)>::empty(),
            ),
            final(self).batches_view() == old(self).batches_view(),
    {
        self.tests.push(ScriptedTest { outcomes: Vec::new() });
        proof {
            assert(outcome_entries_view(Seq::<(String, TestResult)>::empty()) =~= Seq::<
                (Seq<char>, TestResultView),
            >::empty());
            assert(final(self).tests_view() =~= old(self).tests_view().push(
                Seq::<(Seq<char>, TestResultView)>::empty(),
            ));
            assert(final(self).batches_view() =~= old(self).batches_view());
        }
    }

    /// Script test `index` to report `outcome` on `input`.
    pub fn on_input(&mut self, index: usize, input: &str, outcome: TestResult)
        requires
            index < old(self).tests_view().len(),
        ensures
            final(self).tests_view() == old(self).tests_view().update(
                index as int,
                old(self).tests_view()[index as int].push((input@, outcome@)),
            ),
            final(self).batches_view() == old(self).batches_view(),
    {
        let ghost entry_view = outcome@;
        let mut test = self.tests.remove(index);
        test.outcomes.push((String::from_str(input), outcome));
        proof {
            assert(test@ =~= old(self).tests_view()[index as int].push((input@, entry_view)));
        }
        self.tests.insert(index, test);
        proof {
            assert(final(self).tests_view() =~= old(self).tests_view().update(
                index as int,
                old(self).tests_view()[index as int].push((input@, entry_view)),
            ));
            assert(final(self).batches_view() =~= old(self).batches_view());
        }
    }

    /// Script `input` to expand as a batch into `items`.
    pub fn on_batch(&mut self, input: &str, items: Vec<(String, String)>)
        ensures
            final(self).batches_view() == old(self).batches_view().push(
                (input@, string_pairs_view(items@)),
            ),
            final(self).tests_view() == old(self).tests_view(),
    {
        let ghost items_view = string_pairs_view(items@);
        self.batches.push((String::from_str(input), items));
        proof {
            assert(final(self).batches_view() =~= old(self).batches_view().push(
                (input@, items_view),
            ));
            assert(final(self).tests_view() =~= old(self).tests_view());
        }
    }
}

impl TestSuite for ScriptedSuite {
    open spec fn test_outcome(&self, index: int, path: Seq<char>, input: Seq<char>)
        -> TestResultView {
        if 0 <= index < self.tests_view().len() {
            outcome_lookup(self.tests_view()[index], input)
        } else {
            TestResultView::ParseError
        }
    }

    open spec fn batch_expansion(&self, path: Seq<char>, input: Seq<char>) -> Option<
        Seq<(Seq<char>, Seq<char>)>,
    > {
        batch_lookup(self.batches_view(), input)
    }

    fn run_test(&self, index: usize, path: &str, input: &str) -> (r: TestResult) {
        if index >= self.tests.len() {
            return TestResult::ParseError;
        }
        let test = &self.tests[index];
        let ghost entries = self.tests_view()[index as int];
        let n = test.outcomes.len();
        let mut i: usize = 0;
        proof {
            assert(entries.subrange(0, n as int) =~= entries);
        }
        while i < n
            invariant
                i <= n,
                n == test.outcomes.len(),
                index < self.tests_view().len(),
                entries == self.tests_view()[index as int],
                entries == outcome_entries_view(test.outcomes@),
                outcome_lookup(entries, input@) == outcome_lookup(
                    entries.subrange(i as int, n as int),
                    input@,
                ),
            decreases n - i,
        {
            let pair = &test.outcomes[i];
            proof {
                assert(entries.subrange(i as int, n as int)[0] == entries[i as int]);
                assert(entries.subrange(i as int, n as int).drop_first() =~= entries.subrange(
                    i as int + 1,
                    n as int,
                ));
            }
            if str_eq(pair.0.as_str(), input) {
                return copy_result(&pair.1);
            }
            i = i + 1;
        }
        proof {
            assert(entries.subrange(n as int, n as int) =~= Seq::<
                (Seq<char>, TestResultView),
            >::empty());
        }
        TestResult::ParseError
    }

    fn expand_batch(&self, path: &str, input: &str) -> (r: Option<Vec<(String, String)>>) {
        let n = self.batches.len();
        let mut i: usize = 0;
        proof {
            assert(self.batches_view().subrange(0, n as int) =~= self.batches_view());
        }
        while i < n
            invariant
                i <= n,
                n == self.batches.len(),
                batch_lookup(self.batches_view(), input@) == batch_lookup(
                    self.batches_view().subrange(i as int, n as int),
                    input@,
                ),
            decreases n - i,
        {
            let batch = &self.batches[i];
            proof {
                assert(self.batches_view().subrange(i as int, n as int)[0]
                    == self.batches_view()[i as int]);
                assert(self.batches_view().subrange(i as int, n as int).drop_first()
                    =~= self.batches_view().subrange(i as int + 1, n as int));
            }
            if str_eq(batch.0.as_str(), input) {
                let m = batch.1.len();
                let mut items: Vec<(String, String)> = Vec::new();
                let mut j: usize = 0;
                while j < m
                    invariant
                        j <= m,
                        m == batch.1.len(),
                        batch == &self.batches@[i as int],
                        i < self.batches@.len(),
                        string_pairs_view(items@) == string_pairs_view(batch.1@.take(j as int)),
                    decreases m - j,
                {
                    let pair = &batch.1[j];
                    let name_copy = pair.0.clone();
                    let input_copy = pair.1.clone();
                    let ghost prev_items = items@;
                    items.push((name_copy, input_copy));
                    proof {
                        let new_view = string_pairs_view(items@);
                        let expected = string_pairs_view(batch.1@.take(j as int + 1));
                        assert(string_pairs_view(prev_items).len() == prev_items.len());
                        assert(prev_items.len() == j as int);
                        assert(items@ == prev_items.push((name_copy, input_copy)));
                        assert(new_view.len() == j as int + 1);
                        assert(expected.len() == j as int + 1);
                        assert forall|k: int| 0 <= k < new_view.len() implies new_view[k]
                            == expected[k] by {
                            if k < j as int {
                                assert(items@[k] == prev_items[k]);
                                assert(string_pairs_view(prev_items)[k] == string_pairs_view(
                                    batch.1@.take(j as int),
                                )[k]);
                            } else {
                                assert(items@[k] == (name_copy, input_copy));
                                assert(batch.1@.take(j as int + 1)[k] == batch.1@[j as int]);
                            }
                        }
                        assert(new_view =~= expected);
                    }
                    j = j + 1;
                }
                proof {
                    assert(batch.1@.take(m as int) =~= batch.1@);
                    assert(string_pairs_view(items@) == self.batches_view()[i as int].1);
                }
                return Some(items);
            }
            i = i + 1;
        }
        proof {
            assert(self.batches_view().subrange(n as int, n as int) =~= Seq::<
                (Seq<char>, Seq<(Seq<char>, Seq<char>)>),
            >::empty());
        }
        None
    }
}

/// The recorded results of one test: `(path, outcome)` in recording order.
pub type ResultEntries = Seq<(Seq<char>, TestResultView)>;

/// All recorded results, keyed by test name in first-recording order.
pub type ResultsView = Seq<(Seq<char>, ResultEntries)>;

/// The view of one raw result entry table.
pub open spec fn entries_view(entries: Seq<(String, TestResult)>) -> ResultEntries {
    entries.map_values(|pair: (String, TestResult)| (pair.0@, pair.1@))
}

/// The view of the raw results store.
pub open spec fn results_seq_view(results: Seq<(String, Vec<(String, TestResult)>)>) -> ResultsView {
    results.map_values(
        |entry: (String, Vec<(String, TestResult)>)| (entry.0@, entries_view(entry.1@)),
    )
}

/// The views of a sequence of strings.
pub open spec fn strings_view(strings: Seq<String>) -> Seq<Seq<char>> {
    strings.map_values(|s: String| s@)
}

/// The views of a sequence of string triples.
pub open spec fn triples_view(triples: Seq<(String, String, String)>) -> Seq<
    (Seq<char>, Seq<char>, Seq<char>),
> {
    triples.map_values(|t: (String, String, String)| (t.0@, t.1@, t.2@))
}

/// Record `(path, outcome)` under `name`: appended to the existing entry for
/// `name`, or opening a new entry at the end.
pub open spec fn record_result(
    results: ResultsView,
    name: Seq<char>,
    path: Seq<char>,
    outcome: TestResultView,
) -> ResultsView
    decreases results.len(),
{
    if results.len() == 0 {
        seq![(name, seq![(path, outcome)])]
    } else if results[0].0 == name {
        seq![(results[0].0, results[0].1.push((path, outcome)))] + results.drop_first()
    } else {
        seq![results[0]] + record_result(results.drop_first(), name, path, outcome)
    }
}

/// The entries recorded under `name`; empty without an entry for it.
pub open spec fn results_for_name(results: ResultsView, name: Seq<char>) -> ResultEntries
    decreases results.len(),
{
    if results.len() == 0 {
        Seq::<(Seq<char>, TestResultView)>::empty()
    } else if results[0].0 == name {
        results[0].1
    } else {
        results_for_name(results.drop_first(), name)
    }
}

/// Recording under a present key updates that entry in place.
proof fn lemma_record_result_at(
    results: ResultsView,
    name: Seq<char>,
    path: Seq<char>,
    outcome: TestResultView,
    index: int,
)
    requires
        0 <= index < results.len(),
        results[index].0 == name,
        forall|j: int| 0 <= j < index ==> (#[trigger] results[j]).0 != name,
    ensures
        record_result(results, name, path, outcome) == results.update(
            index,
            (name, results[index].1.push((path, outcome))),
        ),
    decreases index,
{
    if index == 0 {
        assert(seq![(results[0].0, results[0].1.push((path, outcome)))]
            + results.drop_first() =~= results.update(
            0,
            (name, results[0].1.push((path, outcome))),
        ));
    } else {
        assert forall|j: int|
            0 <= j < index - 1 implies (#[trigger] results.drop_first()[j]).0 != name by {
            assert(results.drop_first()[j] == results[j + 1]);
        }
        assert(results.drop_first()[index - 1] == results[index]);
        lemma_record_result_at(results.drop_first(), name, path, outcome, index - 1);
        assert(seq![results[0]] + results.drop_first().update(
            index - 1,
            (name, results[index].1.push((path, outcome))),
        ) =~= results.update(index, (name, results[index].1.push((path, outcome)))));
    }
}

/// Recording under an absent key opens a new entry at the end.
proof fn lemma_record_result_new(
    results: ResultsView,
    name: Seq<char>,
    path: Seq<char>,
    outcome: TestResultView,
)
    requires
        forall|j: int| 0 <= j < results.len() ==> (#[trigger] results[j]).0 != name,
    ensures
        record_result(results, name, path, outcome) == results.push((name, seq![(path, outcome)])),
    decreases results.len(),
{
    if results.len() == 0 {
        assert(record_result(results, name, path, outcome) =~= results.push(
            (name, seq![(path, outcome)]),
        ));
    } else {
        assert forall|j: int|
            0 <= j < results.drop_first().len() implies (
        #[trigger] results.drop_first()[j]).0 != name by {
            assert(results.drop_first()[j] == results[j + 1]);
        }
        lemma_record_result_new(results.drop_first(), name, path, outcome);
        assert(seq![results[0]] + results.drop_first().push((name, seq![(path, outcome)]))
            =~= results.push((name, seq![(path, outcome)])));
    }
}

/// Looking a present key up yields its entry.
proof fn lemma_results_for_name_at(results: ResultsView, name: Seq<char>, index: int)
    requires
        0 <= index < results.len(),
        results[index].0 == name,
        forall|j: int| 0 <= j < index ==> (#[trigger] results[j]).0 != name,
    ensures
        results_for_name(results, name) == results[index].1,
    decreases index,
{
    if index > 0 {
        assert forall|j: int|
            0 <= j < index - 1 implies (#[trigger] results.drop_first()[j]).0 != name by {
            assert(results.drop_first()[j] == results[j + 1]);
        }
        assert(results.drop_first()[index - 1] == results[index]);
        lemma_results_for_name_at(results.drop_first(), name, index - 1);
    }
}

/// Looking an absent key up yields the empty entry table.
proof fn lemma_results_for_name_absent(results: ResultsView, name: Seq<char>)
    requires
        forall|j: int| 0 <= j < results.len() ==> (#[trigger] results[j]).0 != name,
    ensures
        results_for_name(results, name) == Seq::<(Seq<char>, TestResultView)>::empty(),
    decreases results.len(),
{
    if results.len() > 0 {
        assert forall|j: int|
            0 <= j < results.drop_first().len() implies (
        #[trigger] results.drop_first()[j]).0 != name by {
            assert(results.drop_first()[j] == results[j + 1]);
        }
        lemma_results_for_name_absent(results.drop_first(), name);
    }
}

/// The `(name, outcome)` pairs the first `upto` tests report on `input` at
/// `path`, keeping registration order and dropping `ParseError` outcomes.
pub open spec fn direct_results<S: TestSuite>(
    suite: S,
    names: Seq<Seq<char>>,
    path: Seq<char>,
    input: Seq<char>,
    upto: int,
) -> ResultEntries
    decreases upto,
{
    if upto <= 0 {
        Seq::<(Seq<char>, TestResultView)>::empty()
    } else {
        let prefix = direct_results(suite, names, path, input, upto - 1);
        let outcome = suite.test_outcome(upto - 1, path, input);
        if outcome is ParseError {
            prefix
        } else {
            prefix.push((names[upto - 1], outcome))
        }
    }
}

/// Record a sequence of `(name, outcome)` pairs for one path, in order.
pub open spec fn record_entries(
    results: ResultsView,
    entries: ResultEntries,
    path: Seq<char>,
) -> ResultsView
    decreases entries.len(),
{
    if entries.len() == 0 {
        results
    } else {
        record_result(
            record_entries(results, entries.drop_last(), path),
            entries.last().0,
            path,
            entries.last().1,
        )
    }
}

/// What running one named batch scenario records: the outcomes of every test
/// on it, or one `ParseError` under the empty name when no test accepts it.
pub open spec fn batch_item_records<S: TestSuite>(
    suite: S,
    names: Seq<Seq<char>>,
    results: ResultsView,
    base_path: Seq<char>,
    item: (Seq<char>, Seq<char>),
) -> ResultsView {
    let sub_path = base_path + seq!['/'] + item.0;
    let found = direct_results(suite, names, sub_path, item.1, names.len() as int);
    if found.len() > 0 {
        record_entries(results, found, sub_path)
    } else {
        record_result(results, Seq::<char>::empty(), sub_path, TestResultView::ParseError)
    }
}

/// What running a whole batch records, scenario by scenario.
pub open spec fn batch_records<S: TestSuite>(
    suite: S,
    names: Seq<Seq<char>>,
    results: ResultsView,
    base_path: Seq<char>,
    items: Seq<(Seq<char>, Seq<char>)>,
) -> ResultsView
    decreases items.len(),
{
    if items.len() == 0 {
        results
    } else {
        batch_item_records(
            suite,
            names,
            batch_records(suite, names, results, base_path, items.drop_last()),
            base_path,
            items.last(),
        )
    }
}

/// What one `run_for_input` call records: the direct outcomes when some test
/// accepts the input; otherwise the batch expansion scenario by scenario; a
/// lone `ParseError` when the input is neither a case nor a (non-empty)
/// batch.
pub open spec fn run_input_spec<S: TestSuite>(
    suite: S,
    names: Seq<Seq<char>>,
    results: ResultsView,
    path: Seq<char>,
    input: Seq<char>,
) -> ResultsView {
    let found = direct_results(suite, names, path, input, names.len() as int);
    if found.len() > 0 {
        record_entries(results, found, path)
    } else {
        match suite.batch_expansion(path, input) {
            None => record_result(results, Seq::<char>::empty(), path, TestResultView::ParseError),
            Some(items) => {
                if items.len() == 0 {
                    record_result(
                        results,
                        Seq::<char>::empty(),
                        path,
                        TestResultView::ParseError,
                    )
                } else {
                    batch_records(suite, names, results, path, items)
                }
            },
        }
    }
}

/// The paths recorded with a `Success` outcome, in order.
pub open spec fn successful_paths(entries: ResultEntries) -> Seq<Seq<char>>
    decreases entries.len(),
{
    if entries.len() == 0 {
        Seq::<Seq<char>>::empty()
    } else {
        let rest = successful_paths(entries.drop_last());
        if entries.last().1 is Success {
            rest.push(entries.last().0)
        } else {
            rest
        }
    }
}

/// The `(path, message, location)` rows recorded with a `Failure` outcome.
pub open spec fn failed_rows(entries: ResultEntries) -> Seq<(Seq<char>, Seq<char>, Seq<char>)>
    decreases entries.len(),
{
    if entries.len() == 0 {
        Seq::<(Seq<char>, Seq<char>, Seq<char>)>::empty()
    } else {
        let rest = failed_rows(entries.drop_last());
        match entries.last().1 {
            TestResultView::Failure { message, location } => rest.push(
                (entries.last().0, message, location),
            ),
            _ => rest,
        }
    }
}

/// The paths recorded with a `ReadError` outcome, in order.
pub open spec fn readerror_paths(entries: ResultEntries) -> Seq<Seq<char>>
    decreases entries.len(),
{
    if entries.len() == 0 {
        Seq::<Seq<char>>::empty()
    } else {
        let rest = readerror_paths(entries.drop_last());
        if entries.last().1 is ReadError {
            rest.push(entries.last().0)
        } else {
            rest
        }
    }
}

/// The paths recorded with a `ParseError` outcome, in order.
pub open spec fn parseerror_paths(entries: ResultEntries) -> Seq<Seq<char>>
    decreases entries.len(),
{
    if entries.len() == 0 {
        Seq::<Seq<char>>::empty()
    } else {
        let rest = parseerror_paths(entries.drop_last());
        if entries.last().1 is ParseError {
            rest.push(entries.last().0)
        } else {
            rest
        }
    }
}

/// The harness: registered test names, and per-test results over the inputs
/// it has been run on. Reading errors and unparseable inputs are recorded
/// under the empty name.
pub struct Tester {
    name: String,
    root_dir: String,
    tests: Vec<Test>,
    results: Vec<(String, Vec<(String, TestResult)>)>,
}

impl Tester {
    /// This tester run's name.
    pub closed spec fn tester_name(&self) -> Seq<char> {
        self.name@
    }

    /// The root directory the run is anchored at.
    pub closed spec fn root(&self) -> Seq<char> {
        self.root_dir@
    }

    /// The registered test names, in registration order.
    pub closed spec fn test_names(&self) -> Seq<Seq<char>> {
        self.tests@.map_values(|test: Test| test.name@)
    }

    /// Everything recorded so far.
    pub closed spec fn results_view(&self) -> ResultsView {
        results_seq_view(self.results@)
    }

    /// A tester with no registered tests and no results.
    pub fn new(name: &str, root_dir: &str) -> (tester: Tester)
        ensures
            tester.tester_name() == name@,
            tester.root() == root_dir@,
            tester.test_names() == Seq::<Seq<char>>::empty(),
            tester.results_view() == Seq::<(Seq<char>, ResultEntries)>::empty(),
    {
        let tester = Tester {
            name: String::from_str(name),
            root_dir: String::from_str(root_dir),
            tests: Vec::new(),
            results: Vec::new(),
        };
        proof {
            assert(tester.test_names() =~= Seq::<Seq<char>>::empty());
            assert(tester.results_view() =~= Seq::<(Seq<char>, ResultEntries)>::empty());
        }
        tester
    }

    /// The environment rooted at this run's root directory.
    pub fn env(&self) -> (r: Option<crate::testenv::TestEnv>)
        ensures
            r matches Some(env) && env.dir() == self.root(),
    {
        crate::testenv::TestEnv::new(self.root_dir.as_str())
    }

    /// Register the next test under `name`; its body is the suite's, at this
    /// registration index.
    pub fn add_test(&mut self, name: &str)
        ensures
            final(self).test_names() == old(self).test_names().push(name@),
            final(self).results_view() == old(self).results_view(),
            final(self).tester_name() == old(self).tester_name(),
            final(self).root() == old(self).root(),
    {
        self.tests.push(Test { name: String::from_str(name) });
        proof {
            assert(final(self).test_names() =~= old(self).test_names().push(name@));
            assert(final(self).results_view() =~= old(self).results_view());
        }
    }

    /// The position of the entry recorded under `name`, if one exists.
    fn find_result_index(&self, name: &str) -> (r: Option<usize>)
        ensures
            (match r {
                Some(index) => {
                    &&& index < self.results_view().len()
                    &&& self.results_view()[index as int].0 == name@
                    &&& forall|j: int|
                        0 <= j < index ==> (#[trigger] self.results_view()[j]).0 != name@
                },
                None => forall|j: int|
                    0 <= j < self.results_view().len() ==> (
                    #[trigger] self.results_view()[j]).0 != name@,
            }),
    {
        let n = self.results.len();
        let mut i: usize = 0;
        while i < n
            invariant
                i <= n,
                n == self.results.len(),
                forall|j: int| 0 <= j < i ==> (#[trigger] self.results_view()[j]).0 != name@,
            decreases n - i,
        {
            let found = str_eq(self.results[i].0.as_str(), name);
            proof {
                assert(self.results_view()[i as int].0 == self.results@[i as int].0@);
            }
            if found {
                return Some(i);
            }
            i = i + 1;
        }
        None
    }

    /// Record `result` for `path` under `name`.
    fn add_result(&mut self, name: &str, path: &str, result: TestResult)
        ensures
            final(self).results_view() == record_result(
                old(self).results_view(),
                name@,
                path@,
                result@,
            ),
            final(self).test_names() == old(self).test_names(),
            final(self).tester_name() == old(self).tester_name(),
            final(self).root() == old(self).root(),
    {
        let ghost result_view = result@;
        let ghost old_view = self.results_view();
        match self.find_result_index(name) {
            Some(index) => {
                let ghost updated_entry = (
                    old_view[index as int].0,
                    old_view[index as int].1.push((path@, result_view)),
                );
                let mut entry = self.results.remove(index);
                entry.1.push((String::from_str(path), result));
                proof {
                    assert(entries_view(entry.1@) =~= old_view[index as int].1.push(
                        (path@, result_view),
                    ));
                }
                self.results.insert(index, entry);
                proof {
                    assert(final(self).results_view() =~= old_view.update(
                        index as int,
                        updated_entry,
                    ));
                    lemma_record_result_at(old_view, name@, path@, result_view, index as int);
                    assert(old_view.update(index as int, updated_entry) =~= old_view.update(
                        index as int,
                        (name@, old_view[index as int].1.push((path@, result_view))),
                    ));
                    assert(final(self).test_names() =~= old(self).test_names());
                }
            },
            None => {
                let mut entries: Vec<(String, TestResult)> = Vec::new();
                entries.push((String::from_str(path), result));
                proof {
                    assert(entries_view(entries@) =~= seq![(path@, result_view)]);
                }
                self.results.push((String::from_str(name), entries));
                proof {
                    assert(final(self).results_view() =~= old_view.push(
                        (name@, seq![(path@, result_view)]),
                    ));
                    lemma_record_result_new(old_view, name@, path@, result_view);
                    assert(final(self).test_names() =~= old(self).test_names());
                }
            },
        }
    }

    /// Record that `path` could not be read. Reading files is the embedding
    /// application's concern, so the failure is reported from outside.
    pub fn read_error(&mut self, path: &str)
        ensures
            final(self).results_view() == record_result(
                old(self).results_view(),
                Seq::<char>::empty(),
                path@,
                TestResultView::ReadError,
            ),
            final(self).test_names() == old(self).test_names(),
            final(self).tester_name() == old(self).tester_name(),
            final(self).root() == old(self).root(),
    {
        proof {
            reveal_strlit("");
            assert(""@ =~= Seq::<char>::empty());
        }
        self.add_result("", path, TestResult::ReadError);
    }

    /// Record that `path` could be parsed neither as a test nor as a batch.
    fn parse_error(&mut self, path: &str)
        ensures
            final(self).results_view() == record_result(
                old(self).results_view(),
                Seq::<char>::empty(),
                path@,
                TestResultView::ParseError,
            ),
            final(self).test_names() == old(self).test_names(),
            final(self).tester_name() == old(self).tester_name(),
            final(self).root() == old(self).root(),
    {
        proof {
            reveal_strlit("");
            assert(""@ =~= Seq::<char>::empty());
        }
        self.add_result("", path, TestResult::ParseError);
    }

    /// Run every registered test directly on `input` at `path`, recording
    /// each outcome that is not a `ParseError`; reports whether any was.
    fn run_direct<S: TestSuite>(&mut self, suite: &S, path: &str, input: &str) -> (any: bool)
        ensures
            final(self).results_view() == record_entries(
                old(self).results_view(),
                direct_results(
                    *suite,
                    old(self).test_names(),
                    path@,
                    input@,
                    old(self).test_names().len() as int,
                ),
                path@,
            ),
            any == (direct_results(
                *suite,
                old(self).test_names(),
                path@,
                input@,
                old(self).test_names().len() as int,
            ).len() > 0),
            final(self).test_names() == old(self).test_names(),
            final(self).tester_name() == old(self).tester_name(),
            final(self).root() == old(self).root(),
    {
        let ghost names = self.test_names();
        let ghost old_view = self.results_view();
        let mut any = false;
        let n = self.tests.len();
        let mut i: usize = 0;
        while i < n
            invariant
                i <= n,
                n == self.tests.len(),
                self.test_names() == names,
                n as int == names.len(),
                self.tester_name() == old(self).tester_name(),
                self.root() == old(self).root(),
                self.results_view() == record_entries(
                    old_view,
                    direct_results(*suite, names, path@, input@, i as int),
                    path@,
                ),
                any == (direct_results(*suite, names, path@, input@, i as int).len() > 0),
            decreases n - i,
        {
            let ghost prefix = direct_results(*suite, names, path@, input@, i as int);
            let outcome = suite.run_test(i, path, input);
            let ghost outcome_view = outcome@;
            proof {
                assert(names[i as int] == self.tests@[i as int].name@);
            }
            if !outcome.is_parseerror() {
                let name = self.tests[i].name.clone();
                self.add_result(name.as_str(), path, outcome);
                any = true;
                proof {
                    let grown = direct_results(*suite, names, path@, input@, i as int + 1);
                    assert(grown == prefix.push((names[i as int], outcome_view)));
                    assert(grown.drop_last() =~= prefix);
                    assert(grown.last() == (names[i as int], outcome_view));
                }
            } else {
                proof {
                    assert(direct_results(*suite, names, path@, input@, i as int + 1) == prefix);
                }
            }
            i = i + 1;
        }
        any
    }

    /// Run the registered tests over `input` at `path`. When no test accepts
    /// the input, try it as a batch of named scenarios and run each of those;
    /// an input that is neither is recorded as a `ParseError`.
    pub fn run_for_input<S: TestSuite>(&mut self, suite: &S, path: &str, input: &str)
        ensures
            final(self).results_view() == run_input_spec(
                *suite,
                old(self).test_names(),
                old(self).results_view(),
                path@,
                input@,
            ),
            final(self).test_names() == old(self).test_names(),
            final(self).tester_name() == old(self).tester_name(),
            final(self).root() == old(self).root(),
    {
        let ghost names = self.test_names();
        let ghost old_view = self.results_view();
        let any = self.run_direct(suite, path, input);
        if any {
            return ;
        }
        match suite.expand_batch(path, input) {
            None => {
                self.parse_error(path);
            },
            Some(items) => {
                if items.len() == 0 {
                    self.parse_error(path);
                } else {
                    let ghost items_view = string_pairs_view(items@);
                    let m = items.len();
                    let mut k: usize = 0;
                    proof {
                        assert(items_view.take(0) =~= Seq::<(Seq<char>, Seq<char>)>::empty());
                    }
                    while k < m
                        invariant
                            k <= m,
                            m == items.len(),
                            items_view == string_pairs_view(items@),
                            self.test_names() == names,
                            self.tester_name() == old(self).tester_name(),
                            self.root() == old(self).root(),
                            self.results_view() == batch_records(
                                *suite,
                                names,
                                old_view,
                                path@,
                                items_view.take(k as int),
                            ),
                        decreases m - k,
                    {
                        let sub_path = String::from_str(path).concat("/").concat(
                            items[k].0.as_str(),
                        );
                        proof {
                            reveal_strlit("/");
                            assert("/"@ =~= seq!['/']);
                            assert(items_view[k as int] == (items@[k as int].0@, items@[
                                k as int
                            ].1@));
                            assert(sub_path@ == path@ + seq!['/'] + items_view[k as int].0);
                        }
                        let item_input = items[k].1.as_str();
                        let any_here = self.run_direct(suite, sub_path.as_str(), item_input);
                        if !any_here {
                            self.parse_error(sub_path.as_str());
                        }
                        k = k + 1;
                        proof {
                            assert(items_view.take(k as int).drop_last() =~= items_view.take(
                                k as int - 1,
                            ));
                            assert(items_view.take(k as int).last() == items_view[k as int - 1]);
                        }
                    }
                    proof {
                        assert(items_view.take(m as int) =~= items_view);
                    }
                }
            },
        }
    }

    /// The paths on which `test` succeeded, in recording order.
    pub fn successful_tests(&self, test: &str) -> (r: Vec<String>)
        ensures
            strings_view(r@) == successful_paths(results_for_name(self.results_view(), test@)),
    {
        let mut paths: Vec<String> = Vec::new();
        match self.find_result_index(test) {
            None => {
                proof {
                    lemma_results_for_name_absent(self.results_view(), test@);
                    assert(strings_view(paths@) =~= Seq::<Seq<char>>::empty());
                }
                paths
            },
            Some(index) => {
                proof {
                    lemma_results_for_name_at(self.results_view(), test@, index as int);
                }
                let entries = &self.results[index].1;
                let ghost entry_views = self.results_view()[index as int].1;
                let n = entries.len();
                let mut k: usize = 0;
                proof {
                    assert(strings_view(paths@) =~= Seq::<Seq<char>>::empty());
                    assert(entry_views.take(0) =~= Seq::<(Seq<char>, TestResultView)>::empty());
                }
                while k < n
                    invariant
                        k <= n,
                        n == entries.len(),
                        entry_views == entries_view(entries@),
                        strings_view(paths@) == successful_paths(entry_views.take(k as int)),
                    decreases n - k,
                {
                    let pair = &entries[k];
                    let ghost prev_paths = paths@;
                    if pair.1.is_success() {
                        paths.push(pair.0.clone());
                        proof {
                            assert(strings_view(paths@) =~= strings_view(prev_paths).push(
                                pair.0@,
                            ));
                        }
                    }
                    k = k + 1;
                    proof {
                        assert(entry_views.take(k as int).drop_last() =~= entry_views.take(
                            k as int - 1,
                        ));
                        assert(entry_views.take(k as int).last() == entry_views[k as int - 1]);
                        assert(entry_views[k as int - 1] == (entries@[k as int - 1].0@, entries@[
                            k as int - 1
                        ].1@));
                    }
                }
                proof {
                    assert(entry_views.take(n as int) =~= entry_views);
                }
                paths
            },
        }
    }

    /// The `(path, message, location)` rows on which `test` failed.
    pub fn failed_tests(&self, test: &str) -> (r: Vec<(String, String, String)>)
        ensures
            triples_view(r@) == failed_rows(results_for_name(self.results_view(), test@)),
    {
        let mut rows: Vec<(String, String, String)> = Vec::new();
        match self.find_result_index(test) {
            None => {
                proof {
                    lemma_results_for_name_absent(self.results_view(), test@);
                    assert(triples_view(rows@) =~= Seq::<(Seq<char>, Seq<char>, Seq<char>)>::empty());
                }
                rows
            },
            Some(index) => {
                proof {
                    lemma_results_for_name_at(self.results_view(), test@, index as int);
                }
                let entries = &self.results[index].1;
                let ghost entry_views = self.results_view()[index as int].1;
                let n = entries.len();
                let mut k: usize = 0;
                proof {
                    assert(triples_view(rows@) =~= Seq::<(Seq<char>, Seq<char>, Seq<char>)>::empty());
                    assert(entry_views.take(0) =~= Seq::<(Seq<char>, TestResultView)>::empty());
                }
                while k < n
                    invariant
                        k <= n,
                        n == entries.len(),
                        entry_views == entries_view(entries@),
                        triples_view(rows@) == failed_rows(entry_views.take(k as int)),
                    decreases n - k,
                {
                    let pair = &entries[k];
                    let ghost prev_rows = rows@;
                    match &pair.1 {
                        TestResult::Failure { message, location } => {
                            rows.push((pair.0.clone(), message.clone(), location.clone()));
                            proof {
                                assert(triples_view(rows@) =~= triples_view(prev_rows).push(
                                    (pair.0@, message@, location@),
                                ));
                            }
                        },
                        _ => {},
                    }
                    k = k + 1;
                    proof {
                        assert(entry_views.take(k as int).drop_last() =~= entry_views.take(
                            k as int - 1,
                        ));
                        assert(entry_views.take(k as int).last() == entry_views[k as int - 1]);
                        assert(entry_views[k as int - 1] == (entries@[k as int - 1].0@, entries@[
                            k as int - 1
                        ].1@));
                    }
                }
                proof {
                    assert(entry_views.take(n as int) =~= entry_views);
                }
                rows
            },
        }
    }

    /// The paths recorded as unreadable.
    pub fn unreadable_tests(&self) -> (r: Vec<String>)
        ensures
            strings_view(r@) == readerror_paths(
                results_for_name(self.results_view(), Seq::<char>::empty()),
            ),
    {
        proof {
            reveal_strlit("");
            assert(""@ =~= Seq::<char>::empty());
        }
        let mut paths: Vec<String> = Vec::new();
        match self.find_result_index("") {
            None => {
                proof {
                    lemma_results_for_name_absent(self.results_view(), Seq::<char>::empty());
                    assert(strings_view(paths@) =~= Seq::<Seq<char>>::empty());
                }
                paths
            },
            Some(index) => {
                proof {
                    lemma_results_for_name_at(self.results_view(), Seq::<char>::empty(), index as int);
                }
                let entries = &self.results[index].1;
                let ghost entry_views = self.results_view()[index as int].1;
                let n = entries.len();
                let mut k: usize = 0;
                proof {
                    assert(strings_view(paths@) =~= Seq::<Seq<char>>::empty());
                    assert(entry_views.take(0) =~= Seq::<(Seq<char>, TestResultView)>::empty());
                }
                while k < n
                    invariant
                        k <= n,
                        n == entries.len(),
                        entry_views == entries_view(entries@),
                        strings_view(paths@) == readerror_paths(entry_views.take(k as int)),
                    decreases n - k,
                {
                    let pair = &entries[k];
                    let ghost prev_paths = paths@;
                    if pair.1.is_readerror() {
                        paths.push(pair.0.clone());
                        proof {
                            assert(strings_view(paths@) =~= strings_view(prev_paths).push(
                                pair.0@,
                            ));
                        }
                    }
                    k = k + 1;
                    proof {
                        assert(entry_views.take(k as int).drop_last() =~= entry_views.take(
                            k as int - 1,
                        ));
                        assert(entry_views.take(k as int).last() == entry_views[k as int - 1]);
                        assert(entry_views[k as int - 1] == (entries@[k as int - 1].0@, entries@[
                            k as int - 1
                        ].1@));
                    }
                }
                proof {
                    assert(entry_views.take(n as int) =~= entry_views);
                }
                paths
            },
        }
    }

    /// The paths recorded as unparseable.
    pub fn unparseable_tests(&self) -> (r: Vec<String>)
        ensures
            strings_view(r@) == parseerror_paths(
                results_for_name(self.results_view(), Seq::<char>::empty()),
            ),
    {
        proof {
            reveal_strlit("");
            assert(""@ =~= Seq::<char>::empty());
        }
        let mut paths: Vec<String> = Vec::new();
        match self.find_result_index("") {
            None => {
                proof {
                    lemma_results_for_name_absent(self.results_view(), Seq::<char>::empty());
                    assert(strings_view(paths@) =~= Seq::<Seq<char>>::empty());
                }
                paths
            },
            Some(index) => {
                proof {
                    lemma_results_for_name_at(self.results_view(), Seq::<char>::empty(), index as int);
                }
                let entries = &self.results[index].1;
                let ghost entry_views = self.results_view()[index as int].1;
                let n = entries.len();
                let mut k: usize = 0;
                proof {
                    assert(strings_view(paths@) =~= Seq::<Seq<char>>::empty());
                    assert(entry_views.take(0) =~= Seq::<(Seq<char>, TestResultView)>::empty());
                }
                while k < n
                    invariant
                        k <= n,
                        n == entries.len(),
                        entry_views == entries_view(entries@),
                        strings_view(paths@) == parseerror_paths(entry_views.take(k as int)),
                    decreases n - k,
                {
                    let pair = &entries[k];
                    let ghost prev_paths = paths@;
                    if pair.1.is_parseerror() {
                        paths.push(pair.0.clone());
                        proof {
                            assert(strings_view(paths@) =~= strings_view(prev_paths).push(
                                pair.0@,
                            ));
                        }
                    }
                    k = k + 1;
                    proof {
                        assert(entry_views.take(k as int).drop_last() =~= entry_views.take(
                            k as int - 1,
                        ));
                        assert(entry_views.take(k as int).last() == entry_views[k as int - 1]);
                        assert(entry_views[k as int - 1] == (entries@[k as int - 1].0@, entries@[
                            k as int - 1
                        ].1@));
                    }
                }
                proof {
                    assert(entry_views.take(n as int) =~= entry_views);
                }
                paths
            },
        }
    }
}

} // verus!
