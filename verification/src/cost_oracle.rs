//! Cost of the scripts that a transaction runs.
//!
//! An [`OracleRun`] goes through the inputs of a transaction one by one. For
//! each it asks for a context, for the spent box, for the version in the
//! header of its tree and for the reduction of the tree, and keeps one result.
//! A failure ends the input, not the run.
use vstd::prelude::*;
use vstd::string::StringExecFns;
use crate::chain::{
    AutolykosSolution, Constant, ErgoBoxCandidate, ErgoStateContext, ErgoTree, ErgoTreeVersion, Header,
    Input, Literal, OutputBox, Parameters, SigmaBoolean, SpentBox, Transaction,
};
use crate::expr::Expr;
use crate::text;
use crate::types::SType;

verus! {

/// Cost of one input.
#[derive(Debug, Clone)]
pub struct CostOracleResult {
    cost: u64,
    is_ok: bool,
    error_msg: Option<String>,
}

/// What a [`CostOracleResult`] stands for.
pub struct ResultView {
    pub cost: u64,
    pub is_ok: bool,
    pub error_msg: Option<Seq<char>>,
}

impl View for CostOracleResult {
    type V = ResultView;

    closed spec fn view(&self) -> ResultView {
        ResultView {
            cost: self.cost,
            is_ok: self.is_ok,
            error_msg: match self.error_msg {
                Some(msg) => Some(msg@),
                None => None,
            },
        }
    }
}

impl CostOracleResult {
    /// Accumulated cost at the end of the evaluation, whether it succeeded or
    /// not.
    pub fn cost(&self) -> (r: u64)
        ensures
            r == self@.cost,
    {
        self.cost
    }

    /// Whether the evaluation came to an end. A proposition that is false is
    /// no failure of the evaluation.
    pub fn is_ok(&self) -> (r: bool)
        ensures
            r == self@.is_ok,
    {
        self.is_ok
    }

    /// Message of the failure.
    pub fn error_msg(&self) -> (r: Option<String>)
        ensures
            match (r, self@.error_msg) {
                (Some(msg), Some(text)) => msg@ == text,
                (None, None) => true,
                _ => false,
            },
    {
        match &self.error_msg {
            Some(msg) => Some(msg.clone()),
            None => None,
        }
    }
}

/// What is asked for next.
#[derive(Clone, Copy, PartialEq, Eq, Structural)]
pub enum Action {
    /// The context of the input.
    MakeContext { input_index: usize },
    /// The box that the input spends.
    FindInputBox { input_index: usize },
    /// The version in the header of the tree of the box.
    ReadTreeVersion { input_index: usize },
    /// The reduction of the tree, under this version and this limit.
    Reduce { input_index: usize, tree_version: ErgoTreeVersion, jit_cost_limit: u64 },
    /// Nothing: every input has its result.
    Finished,
}

/// Answer to an action.
pub enum Event {
    ContextMade,
    ContextFailed(String),
    BoxFound,
    BoxMissing,
    TreeVersion(ErgoTreeVersion),
    /// The header is not readable; the cost that the context holds.
    HeaderFailed(u64, String),
    /// The tree was reduced; the cost that the context holds.
    Reduced(u64),
    /// The reduction failed; the cost that the context holds.
    ReduceFailed(u64, String),
}

/// What an [`Event`] stands for.
pub enum EventView {
    ContextMade,
    ContextFailed(Seq<char>),
    BoxFound,
    BoxMissing,
    TreeVersion(ErgoTreeVersion),
    HeaderFailed(u64, Seq<char>),
    Reduced(u64),
    ReduceFailed(u64, Seq<char>),
}

impl View for Event {
    type V = EventView;

    open spec fn view(&self) -> EventView {
        match self {
            Event::ContextMade => EventView::ContextMade,
            Event::ContextFailed(e) => EventView::ContextFailed(e@),
            Event::BoxFound => EventView::BoxFound,
            Event::BoxMissing => EventView::BoxMissing,
            Event::TreeVersion(version) => EventView::TreeVersion(*version),
            Event::HeaderFailed(cost, e) => EventView::HeaderFailed(*cost, e@),
            Event::Reduced(cost) => EventView::Reduced(*cost),
            Event::ReduceFailed(cost, e) => EventView::ReduceFailed(*cost, e@),
        }
    }
}

/// How far the current input is.
#[derive(Clone, Copy, PartialEq, Eq, Structural)]
pub enum Stage {
    Context,
    Box,
    Header,
    Reduction(ErgoTreeVersion),
}

/// Costs of the inputs of a transaction, as far as they are known.
pub struct OracleRun {
    input_count: usize,
    max_block_cost: i32,
    stage: Stage,
    results: Vec<CostOracleResult>,
}

/// What an [`OracleRun`] stands for. The current input is the one after those
/// that have a result.
pub struct RunView {
    pub input_count: nat,
    pub max_block_cost: i32,
    pub stage: Stage,
    pub results: Seq<ResultView>,
}

/// Limit of the accumulated cost for a limit of the cost of a block, which
/// counts in units of ten.
pub open spec fn jit_cost_limit(max_block_cost: i32) -> int {
    max_block_cost * 10
}

impl RunView {
    /// No more results than inputs, and a limit if there are inputs.
    pub open spec fn wf(self) -> bool {
        &&& self.results.len() <= self.input_count <= usize::MAX
        &&& self.input_count > 0 ==> self.max_block_cost >= 0
    }

    /// What is asked for next.
    pub open spec fn action(self) -> Action {
        let input_index = self.results.len() as usize;
        if self.results.len() >= self.input_count {
            Action::Finished
        } else {
            match self.stage {
                Stage::Context => Action::MakeContext { input_index },
                Stage::Box => Action::FindInputBox { input_index },
                Stage::Header => Action::ReadTreeVersion { input_index },
                Stage::Reduction(tree_version) => Action::Reduce {
                    input_index,
                    tree_version,
                    jit_cost_limit: jit_cost_limit(self.max_block_cost) as u64,
                },
            }
        }
    }

    /// The run with the current input one stage further.
    pub open spec fn at(self, stage: Stage) -> RunView {
        RunView { stage, ..self }
    }

    /// The run with a result for the current input.
    pub open spec fn with_result(self, result: ResultView) -> RunView {
        RunView { stage: Stage::Context, results: self.results.push(result), ..self }
    }

    /// The run after an event. An event that answers another action than the
    /// one that is asked for is no event of the run.
    pub open spec fn after(self, event: EventView) -> Option<RunView> {
        match (self.action(), event) {
            (Action::MakeContext { .. }, EventView::ContextMade) => Some(self.at(Stage::Box)),
            (Action::MakeContext { .. }, EventView::ContextFailed(e)) => Some(
                self.with_result(failure(0, "make_context failed: "@ + e)),
            ),
            (Action::FindInputBox { .. }, EventView::BoxFound) => Some(self.at(Stage::Header)),
            (Action::FindInputBox { .. }, EventView::BoxMissing) => Some(
                self.with_result(
                    failure(
                        0,
                        "input box not found for input_index="@ + text::decimal(self.results.len()),
                    ),
                ),
            ),
            (Action::ReadTreeVersion { .. }, EventView::TreeVersion(version)) => Some(
                self.at(Stage::Reduction(version)),
            ),
            (Action::ReadTreeVersion { .. }, EventView::HeaderFailed(cost, e)) => Some(
                self.with_result(failure(cost, "ergo_tree.header() failed: "@ + e)),
            ),
            (Action::Reduce { .. }, EventView::Reduced(cost)) => Some(
                self.with_result(ResultView { cost, is_ok: true, error_msg: None }),
            ),
            (Action::Reduce { .. }, EventView::ReduceFailed(cost, e)) => Some(
                self.with_result(failure(cost, e)),
            ),
            _ => None,
        }
    }
}

/// Result of an input that failed.
pub open spec fn failure(cost: u64, msg: Seq<char>) -> ResultView {
    ResultView { cost, is_ok: false, error_msg: Some(msg) }
}

impl View for OracleRun {
    type V = RunView;

    closed spec fn view(&self) -> RunView {
        RunView {
            input_count: self.input_count as nat,
            max_block_cost: self.max_block_cost,
            stage: self.stage,
            results: Seq::new(self.results@.len(), |i: int| self.results@[i]@),
        }
    }
}

/// Starts the run over the inputs of a transaction. `tx_context` is the number
/// of inputs, or why the transaction does not go with its boxes.
pub fn compute_tx_oracle_costs(
    tx_context: Result<usize, String>,
    parameters: &Parameters,
) -> (r: Result<OracleRun, String>)
    requires
        tx_context matches Ok(n) ==> n > 0 ==> parameters.max_block_cost >= 0,
    ensures
        match (tx_context, r) {
            (Ok(n), Ok(run)) => run@.wf() && run@ == started(n as nat, parameters.max_block_cost),
            (Err(e), Err(msg)) => msg@ == "TransactionContext::new: "@ + e@,
            _ => false,
        },
{
    match tx_context {
        Ok(input_count) => {
            let run = OracleRun {
                input_count,
                max_block_cost: parameters.max_block_cost,
                stage: Stage::Context,
                results: Vec::new(),
            };
            assert(run@.results =~= Seq::empty());
            Ok(run)
        },
        Err(e) => Err(prefixed("TransactionContext::new: ", e.as_str())),
    }
}

fn prefixed(prefix: &str, e: &str) -> (r: String)
    ensures
        r@ == prefix@ + e@,
{
    let mut msg = String::from_str(prefix);
    msg.append(e);
    msg
}

impl OracleRun {
    /// What is asked for next.
    pub fn action(&self) -> (r: Action)
        requires
            self@.wf(),
        ensures
            r == self@.action(),
    {
        let input_index: usize = self.results.len();
        if input_index >= self.input_count {
            Action::Finished
        } else {
            match self.stage {
                Stage::Context => Action::MakeContext { input_index },
                Stage::Box => Action::FindInputBox { input_index },
                Stage::Header => Action::ReadTreeVersion { input_index },
                Stage::Reduction(tree_version) => Action::Reduce {
                    input_index,
                    tree_version,
                    jit_cost_limit: self.max_block_cost as u64 * 10,
                },
            }
        }
    }

    fn push(&mut self, cost: u64, is_ok: bool, error_msg: Option<String>)
        ensures
            final(self)@ == old(self)@.with_result(
                ResultView {
                    cost,
                    is_ok,
                    error_msg: match error_msg {
                        Some(msg) => Some(msg@),
                        None => None,
                    },
                },
            ),
    {
        self.stage = Stage::Context;
        self.results.push(CostOracleResult { cost, is_ok, error_msg });
        assert(self@.results =~= old(self)@.results.push(self.results@.last()@));
    }

    /// Takes the answer to the action that is asked for. Any other event is
    /// given back.
    pub fn handle(&mut self, event: Event) -> (r: Result<(), Event>)
        requires
            old(self)@.wf(),
        ensures
            final(self)@.wf(),
            match r {
                Ok(()) => old(self)@.after(event@) == Some(final(self)@),
                Err(back) => old(self)@.after(event@) is None && final(self)@ == old(self)@ && back
                    == event,
            },
    {
        let input_index: usize = self.results.len();
        match (self.action(), event) {
            (Action::MakeContext { .. }, Event::ContextMade) => {
                self.stage = Stage::Box;
            },
            (Action::MakeContext { .. }, Event::ContextFailed(e)) => {
                self.push(0, false, Some(prefixed("make_context failed: ", e.as_str())));
            },
            (Action::FindInputBox { .. }, Event::BoxFound) => {
                self.stage = Stage::Header;
            },
            (Action::FindInputBox { .. }, Event::BoxMissing) => {
                let mut msg = String::from_str("input box not found for input_index=");
                text::append_decimal(&mut msg, input_index as u64);
                self.push(0, false, Some(msg));
            },
            (Action::ReadTreeVersion { .. }, Event::TreeVersion(version)) => {
                self.stage = Stage::Reduction(version);
            },
            (Action::ReadTreeVersion { .. }, Event::HeaderFailed(cost, e)) => {
                self.push(cost, false, Some(prefixed("ergo_tree.header() failed: ", e.as_str())));
            },
            (Action::Reduce { .. }, Event::Reduced(cost)) => {
                self.push(cost, true, None);
            },
            (Action::Reduce { .. }, Event::ReduceFailed(cost, e)) => {
                self.push(cost, false, Some(e));
            },
            (_, event) => {
                return Err(event);
            },
        }
        Ok(())
    }

    /// The results, one per input, in the order of the inputs.
    pub fn into_results(self) -> (r: Vec<CostOracleResult>)
        ensures
            r@.len() == self@.results.len(),
            forall|i: int| 0 <= i < r@.len() ==> (#[trigger] r@[i])@ == self@.results[i],
    {
        self.results
    }
}

/// Everything that is answered about one input.
pub enum InputAnswers {
    NoContext { error: Seq<char> },
    NoBox,
    NoHeader { jit_cost: u64, error: Seq<char> },
    Reduced { tree_version: ErgoTreeVersion, jit_cost: u64 },
    ReduceFailed { tree_version: ErgoTreeVersion, jit_cost: u64, error: Seq<char> },
}

impl InputAnswers {
    /// The answers as events.
    pub open spec fn events(self) -> Seq<EventView> {
        match self {
            InputAnswers::NoContext { error } => seq![EventView::ContextFailed(error)],
            InputAnswers::NoBox => seq![EventView::ContextMade, EventView::BoxMissing],
            InputAnswers::NoHeader { jit_cost, error } => seq![
                EventView::ContextMade,
                EventView::BoxFound,
                EventView::HeaderFailed(jit_cost, error),
            ],
            InputAnswers::Reduced { tree_version, jit_cost } => seq![
                EventView::ContextMade,
                EventView::BoxFound,
                EventView::TreeVersion(tree_version),
                EventView::Reduced(jit_cost),
            ],
            InputAnswers::ReduceFailed { tree_version, jit_cost, error } => seq![
                EventView::ContextMade,
                EventView::BoxFound,
                EventView::TreeVersion(tree_version),
                EventView::ReduceFailed(jit_cost, error),
            ],
        }
    }

    /// What is reported for the input with this index.
    pub open spec fn result(self, input_index: nat) -> ResultView {
        match self {
            InputAnswers::NoContext { error } => failure(0, "make_context failed: "@ + error),
            InputAnswers::NoBox => failure(
                0,
                "input box not found for input_index="@ + text::decimal(input_index),
            ),
            InputAnswers::NoHeader { jit_cost, error } => failure(
                jit_cost,
                "ergo_tree.header() failed: "@ + error,
            ),
            InputAnswers::Reduced { jit_cost, .. } => ResultView {
                cost: jit_cost,
                is_ok: true,
                error_msg: None,
            },
            InputAnswers::ReduceFailed { jit_cost, error, .. } => failure(jit_cost, error),
        }
    }
}

/// Answers about one input after the other.
pub open spec fn all_events(answers: Seq<InputAnswers>) -> Seq<EventView>
    decreases answers.len(),
{
    if answers.len() == 0 {
        Seq::empty()
    } else {
        all_events(answers.drop_last()) + answers.last().events()
    }
}

/// The run after a sequence of events, all of which it takes.
pub open spec fn after_all(run: RunView, events: Seq<EventView>) -> Option<RunView>
    decreases events.len(),
{
    if events.len() == 0 {
        Some(run)
    } else {
        match after_all(run, events.drop_last()) {
            Some(mid) => mid.after(events.last()),
            None => None,
        }
    }
}

/// The start of a run.
pub open spec fn started(input_count: nat, max_block_cost: i32) -> RunView {
    RunView { input_count, max_block_cost, stage: Stage::Context, results: Seq::empty() }
}

proof fn lemma_after_all_concat(run: RunView, a: Seq<EventView>, b: Seq<EventView>)
    ensures
        after_all(run, a + b) == match after_all(run, a) {
            Some(mid) => after_all(mid, b),
            None => None,
        },
    decreases b.len(),
{
    if b.len() == 0 {
        assert(a + b =~= a);
    } else {
        lemma_after_all_concat(run, a, b.drop_last());
        assert((a + b).drop_last() =~= a + b.drop_last());
    }
}

/// The answers about an input bring the run to the next input, with one more
/// result.
proof fn lemma_one_input(run: RunView, answers: InputAnswers)
    requires
        run.results.len() < run.input_count,
        run.stage == Stage::Context,
    ensures
        after_all(run, answers.events()) == Some(
            run.with_result(answers.result(run.results.len())),
        ),
{
    reveal_with_fuel(after_all, 5);
    let events = answers.events();
    if events.len() == 1 {
        assert(events.drop_last() =~= seq![]);
    } else if events.len() == 2 {
        assert(events.drop_last() =~= seq![events[0]]);
        assert(seq![events[0]].drop_last() =~= seq![]);
    } else if events.len() == 3 {
        assert(events.drop_last() =~= seq![events[0], events[1]]);
        assert(seq![events[0], events[1]].drop_last() =~= seq![events[0]]);
        assert(seq![events[0]].drop_last() =~= seq![]);
    } else {
        assert(events.drop_last() =~= seq![events[0], events[1], events[2]]);
        assert(seq![events[0], events[1], events[2]].drop_last() =~= seq![events[0], events[1]]);
        assert(seq![events[0], events[1]].drop_last() =~= seq![events[0]]);
        assert(seq![events[0]].drop_last() =~= seq![]);
    }
}

/// Every input gets one result, in the order of the inputs, whatever happened
/// to the inputs before it.
pub proof fn law_every_input_gets_its_result(
    input_count: nat,
    max_block_cost: i32,
    answers: Seq<InputAnswers>,
)
    requires
        answers.len() <= input_count,
    ensures
        after_all(started(input_count, max_block_cost), all_events(answers)) == Some(
            RunView {
                results: Seq::new(answers.len(), |i: int| answers[i].result(i as nat)),
                ..started(input_count, max_block_cost)
            },
        ),
    decreases answers.len(),
{
    let start = started(input_count, max_block_cost);
    if answers.len() == 0 {
        assert(Seq::new(0, |i: int| answers[i].result(i as nat)) =~= Seq::<ResultView>::empty());
    } else {
        let before = answers.drop_last();
        law_every_input_gets_its_result(input_count, max_block_cost, before);
        lemma_after_all_concat(start, all_events(before), answers.last().events());
        let mid = RunView {
            results: Seq::new(before.len(), |i: int| before[i].result(i as nat)),
            ..start
        };
        lemma_one_input(mid, answers.last());
        assert(mid.results.push(answers.last().result(mid.results.len())) =~= Seq::new(
            answers.len(),
            |i: int| answers[i].result(i as nat),
        ));
    }
}

/// A run asks for nothing more exactly when every input has its result.
pub proof fn law_finished_when_every_input_has_its_result(run: RunView)
    requires
        run.wf(),
    ensures
        run.action() == Action::Finished <==> run.results.len() == run.input_count,
{
}

/// A tree is reduced under the version of its own header and under ten times
/// the cost limit of a block.
pub proof fn law_reduction_uses_header_version_and_tenfold_limit(
    run: RunView,
    tree_version: ErgoTreeVersion,
)
    requires
        run.wf(),
        run.action() is ReadTreeVersion,
    ensures
        run.after(EventView::TreeVersion(tree_version)) matches Some(next) && next.action()
            == (Action::Reduce {
            input_index: run.results.len() as usize,
            tree_version,
            jit_cost_limit: (run.max_block_cost * 10) as u64,
        }) && 0 <= run.max_block_cost * 10 <= u64::MAX,
{
}

/// An event of a run keeps the results that are there and adds one at most.
/// What a failed reduction or header has cost is kept.
pub proof fn law_results_are_kept(run: RunView, event: EventView)
    requires
        run.wf(),
    ensures
        match run.after(event) {
            Some(next) => {
                &&& next.wf()
                &&& run.results.is_prefix_of(next.results)
                &&& next.results.len() <= run.results.len() + 1
                &&& event matches EventView::ReduceFailed(cost, _) ==> next.results.last().cost
                    == cost && !next.results.last().is_ok
                &&& event matches EventView::HeaderFailed(cost, _) ==> next.results.last().cost
                    == cost && !next.results.last().is_ok
            },
            None => true,
        },
{
}

/// A run begins without results, at the context of the first input, with the
/// number of inputs and the limit that it was given.
pub proof fn law_start_of_a_run(input_count: nat, max_block_cost: i32)
    ensures
        started(input_count, max_block_cost).input_count == input_count,
        started(input_count, max_block_cost).max_block_cost == max_block_cost,
        started(input_count, max_block_cost).stage == Stage::Context,
        started(input_count, max_block_cost).results.len() == 0,
        input_count <= usize::MAX && (input_count > 0 ==> max_block_cost >= 0) ==> started(
            input_count,
            max_block_cost,
        ).wf(),
{
}

/// Whatever a run asks for, it asks for the input whose index is the number of
/// results so far: its context, then its box, then the header of that box, then
/// the reduction under the version that was read.
pub proof fn law_asks_for_the_next_input(run: RunView)
    requires
        run.wf(),
        run.results.len() < run.input_count,
    ensures
        match run.action() {
            Action::MakeContext { input_index } => input_index == run.results.len() && run.stage
                == Stage::Context,
            Action::FindInputBox { input_index } => input_index == run.results.len() && run.stage
                == Stage::Box,
            Action::ReadTreeVersion { input_index } => input_index == run.results.len()
                && run.stage == Stage::Header,
            Action::Reduce { input_index, tree_version, jit_cost_limit } => input_index
                == run.results.len() && run.stage == Stage::Reduction(tree_version)
                && jit_cost_limit == 10 * run.max_block_cost,
            Action::Finished => false,
        },
{
}

/// An event of a run is one that answers what the run asks for, and there is
/// no other.
pub proof fn law_only_answers_are_events(run: RunView, event: EventView)
    requires
        run.wf(),
    ensures
        run.after(event) is Some <==> match run.action() {
            Action::MakeContext { .. } => event is ContextMade || event is ContextFailed,
            Action::FindInputBox { .. } => event is BoxFound || event is BoxMissing,
            Action::ReadTreeVersion { .. } => event is TreeVersion || event is HeaderFailed,
            Action::Reduce { .. } => event is Reduced || event is ReduceFailed,
            Action::Finished => false,
        },
{
}

/// What an event of a run does. A good answer brings the input one stage
/// further and adds no result; the other answers end the input with one result,
/// and the run turns to the context of the next. The number of inputs and the
/// limit stay.
pub proof fn law_events_of_a_run(run: RunView, event: EventView)
    requires
        run.wf(),
        run.after(event) is Some,
    ensures
        ({
            let next = run.after(event)->Some_0;
            let last = next.results.last();
            let ended = next.results.len() == run.results.len() + 1 && next.stage == Stage::Context
                && next.results.drop_last() == run.results;
            let goes_on = next.results == run.results;
            &&& next.input_count == run.input_count
            &&& next.max_block_cost == run.max_block_cost
            &&& match event {
                EventView::ContextMade => goes_on && next.stage == Stage::Box,
                EventView::BoxFound => goes_on && next.stage == Stage::Header,
                EventView::TreeVersion(version) => goes_on && next.stage == Stage::Reduction(
                    version,
                ),
                EventView::ContextFailed(e) => ended && last.cost == 0 && !last.is_ok
                    && last.error_msg == Some("make_context failed: "@ + e),
                EventView::BoxMissing => ended && last.cost == 0 && !last.is_ok && last.error_msg
                    == Some(
                    "input box not found for input_index="@ + text::decimal(run.results.len()),
                ),
                EventView::HeaderFailed(cost, e) => ended && last.cost == cost && !last.is_ok
                    && last.error_msg == Some("ergo_tree.header() failed: "@ + e),
                EventView::Reduced(cost) => ended && last.cost == cost && last.is_ok
                    && last.error_msg is None,
                EventView::ReduceFailed(cost, e) => ended && last.cost == cost && !last.is_ok
                    && last.error_msg == Some(e),
            }
        }),
{
    let next = run.after(event)->Some_0;
    if next.results.len() > run.results.len() {
        assert(next.results.drop_last() =~= run.results);
    }
}

/// An event stands for itself, over its texts.
pub proof fn law_events_stand_for_themselves(e: Event)
    ensures
        match e {
            Event::ContextMade => e@ is ContextMade,
            Event::ContextFailed(s) => e@ == EventView::ContextFailed(s@),
            Event::BoxFound => e@ is BoxFound,
            Event::BoxMissing => e@ is BoxMissing,
            Event::TreeVersion(v) => e@ == EventView::TreeVersion(v),
            Event::HeaderFailed(c, s) => e@ == EventView::HeaderFailed(c, s@),
            Event::Reduced(c) => e@ == EventView::Reduced(c),
            Event::ReduceFailed(c, s) => e@ == EventView::ReduceFailed(c, s@),
        },
{
}

/// A tree that is nothing but a trivial proposition.
pub fn trivial_sigma_prop_tree(value: bool) -> (r: ErgoTree)
    ensures
        r == (ErgoTree {
            version: ErgoTreeVersion { version: 0 },
            constant_segregation: false,
            root: Expr::Const(
                Constant {
                    tpe: SType::SSigmaProp,
                    v: Literal::SigmaProp(SigmaBoolean::TrivialProp(value)),
                },
            ),
        }),
{
    ErgoTree {
        version: ErgoTreeVersion { version: 0 },
        constant_segregation: false,
        root: Expr::Const(
            Constant {
                tpe: SType::SSigmaProp,
                v: Literal::SigmaProp(SigmaBoolean::TrivialProp(value)),
            },
        ),
    }
}

/// A candidate with a value and a tree and nothing else.
pub open spec fn bare(b: ErgoBoxCandidate, value: u64, tree: ErgoTree) -> bool {
    &&& b.value == value
    &&& b.ergo_tree == tree
    &&& b.tokens is None
    &&& b.additional_registers@.len() == 0
    &&& b.creation_height == 0
}

fn bare_candidate(tree: ErgoTree, value: u64) -> (r: ErgoBoxCandidate)
    ensures
        bare(r, value, tree),
{
    ErgoBoxCandidate {
        value,
        ergo_tree: tree,
        tokens: None,
        additional_registers: Vec::new(),
        creation_height: 0,
    }
}

/// A box guarded by `tree`: the first output of the transaction whose id is
/// all zeros.
pub fn ergo_box_with_tree(tree: ErgoTree, value: u64) -> (r: OutputBox)
    ensures
        bare(r.candidate, value, tree),
        all_zeros(r.transaction_id@, 32),
        r.index == 0,
{
    OutputBox { candidate: bare_candidate(tree, value), transaction_id: [0;32], index: 0 }
}

/// A transaction that spends `input_box` and gives its value back to the same
/// tree. It carries no proof.
pub fn one_input_one_output_tx(input_box: SpentBox) -> (r: Transaction)
    ensures
        r.inputs@.len() == 1,
        r.inputs@[0].box_id == input_box.box_id,
        r.inputs@[0].proof@.len() == 0,
        r.inputs@[0].extension@.len() == 0,
        r.data_inputs is None,
        r.output_candidates@.len() == 1,
        bare(r.output_candidates@[0], input_box.value, input_box.ergo_tree),
{
    let mut inputs: Vec<Input> = Vec::new();
    inputs.push(
        Input { box_id: input_box.box_id, proof: Vec::new(), extension: Vec::new() },
    );
    let mut output_candidates: Vec<ErgoBoxCandidate> = Vec::new();
    output_candidates.push(bare_candidate(input_box.ergo_tree, input_box.value));
    Transaction { inputs, data_inputs: None, output_candidates }
}

/// Parameters with the given values.
pub fn parameters_new(
    block_version: i32,
    storage_fee_factor: i32,
    min_value_per_byte: i32,
    max_block_size: i32,
    max_block_cost: i32,
    token_access_cost: i32,
    input_cost: i32,
    data_input_cost: i32,
    output_cost: i32,
) -> (r: Parameters)
    ensures
        r == (Parameters {
            block_version,
            storage_fee_factor,
            min_value_per_byte,
            max_block_size,
            max_block_cost,
            token_access_cost,
            input_cost,
            data_input_cost,
            output_cost,
        }),
{
    Parameters {
        block_version,
        storage_fee_factor,
        min_value_per_byte,
        max_block_size,
        max_block_cost,
        token_access_cost,
        input_cost,
        data_input_cost,
        output_cost,
    }
}

/// `n` zero bytes.
pub open spec fn all_zeros(bytes: Seq<u8>, n: nat) -> bool {
    bytes.len() == n && forall|i: int| 0 <= i < n ==> bytes[i] == 0
}

/// The base point of secp256k1, in compressed form.
pub open spec fn generator() -> Seq<u8> {
    seq![
        0x02u8, 0x79, 0xbe, 0x66, 0x7e, 0xf9, 0xdc, 0xbb, 0xac, 0x55, 0xa0, 0x62, 0x95, 0xce, 0x87,
        0x0b, 0x07, 0x02, 0x9b, 0xfc, 0xdb, 0x2d, 0xce, 0x28, 0xd9, 0x59, 0xf2, 0x81, 0x5b, 0x16,
        0xf8, 0x17, 0x98,
    ]
}

/// The header of a first block with nothing in it: its digests are zeros and
/// its miner is the base point.
pub open spec fn is_synth_header(h: Header) -> bool {
    &&& h.version == 1
    &&& all_zeros(h.id@, 32)
    &&& all_zeros(h.parent_id@, 32)
    &&& all_zeros(h.ad_proofs_root@, 32)
    &&& all_zeros(h.state_root@, 33)
    &&& all_zeros(h.transaction_root@, 32)
    &&& h.timestamp == 0
    &&& h.n_bits == 0
    &&& h.height == 1
    &&& all_zeros(h.extension_root@, 32)
    &&& h.autolykos_solution.miner_pk@ == generator()
    &&& h.autolykos_solution.pow_onetime_pk is None
    &&& h.autolykos_solution.nonce@.len() == 0
    &&& h.autolykos_solution.pow_distance is None
    &&& all_zeros(h.votes@, 3)
    &&& h.unparsed_bytes@.len() == 0
}

fn synth_header() -> (r: Header)
    ensures
        is_synth_header(r),
{
    let miner_pk: Vec<u8> = vec![
        0x02, 0x79, 0xbe, 0x66, 0x7e, 0xf9, 0xdc, 0xbb, 0xac, 0x55, 0xa0, 0x62, 0x95, 0xce, 0x87,
        0x0b, 0x07, 0x02, 0x9b, 0xfc, 0xdb, 0x2d, 0xce, 0x28, 0xd9, 0x59, 0xf2, 0x81, 0x5b, 0x16,
        0xf8, 0x17, 0x98,
    ];
    assert(miner_pk@ =~= generator());
    Header {
        version: 1,
        id: [0;32],
        parent_id: [0;32],
        ad_proofs_root: [0;32],
        state_root: [0;33],
        transaction_root: [0;32],
        timestamp: 0,
        n_bits: 0,
        height: 1,
        extension_root: [0;32],
        autolykos_solution: AutolykosSolution {
            miner_pk,
            pow_onetime_pk: None,
            nonce: Vec::new(),
            pow_distance: None,
        },
        votes: [0;3],
        unparsed_bytes: Vec::new(),
    }
}

/// A state with the given parameters whose headers are all the same header of
/// a first block.
pub fn synthetic_state_context(parameters: &Parameters) -> (r: ErgoStateContext)
    ensures
        r.parameters == *parameters,
        is_synth_header(r.pre_header),
        r.headers@.len() == 10,
        forall|i: int| 0 <= i < 10 ==> is_synth_header(#[trigger] r.headers@[i]),
{
    let mut headers: Vec<Header> = Vec::new();
    while headers.len() < 10
        invariant
            headers@.len() <= 10,
            forall|i: int| 0 <= i < headers@.len() ==> is_synth_header(#[trigger] headers@[i]),
        decreases 10 - headers@.len(),
    {
        headers.push(synth_header());
    }
    ErgoStateContext { pre_header: synth_header(), headers, parameters: *parameters }
}

/// A bare candidate holds its value and its tree, and no token, register or
/// height.
pub proof fn law_bare_candidates(b: ErgoBoxCandidate, value: u64, tree: ErgoTree)
    ensures
        bare(b, value, tree) <==> b.value == value && b.ergo_tree == tree && b.tokens is None
            && b.additional_registers@ == Seq::<Constant>::empty() && b.creation_height == 0,
{
    if b.additional_registers@.len() == 0 {
        assert(b.additional_registers@ =~= Seq::<Constant>::empty());
    }
}

/// Number that bytes are, the most significant first.
pub open spec fn big_endian(bytes: Seq<u8>) -> nat
    decreases bytes.len(),
{
    if bytes.len() == 0 {
        0
    } else {
        256 * big_endian(bytes.drop_last()) + bytes.last() as nat
    }
}

/// The base point in compressed form: the sign of an even ordinate, then the
/// abscissa in 32 bytes, in four words.
pub proof fn law_generator()
    ensures
        generator().len() == 33,
        generator()[0] == 2,
        big_endian(generator().subrange(1, 9)) == 0x79be667ef9dcbbac,
        big_endian(generator().subrange(9, 17)) == 0x55a06295ce870b07,
        big_endian(generator().subrange(17, 25)) == 0x029bfcdb2dce28d9,
        big_endian(generator().subrange(25, 33)) == 0x59f2815b16f81798,
{
    lemma_word(1, 0x79, 0xbe, 0x66, 0x7e, 0xf9, 0xdc, 0xbb, 0xac);
    lemma_word(9, 0x55, 0xa0, 0x62, 0x95, 0xce, 0x87, 0x0b, 0x07);
    lemma_word(17, 0x02, 0x9b, 0xfc, 0xdb, 0x2d, 0xce, 0x28, 0xd9);
    lemma_word(25, 0x59, 0xf2, 0x81, 0x5b, 0x16, 0xf8, 0x17, 0x98);
}

proof fn lemma_word(i: int, a: u8, b: u8, c: u8, d: u8, e: u8, f: u8, g: u8, h: u8)
    requires
        0 <= i <= 25,
        generator()[i] == a,
        generator()[i + 1] == b,
        generator()[i + 2] == c,
        generator()[i + 3] == d,
        generator()[i + 4] == e,
        generator()[i + 5] == f,
        generator()[i + 6] == g,
        generator()[i + 7] == h,
    ensures
        big_endian(generator().subrange(i, i + 8)) == 256 * (256 * (256 * (256 * (256 * (256 * (256
            * a + b) + c) + d) + e) + f) + g) + h,
{
    let s = generator();
    assert(s.subrange(i, i) =~= Seq::empty());
    assert(s.subrange(i, i + 1).drop_last() =~= s.subrange(i, i));
    assert(s.subrange(i, i + 2).drop_last() =~= s.subrange(i, i + 1));
    assert(s.subrange(i, i + 3).drop_last() =~= s.subrange(i, i + 2));
    assert(s.subrange(i, i + 4).drop_last() =~= s.subrange(i, i + 3));
    assert(s.subrange(i, i + 5).drop_last() =~= s.subrange(i, i + 4));
    assert(s.subrange(i, i + 6).drop_last() =~= s.subrange(i, i + 5));
    assert(s.subrange(i, i + 7).drop_last() =~= s.subrange(i, i + 6));
    assert(s.subrange(i, i + 8).drop_last() =~= s.subrange(i, i + 7));
    assert(big_endian(s.subrange(i, i)) == 0);
    assert(big_endian(s.subrange(i, i + 1)) == a);
    assert(big_endian(s.subrange(i, i + 2)) == 256 * big_endian(s.subrange(i, i + 1)) + b);
    assert(big_endian(s.subrange(i, i + 3)) == 256 * big_endian(s.subrange(i, i + 2)) + c);
    assert(big_endian(s.subrange(i, i + 4)) == 256 * big_endian(s.subrange(i, i + 3)) + d);
    assert(big_endian(s.subrange(i, i + 5)) == 256 * big_endian(s.subrange(i, i + 4)) + e);
    assert(big_endian(s.subrange(i, i + 6)) == 256 * big_endian(s.subrange(i, i + 5)) + f);
    assert(big_endian(s.subrange(i, i + 7)) == 256 * big_endian(s.subrange(i, i + 6)) + g);
}

/// A header of a first block with nothing in it has version 1 and height 1.
/// Every other number, every byte of its digests and votes is zero, nothing
/// optional is there, and its miner is the base point.
pub proof fn law_synthetic_headers(h: Header)
    requires
        is_synth_header(h),
    ensures
        h.version == 1,
        h.height == 1,
        h.timestamp == 0,
        h.n_bits == 0,
        forall|i: int| #![trigger h.id@[i]] 0 <= i < 32 ==> h.id@[i] == 0,
        forall|i: int| #![trigger h.parent_id@[i]] 0 <= i < 32 ==> h.parent_id@[i] == 0,
        forall|i: int| #![trigger h.ad_proofs_root@[i]] 0 <= i < 32 ==> h.ad_proofs_root@[i] == 0,
        forall|i: int| #![trigger h.state_root@[i]] 0 <= i < 33 ==> h.state_root@[i] == 0,
        forall|i: int|
            #![trigger h.transaction_root@[i]]
            0 <= i < 32 ==> h.transaction_root@[i] == 0,
        forall|i: int| #![trigger h.extension_root@[i]] 0 <= i < 32 ==> h.extension_root@[i] == 0,
        forall|i: int| #![trigger h.votes@[i]] 0 <= i < 3 ==> h.votes@[i] == 0,
        h.autolykos_solution.miner_pk@ == generator(),
        h.autolykos_solution.pow_onetime_pk is None,
        h.autolykos_solution.nonce@.len() == 0,
        h.autolykos_solution.pow_distance is None,
        h.unparsed_bytes@.len() == 0,
{
}

/// Zero bytes are as many as they are said to be, and all zero.
pub proof fn law_zero_bytes(bytes: Seq<u8>, n: nat)
    ensures
        all_zeros(bytes, n) <==> bytes.len() == n && !exists|i: int|
            0 <= i < bytes.len() && #[trigger] bytes[i] != 0,
{
}

} // verus!
