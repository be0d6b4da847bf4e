//! Deterministic fake provider: replays the scripted wire chunks of a fixture.
//!
//! Replay is byte for byte: a chunk authored as a JSON value is serialized at delivery, a chunk
//! authored as a raw string is delivered as it is. One chunk delivery is one tick, and a control
//! action at a chunk is observed in the same tick as the chunk.
use crate::ids::{debug_form, debug_text};
use crate::json::{json_text, json_tree, text_of_value, JsonView};
use crate::error::ProviderErrorKind;
use crate::provider::{Dialect, FinishReason, ServedModelEvidence, Usage};
use crate::text::{dec, decimal, opt_view, same, views};
use vstd::prelude::*;
use vstd::string::*;

verus! {

/// A wire chunk: structured JSON serialized at delivery, or raw text.
#[derive(Debug)]
pub enum ChunkSpec {
    Raw(String),
    Json(serde_json::Value),
}

/// The view of a `ChunkSpec`.
pub enum ChunkSpecView {
    Raw(Seq<char>),
    Json(JsonView),
}

impl View for ChunkSpec {
    type V = ChunkSpecView;

    open spec fn view(&self) -> ChunkSpecView {
        match self {
            ChunkSpec::Raw(x) => ChunkSpecView::Raw(x@),
            ChunkSpec::Json(x) => ChunkSpecView::Json(json_tree(*x)),
        }
    }
}

/// The text of a chunk.
pub open spec fn chunk_text(chunk: ChunkSpecView) -> Seq<char> {
    match chunk {
        ChunkSpecView::Raw(s) => s,
        ChunkSpecView::Json(v) => json_text(v),
    }
}

impl ChunkSpec {
    /// The text of the chunk.
    pub fn render(&self) -> (r: String)
        ensures
            r@ == chunk_text(self@),
    {
        match self {
            ChunkSpec::Raw(s) => s.clone(),
            ChunkSpec::Json(v) => text_of_value(v),
        }
    }
}

/// What a control action does.
#[derive(Clone, Copy, Debug, PartialEq, Eq, Structural)]
pub enum ControlKind {
    Cancel,
}

/// An action that lands in the tick of a chunk.
#[derive(Debug)]
pub struct ControlAction {
    pub turn: usize,
    pub at_chunk: usize,
    pub action: ControlKind,
}

/// The view of a `ControlAction`.
pub struct ControlActionView {
    pub turn: usize,
    pub at_chunk: usize,
    pub action: ControlKind,
}

impl View for ControlAction {
    type V = ControlActionView;

    open spec fn view(&self) -> ControlActionView {
        ControlActionView {
            turn: self.turn,
            at_chunk: self.at_chunk,
            action: self.action,
        }
    }
}

/// One scripted answer.
#[derive(Debug)]
pub struct Attempt {
    pub chunks: Vec<ChunkSpec>,
}

/// The view of a `Attempt`.
pub struct AttemptView {
    pub chunks: Seq<ChunkSpecView>,
}

impl View for Attempt {
    type V = AttemptView;

    open spec fn view(&self) -> AttemptView {
        AttemptView {
            chunks: self.chunks@.map_values(|x: ChunkSpec| x@),
        }
    }
}

/// The successive answers to retries of a turn. A request past the last one replays the last one.
#[derive(Debug)]
pub struct Turn {
    pub attempts: Vec<Attempt>,
}

/// The view of a `Turn`.
pub struct TurnView {
    pub attempts: Seq<AttemptView>,
}

impl View for Turn {
    type V = TurnView;

    open spec fn view(&self) -> TurnView {
        TurnView {
            attempts: self.attempts@.map_values(|x: Attempt| x@),
        }
    }
}

/// A tool call that a turn must give.
#[derive(Debug)]
pub struct ExpectToolCall {
    pub tool_call_id: String,
    pub tool_name: String,
    /// Held against the parsed arguments, so that it does not depend on how they were split.
    pub arguments: serde_json::Value,
}

/// The view of an `ExpectToolCall`.
pub struct ExpectToolCallView {
    pub tool_call_id: Seq<char>,
    pub tool_name: Seq<char>,
    pub arguments: JsonView,
}

impl View for ExpectToolCall {
    type V = ExpectToolCallView;

    open spec fn view(&self) -> ExpectToolCallView {
        ExpectToolCallView {
            tool_call_id: self.tool_call_id@,
            tool_name: self.tool_name@,
            arguments: json_tree(self.arguments),
        }
    }
}

/// What a turn must give: exactly the parts that are present are held against the stream.
#[derive(Debug)]
pub struct Expect {
    pub text: Option<String>,
    pub tool_calls: Option<Vec<ExpectToolCall>>,
    pub finish_reason: Option<FinishReason>,
    pub usage: Option<Usage>,
    pub error_kind: Option<ProviderErrorKind>,
    /// `malformed` or `ordering_violation`.
    pub defect: Option<String>,
    pub quarantined: Option<u64>,
    /// The quarantined event types, in the order of arrival.
    pub quarantined_types: Option<Vec<String>>,
    pub served_model_id: Option<String>,
    pub served_model_evidence: Option<ServedModelEvidence>,
    /// Tool calls that were started and must be cancelled.
    pub cancelled_tool_calls: Option<Vec<String>>,
    /// How many attempts the retry rule allows.
    pub attempts: Option<u64>,
}

/// The view of an `Expect`.
pub struct ExpectView {
    pub text: Option<Seq<char>>,
    pub tool_calls: Option<Seq<ExpectToolCallView>>,
    pub finish_reason: Option<FinishReason>,
    pub usage: Option<Usage>,
    pub error_kind: Option<ProviderErrorKind>,
    pub defect: Option<Seq<char>>,
    pub quarantined: Option<u64>,
    pub quarantined_types: Option<Seq<Seq<char>>>,
    pub served_model_id: Option<Seq<char>>,
    pub served_model_evidence: Option<ServedModelEvidence>,
    pub cancelled_tool_calls: Option<Seq<Seq<char>>>,
    pub attempts: Option<u64>,
}

/// The view of an optional list of texts.
pub open spec fn opt_views(o: Option<Vec<String>>) -> Option<Seq<Seq<char>>> {
    match o {
        Some(list) => Some(views(list@)),
        None => None,
    }
}

impl View for Expect {
    type V = ExpectView;

    open spec fn view(&self) -> ExpectView {
        ExpectView {
            text: opt_view(self.text),
            tool_calls: match self.tool_calls {
                Some(list) => Some(list@.map_values(|x: ExpectToolCall| x@)),
                None => None,
            },
            finish_reason: self.finish_reason,
            usage: self.usage,
            error_kind: self.error_kind,
            defect: opt_view(self.defect),
            quarantined: self.quarantined,
            quarantined_types: opt_views(self.quarantined_types),
            served_model_id: opt_view(self.served_model_id),
            served_model_evidence: self.served_model_evidence,
            cancelled_tool_calls: opt_views(self.cancelled_tool_calls),
            attempts: self.attempts,
        }
    }
}

/// A scripted provider session.
#[derive(Debug)]
pub struct Fixture {
    /// Unique across the catalog, with its dialect.
    pub fixture_id: String,
    pub scenario_id: String,
    pub dialect: Dialect,
    pub description: String,
    pub context_window_tokens: Option<u64>,
    pub turns: Vec<Turn>,
    pub control: Vec<ControlAction>,
    /// What each turn must give.
    pub expect: Vec<Expect>,
}

/// The view of a `Fixture`.
pub struct FixtureView {
    pub fixture_id: Seq<char>,
    pub scenario_id: Seq<char>,
    pub dialect: Dialect,
    pub description: Seq<char>,
    pub context_window_tokens: Option<u64>,
    pub turns: Seq<TurnView>,
    pub control: Seq<ControlActionView>,
    pub expect: Seq<ExpectView>,
}

impl View for Fixture {
    type V = FixtureView;

    open spec fn view(&self) -> FixtureView {
        FixtureView {
            fixture_id: self.fixture_id@,
            scenario_id: self.scenario_id@,
            dialect: self.dialect,
            description: self.description@,
            context_window_tokens: self.context_window_tokens,
            turns: self.turns@.map_values(|x: Turn| x@),
            control: self.control@.map_values(|x: ControlAction| x@),
            expect: self.expect@.map_values(|x: Expect| x@),
        }
    }
}

/// One delivery tick.
#[derive(Debug, PartialEq, Eq)]
pub struct TickDelivery {
    pub chunk: String,
    /// Whether a cancel lands in this tick.
    pub cancel: bool,
}

/// The view of a `TickDelivery`.
pub struct TickDeliveryView {
    pub chunk: Seq<char>,
    pub cancel: bool,
}

impl View for TickDelivery {
    type V = TickDeliveryView;

    open spec fn view(&self) -> TickDeliveryView {
        TickDeliveryView {
            chunk: self.chunk@,
            cancel: self.cancel,
        }
    }
}

#[derive(Debug, PartialEq, Eq)]
pub enum FixtureError {
    NoSuchTurn(usize),
    /// A turn with no scripted attempts.
    EmptyTurn(usize),
}

/// Whether a cancel lands at a chunk of a turn.
pub open spec fn cancels(control: Seq<ControlActionView>, turn: usize, at: int) -> bool {
    exists|k: int|
        0 <= k < control.len() && (#[trigger] control[k]).turn == turn && control[k].at_chunk == at
            && control[k].action == ControlKind::Cancel
}

/// Which attempt answers a request after `served` earlier ones: the next, up to the last.
pub open spec fn attempt_index(served: int, attempts: int) -> int {
    if served < attempts {
        served
    } else {
        attempts - 1
    }
}

/// The ticks of an attempt.
pub open spec fn ticks_of(f: FixtureView, turn: usize, attempt: AttemptView) -> Seq<TickDeliveryView> {
    Seq::new(
        attempt.chunks.len(),
        |i: int|
            TickDeliveryView {
                chunk: chunk_text(attempt.chunks[i]),
                cancel: cancels(f.control, turn, i),
            },
    )
}

/// The fake provider of a fixture.
#[derive(Debug)]
pub struct FakeProvider {
    fixture: Fixture,
    served: Vec<usize>,
}

/// The view of a `FakeProvider`.
pub struct FakeProviderView {
    pub fixture: FixtureView,
    pub served: Seq<usize>,
}

impl View for FakeProvider {
    type V = FakeProviderView;

    closed spec fn view(&self) -> FakeProviderView {
        FakeProviderView { fixture: self.fixture@, served: self.served@ }
    }
}

impl FakeProvider {
    /// One count for each turn.
    pub open spec fn counts_turns(self) -> bool {
        self@.served.len() == self@.fixture.turns.len()
    }

    /// A provider that has served nothing.
    pub fn new(fixture: Fixture) -> (r: Self)
        ensures
            r@.fixture == fixture@,
            r@.served == Seq::new(fixture@.turns.len(), |i: int| 0usize),
            r.counts_turns(),
    {
        let mut served: Vec<usize> = Vec::new();
        let mut i: usize = 0;
        while i < fixture.turns.len()
            invariant
                i <= fixture.turns.len(),
                served.len() == i,
                forall|k: int| 0 <= k < i ==> served@[k] == 0,
            decreases fixture.turns.len() - i,
        {
            served.push(0);
            i += 1;
        }
        let r = FakeProvider { fixture, served };
        proof {
            assert(r@.served =~= Seq::new(fixture@.turns.len(), |i: int| 0usize));
        }
        r
    }

    /// The fixture.
    pub fn fixture(&self) -> (r: &Fixture)
        ensures
            r@ == self@.fixture,
    {
        &self.fixture
    }

    fn cancels_at(&self, turn: usize, at: usize) -> (r: bool)
        ensures
            r == cancels(self@.fixture.control, turn, at as int),
    {
        let ghost control = self@.fixture.control;
        let mut k: usize = 0;
        while k < self.fixture.control.len()
            invariant
                k <= self.fixture.control.len(),
                control == self@.fixture.control,
                forall|j: int|
                    0 <= j < k ==> !((#[trigger] control[j]).turn == turn && control[j].at_chunk
                        == at && control[j].action == ControlKind::Cancel),
            decreases self.fixture.control.len() - k,
        {
            let c = &self.fixture.control[k];
            proof {
                assert(control[k as int] == c@);
            }
            if c.turn == turn && c.at_chunk == at && c.action == ControlKind::Cancel {
                return true;
            }
            k += 1;
        }
        false
    }

    /// Opens the next scripted attempt of a turn. Repeated calls advance through the attempts
    /// and stay on the last.
    pub fn open_stream(&mut self, turn: usize) -> (r: Result<Vec<TickDelivery>, FixtureError>)
        requires
            old(self).counts_turns(),
            turn < old(self)@.served.len() ==> old(self)@.served[turn as int] < usize::MAX,
        ensures
            final(self)@.fixture == old(self)@.fixture,
            final(self).counts_turns(),
            match r {
                Ok(ticks) => {
                    let script = old(self)@.fixture.turns[turn as int];
                    let n = old(self)@.served[turn as int];
                    &&& turn < old(self)@.fixture.turns.len()
                    &&& script.attempts.len() > 0
                    &&& ticks@.map_values(|t: TickDelivery| t@) == ticks_of(
                        old(self)@.fixture,
                        turn,
                        script.attempts[attempt_index(n as int, script.attempts.len() as int)],
                    )
                    &&& final(self)@.served == old(self)@.served.update(
                        turn as int,
                        (n + 1) as usize,
                    )
                },
                Err(FixtureError::NoSuchTurn(t)) => t == turn && turn >= old(
                    self,
                )@.fixture.turns.len() && final(self)@ == old(self)@,
                Err(FixtureError::EmptyTurn(t)) => {
                    &&& t == turn
                    &&& turn < old(self)@.fixture.turns.len()
                    &&& old(self)@.fixture.turns[turn as int].attempts.len() == 0
                    &&& final(self)@ == old(self)@
                },
            },
    {
        if turn >= self.fixture.turns.len() {
            return Err(FixtureError::NoSuchTurn(turn));
        }
        let ghost f = self@.fixture;
        let script = &self.fixture.turns[turn];
        proof {
            assert(f.turns[turn as int] == script@);
        }
        if script.attempts.len() == 0 {
            return Err(FixtureError::EmptyTurn(turn));
        }
        let n: usize = self.served[turn];
        let index: usize = if n < script.attempts.len() {
            n
        } else {
            script.attempts.len() - 1
        };
        let attempt = &script.attempts[index];
        proof {
            assert(script@.attempts[index as int] == attempt@);
        }
        let mut ticks: Vec<TickDelivery> = Vec::new();
        let ghost wanted = ticks_of(f, turn, attempt@);
        let mut i: usize = 0;
        while i < attempt.chunks.len()
            invariant
                i <= attempt.chunks.len(),
                f == self@.fixture,
                turn < f.turns.len(),
                index < f.turns[turn as int].attempts.len(),
                f.turns[turn as int].attempts[index as int] == attempt@,
                wanted == ticks_of(f, turn, attempt@),
                ticks.len() == i,
                forall|k: int| 0 <= k < i ==> (#[trigger] ticks@[k])@ == wanted[k],
            decreases attempt.chunks.len() - i,
        {
            proof {
                assert(attempt@.chunks[i as int] == attempt.chunks@[i as int]@);
            }
            ticks.push(
                TickDelivery { chunk: attempt.chunks[i].render(), cancel: self.cancels_at(turn, i) },
            );
            i += 1;
        }
        proof {
            assert(ticks@.map_values(|t: TickDelivery| t@) =~= wanted);
        }
        self.served.set(turn, n + 1);
        Ok(ticks)
    }

    /// How many attempts have been requested for a turn; none for a turn that is not there.
    pub fn attempts_served(&self, turn: usize) -> (r: usize)
        ensures
            r == (if turn < self@.served.len() {
                self@.served[turn as int]
            } else {
                0
            }),
    {
        if turn < self.served.len() {
            self.served[turn]
        } else {
            0
        }
    }
}

// --- The catalog ---------------------------------------------------------------------------------

/// Whether a name is a scenario of the closed catalog.
pub open spec fn is_scenario_name(s: Seq<char>) -> bool {
    ||| s == "fragmented_stream"@
    ||| s == "tool_call_single"@
    ||| s == "tool_call_parallel"@
    ||| s == "tool_call_sequential_dependent"@
    ||| s == "typed_error"@
    ||| s == "retry_ceiling"@
    ||| s == "cancellation_mid_stream"@
    ||| s == "cancellation_mid_tool_call"@
    ||| s == "cancellation_race"@
    ||| s == "usage_accounting"@
    ||| s == "context_limit_truncation"@
    ||| s == "malformed_event"@
    ||| s == "out_of_order_event"@
}

/// Whether a name is a scenario of the closed catalog.
pub fn is_scenario(s: &str) -> (r: bool)
    ensures
        r == is_scenario_name(s@),
{
    same(s, "fragmented_stream") || same(s, "tool_call_single") || same(s, "tool_call_parallel")
        || same(s, "tool_call_sequential_dependent") || same(s, "typed_error")
        || same(s, "retry_ceiling") || same(s, "cancellation_mid_stream")
        || same(s, "cancellation_mid_tool_call") || same(s, "cancellation_race")
        || same(s, "usage_accounting") || same(s, "context_limit_truncation")
        || same(s, "malformed_event") || same(
        s,
        "out_of_order_event",
    )
}

/// Whether a fixture has no turns, or a turn without attempts.
pub open spec fn has_empty_turn(f: FixtureView) -> bool {
    f.turns.len() == 0 || exists|i: int|
        0 <= i < f.turns.len() && (#[trigger] f.turns[i]).attempts.len() == 0
}

/// Whether an earlier fixture has the id of another, in its dialect.
pub open spec fn repeats_id(earlier: Seq<FixtureView>, f: FixtureView) -> bool {
    exists|k: int|
        0 <= k < earlier.len() && (#[trigger] earlier[k]).dialect == f.dialect
            && earlier[k].fixture_id == f.fixture_id
}

/// The fault of a fixture after the earlier ones of its catalog, if it has one.
pub open spec fn fixture_fault(path: Seq<char>, f: FixtureView, earlier: Seq<FixtureView>) -> Option<
    Seq<char>,
> {
    if has_empty_turn(f) {
        Some("fixture "@ + path + " has an empty turn or attempt list"@)
    } else if f.expect.len() != f.turns.len() {
        Some(
            "fixture "@ + path + ": "@ + dec(f.expect.len()) + " expect blocks for "@ + dec(
                f.turns.len(),
            ) + " turns"@,
        )
    } else if !is_scenario_name(f.scenario_id) {
        Some("fixture "@ + path + " names unknown scenario "@ + debug_form(f.scenario_id))
    } else if repeats_id(earlier, f) {
        Some("duplicate fixture id "@ + debug_form(f.fixture_id))
    } else {
        None
    }
}

/// The views of a catalog.
pub open spec fn catalog_views(catalog: Seq<Fixture>) -> Seq<FixtureView> {
    catalog.map_values(|f: Fixture| f@)
}

fn empty_turn(f: &Fixture) -> (r: bool)
    ensures
        r == has_empty_turn(f@),
{
    if f.turns.len() == 0 {
        return true;
    }
    let ghost turns = f@.turns;
    let mut i: usize = 0;
    while i < f.turns.len()
        invariant
            i <= f.turns.len(),
            turns == f@.turns,
            forall|k: int| 0 <= k < i ==> (#[trigger] turns[k]).attempts.len() > 0,
        decreases f.turns.len() - i,
    {
        proof {
            assert(turns[i as int] == f.turns@[i as int]@);
        }
        if f.turns[i].attempts.len() == 0 {
            return true;
        }
        i += 1;
    }
    false
}

fn is_repeated(catalog: &Vec<Fixture>, f: &Fixture) -> (r: bool)
    ensures
        r == repeats_id(catalog_views(catalog@), f@),
{
    let ghost all = catalog_views(catalog@);
    let mut k: usize = 0;
    while k < catalog.len()
        invariant
            k <= catalog.len(),
            all == catalog_views(catalog@),
            forall|j: int|
                0 <= j < k ==> !((#[trigger] all[j]).dialect == f@.dialect && all[j].fixture_id
                    == f@.fixture_id),
        decreases catalog.len() - k,
    {
        proof {
            assert(all[k as int] == catalog@[k as int]@);
        }
        if catalog[k].dialect == f.dialect && same(&catalog[k].fixture_id, &f.fixture_id) {
            return true;
        }
        k += 1;
    }
    false
}

/// Adds a decoded fixture to a catalog: it has turns with attempts, an expectation for each turn,
/// a known scenario, and an id of its own in its dialect. Otherwise the catalog is as it was.
pub fn add_fixture(catalog: &mut Vec<Fixture>, path: &str, fixture: Fixture) -> (r: Result<
    (),
    String,
>)
    ensures
        ({
            let earlier = catalog_views(old(catalog)@);
            match r {
                Ok(()) => {
                    &&& fixture_fault(path@, fixture@, earlier) is None
                    &&& catalog_views(final(catalog)@) == earlier.push(fixture@)
                },
                Err(e) => {
                    &&& fixture_fault(path@, fixture@, earlier) == Some(e@)
                    &&& final(catalog)@ == old(catalog)@
                },
            }
        }),
{
    if empty_turn(&fixture) {
        let mut e = "fixture ".to_owned();
        e.append(path);
        e.append(" has an empty turn or attempt list");
        return Err(e);
    }
    if fixture.expect.len() != fixture.turns.len() {
        let mut e = "fixture ".to_owned();
        e.append(path);
        e.append(": ");
        e.append(&decimal(fixture.expect.len() as u64));
        e.append(" expect blocks for ");
        e.append(&decimal(fixture.turns.len() as u64));
        e.append(" turns");
        return Err(e);
    }
    if !is_scenario(&fixture.scenario_id) {
        let mut e = "fixture ".to_owned();
        e.append(path);
        e.append(" names unknown scenario ");
        e.append(&debug_text(&fixture.scenario_id));
        return Err(e);
    }
    if is_repeated(catalog, &fixture) {
        let mut e = "duplicate fixture id ".to_owned();
        e.append(&debug_text(&fixture.fixture_id));
        return Err(e);
    }
    let ghost before = catalog_views(catalog@);
    catalog.push(fixture);
    proof {
        assert(catalog_views(catalog@) =~= before.push(fixture@));
    }
    Ok(())
}

/// A file of a catalog: its path, and the fixture that it decodes to or why it does not.
pub type CatalogFile = (String, Result<Fixture, String>);

/// The view of a file of a catalog.
pub open spec fn file_view(file: CatalogFile) -> (Seq<char>, Result<FixtureView, Seq<char>>) {
    (
        file.0@,
        match file.1 {
            Ok(f) => Ok(f@),
            Err(e) => Err(e@),
        },
    )
}

/// The catalog of the first `n` files, or the first fault among them.
pub open spec fn catalog_of(files: Seq<CatalogFile>, n: nat) -> Result<Seq<FixtureView>, Seq<char>>
    decreases n,
{
    if n == 0 {
        Ok(Seq::empty())
    } else {
        match catalog_of(files, (n - 1) as nat) {
            Err(e) => Err(e),
            Ok(earlier) => {
                let (path, decoded) = file_view(files[n - 1]);
                match decoded {
                    Err(e) => Err("fixture "@ + path + " does not decode: "@ + e),
                    Ok(f) => match fixture_fault(path, f, earlier) {
                        Some(e) => Err(e),
                        None => Ok(earlier.push(f)),
                    },
                }
            },
        }
    }
}

proof fn catalog_stops(files: Seq<CatalogFile>, i: nat, n: nat)
    requires
        i <= n,
        catalog_of(files, i) is Err,
    ensures
        catalog_of(files, n) == catalog_of(files, i),
    decreases n - i,
{
    if i < n {
        catalog_stops(files, i, (n - 1) as nat);
    }
}

/// Loads a catalog, file by file: the first fault is reported.
pub fn load_catalog(files: Vec<CatalogFile>) -> (r: Result<Vec<Fixture>, String>)
    ensures
        match r {
            Ok(catalog) => catalog_of(files@, files@.len()) == Ok::<Seq<FixtureView>, Seq<char>>(
                catalog_views(catalog@),
            ),
            Err(e) => catalog_of(files@, files@.len()) == Err::<Seq<FixtureView>, Seq<char>>(e@),
        },
{
    let ghost all = files@;
    let ghost mut n: nat = 0;
    let mut rest = files;
    let mut catalog: Vec<Fixture> = Vec::new();
    proof {
        assert(catalog_views(catalog@) =~= Seq::<FixtureView>::empty());
        assert(all.skip(0) =~= all);
    }
    while rest.len() > 0
        invariant
            all == files@,
            n <= all.len(),
            rest@ == all.skip(n as int),
            catalog_of(all, n) == Ok::<Seq<FixtureView>, Seq<char>>(catalog_views(catalog@)),
        decreases rest.len(),
    {
        let (path, decoded) = rest.remove(0);
        proof {
            assert(all[n as int] == (path, decoded));
            assert(rest@ =~= all.skip(n as int + 1));
        }
        match decoded {
            Ok(fixture) => {
                if let Err(e) = add_fixture(&mut catalog, &path, fixture) {
                    proof {
                        catalog_stops(all, n + 1, all.len());
                    }
                    return Err(e);
                }
            },
            Err(reason) => {
                let mut e = "fixture ".to_owned();
                e.append(&path);
                e.append(" does not decode: ");
                e.append(&reason);
                proof {
                    catalog_stops(all, n + 1, all.len());
                }
                return Err(e);
            },
        }
        proof {
            n = n + 1;
        }
    }
    proof {
        assert(n == all.len());
    }
    Ok(catalog)
}

/// Requests past the last scripted attempt replay it.
pub proof fn attempts_saturate(served: int, attempts: int)
    requires
        0 < attempts <= served,
    ensures
        attempt_index(served, attempts) == attempts - 1,
        attempt_index(served + 1, attempts) == attempts - 1,
{
}

/// What an attempt delivers: one tick for each chunk, in order, with the chunk as its text, or as its
/// JSON; and with the cancel that the fixture lands at that chunk of the turn.
pub proof fn attempts_are_delivered(f: FixtureView, turn: usize, attempt: AttemptView, i: int)
    requires
        0 <= i < attempt.chunks.len(),
    ensures
        ticks_of(f, turn, attempt).len() == attempt.chunks.len(),
        match attempt.chunks[i] {
            ChunkSpecView::Raw(s) => ticks_of(f, turn, attempt)[i].chunk == s,
            ChunkSpecView::Json(v) => ticks_of(f, turn, attempt)[i].chunk == json_text(v),
        },
        ticks_of(f, turn, attempt)[i].cancel <==> exists|k: int|
            0 <= k < f.control.len() && (#[trigger] f.control[k]).turn == turn
                && f.control[k].at_chunk == i && f.control[k].action is Cancel,
{
}

/// Which attempt answers: each in turn, and the last one from then on.
pub proof fn attempts_come_in_turn(served: int, attempts: int)
    requires
        0 <= served,
        0 < attempts,
    ensures
        0 <= attempt_index(served, attempts) < attempts,
        served < attempts ==> attempt_index(served, attempts) == served,
        served >= attempts ==> attempt_index(served, attempts) == attempts - 1,
{
}

/// Which fixtures are taken: one with turns that all have attempts, an expectation for each turn, a
/// scenario of the catalog, and an id that no earlier one of its dialect has.
pub proof fn fixtures_are_taken(path: Seq<char>, f: FixtureView, earlier: Seq<FixtureView>)
    ensures
        fixture_fault(path, f, earlier) is None <==> {
            &&& f.turns.len() > 0
            &&& forall|i: int|
                0 <= i < f.turns.len() ==> (#[trigger] f.turns[i]).attempts.len() > 0
            &&& f.expect.len() == f.turns.len()
            &&& is_known_scenario(f.scenario_id)
            &&& forall|k: int|
                0 <= k < earlier.len() && (#[trigger] earlier[k]).dialect == f.dialect
                    ==> earlier[k].fixture_id != f.fixture_id
        },
{
}

/// Whether a scenario is one of the thirteen of the catalog.
pub open spec fn is_known_scenario(s: Seq<char>) -> bool {
    ||| s == "fragmented_stream"@
    ||| s == "tool_call_single"@
    ||| s == "tool_call_parallel"@
    ||| s == "tool_call_sequential_dependent"@
    ||| s == "typed_error"@
    ||| s == "retry_ceiling"@
    ||| s == "cancellation_mid_stream"@
    ||| s == "cancellation_mid_tool_call"@
    ||| s == "cancellation_race"@
    ||| s == "usage_accounting"@
    ||| s == "context_limit_truncation"@
    ||| s == "malformed_event"@
    ||| s == "out_of_order_event"@
}

/// A catalog that loads holds the fixture of every file, in order, each taken after those before it.
pub proof fn catalogs_hold_every_file(files: Seq<CatalogFile>, n: nat)
    requires
        n <= files.len(),
    ensures
        catalog_of(files, n) is Ok ==> {
            let list = catalog_of(files, n)->Ok_0;
            &&& list.len() == n
            &&& forall|i: int|
                0 <= i < n ==> (#[trigger] files[i]).1 is Ok && list[i] == files[i].1->Ok_0@
                    && fixture_fault(files[i].0@, list[i], list.take(i)) is None
        },
        (forall|i: int| 0 <= i < n ==> (#[trigger] files[i]).1 is Ok) && (forall|i: int|
            0 <= i < n ==> fixture_fault(
                (#[trigger] files[i]).0@,
                files[i].1->Ok_0@,
                Seq::new(i as nat, |k: int| files[k].1->Ok_0@),
            ) is None) ==> catalog_of(files, n) is Ok,
    decreases n,
{
    if n > 0 {
        let m = (n - 1) as nat;
        catalogs_hold_every_file(files, m);
        if catalog_of(files, n) is Ok {
            let front = catalog_of(files, m)->Ok_0;
            let list = catalog_of(files, n)->Ok_0;
            assert(list =~= front.push(files[n - 1].1->Ok_0@));
            assert forall|i: int| 0 <= i < n implies (#[trigger] files[i]).1 is Ok && list[i]
                == files[i].1->Ok_0@ && fixture_fault(files[i].0@, list[i], list.take(i))
                is None by {
                if i < m {
                    assert(list[i] == front[i]);
                    assert(list.take(i) =~= front.take(i));
                } else {
                    assert(list.take(i) =~= front);
                }
            }
        }
        if catalog_of(files, m) is Ok {
            let front = catalog_of(files, m)->Ok_0;
            assert(front =~= Seq::new(m, |k: int| files[k].1->Ok_0@));
        }
    }
}

} // verus!
