//! Fake-effect backend: the scripted external world.
//!
//! Plays the target's side of the effect lifecycle with no real side effects. An outcome can
//! be reported at once, never, or only after an explicit reconcile step. The backend outlives
//! simulated kernel kills, and it logs every dispatch it observes.
use crate::effect::{EffectIntent, EffectTerminal, TargetState};
use crate::ids::Uuid7;
use crate::text::{before, same, text_before, text_order_total, text_order_transitive};
use vstd::prelude::*;
use vstd::string::*;

verus! {

/// How the scripted target resolves one logical operation.
#[derive(Clone, Debug, PartialEq, Eq)]
pub enum ScriptedOutcome {
    /// The target reports this terminal as soon as it is asked.
    Immediate(EffectTerminal),
    /// Compound effect: per-target outcomes that the observer must classify.
    ImmediateTargets(Vec<(String, TargetState)>),
    /// No outcome, ever: dispatch evidence with nothing behind it.
    Never,
    /// Hidden until [`FakeEffectBackend::reconcile`].
    Withheld(EffectTerminal),
}

/// The view of a `ScriptedOutcome`.
pub enum ScriptedOutcomeView {
    Immediate(EffectTerminal),
    ImmediateTargets(Seq<(Seq<char>, TargetState)>),
    Never,
    Withheld(EffectTerminal),
}

/// The view of a list of targets.
pub open spec fn target_views(targets: Seq<(String, TargetState)>) -> Seq<(Seq<char>, TargetState)> {
    Seq::new(targets.len(), |i: int| (targets[i].0@, targets[i].1))
}

impl View for ScriptedOutcome {
    type V = ScriptedOutcomeView;

    open spec fn view(&self) -> ScriptedOutcomeView {
        match self {
            ScriptedOutcome::Immediate(t) => ScriptedOutcomeView::Immediate(*t),
            ScriptedOutcome::ImmediateTargets(v) => ScriptedOutcomeView::ImmediateTargets(
                target_views(v@),
            ),
            ScriptedOutcome::Never => ScriptedOutcomeView::Never,
            ScriptedOutcome::Withheld(t) => ScriptedOutcomeView::Withheld(*t),
        }
    }
}

/// What a query of the target returns. `Unrecognized` is the answer for an operation that the
/// target never received; it is distinct from `Pending`, which says that the target received
/// it and cannot yet tell the outcome.
#[derive(Clone, Debug, PartialEq, Eq)]
pub enum Observation {
    Terminal(EffectTerminal),
    PerTarget(Vec<(String, TargetState)>),
    Pending,
    Unrecognized,
}

/// The view of an `Observation`.
pub enum ObservationView {
    Terminal(EffectTerminal),
    PerTarget(Seq<(Seq<char>, TargetState)>),
    Pending,
    Unrecognized,
}

impl View for Observation {
    type V = ObservationView;

    open spec fn view(&self) -> ObservationView {
        match self {
            Observation::Terminal(t) => ObservationView::Terminal(*t),
            Observation::PerTarget(v) => ObservationView::PerTarget(target_views(v@)),
            Observation::Pending => ObservationView::Pending,
            Observation::Unrecognized => ObservationView::Unrecognized,
        }
    }
}

/// One dispatch as the target saw it.
#[derive(Clone, Debug, PartialEq, Eq)]
pub struct DispatchRecord {
    pub operation_key: String,
    pub effect_intent_id: Uuid7,
}

#[derive(Debug, PartialEq, Eq)]
pub enum FakeEffectError {
    /// Dispatch of an operation key that no script covers.
    UnscriptedKey(String),
}

/// One line of the script: the outcome of a key, and whether a withheld one is revealed.
struct Script {
    key: String,
    outcome: ScriptedOutcome,
    revealed: bool,
}

/// The scripted target.
pub struct FakeEffectBackend {
    scripts: Vec<Script>,
    dispatches: Vec<DispatchRecord>,
}

/// What the target holds: for each scripted key its outcome and whether it is revealed, and
/// the keys and intents of the dispatches in order.
pub struct BackendView {
    pub scripts: Map<Seq<char>, (ScriptedOutcomeView, bool)>,
    pub dispatches: Seq<(Seq<char>, Uuid7)>,
}

spec fn script_map(scripts: Seq<Script>) -> Map<Seq<char>, (ScriptedOutcomeView, bool)>
    decreases scripts.len(),
{
    if scripts.len() == 0 {
        Map::empty()
    } else {
        script_map(scripts.drop_last()).insert(
            scripts.last().key@,
            (scripts.last().outcome@, scripts.last().revealed),
        )
    }
}

impl View for FakeEffectBackend {
    type V = BackendView;

    closed spec fn view(&self) -> BackendView {
        BackendView {
            scripts: script_map(self.scripts@),
            dispatches: Seq::new(
                self.dispatches@.len(),
                |i: int| (self.dispatches@[i].operation_key@, self.dispatches@[i].effect_intent_id),
            ),
        }
    }
}

/// How often a key was dispatched.
pub open spec fn count_of(dispatches: Seq<(Seq<char>, Uuid7)>, key: Seq<char>) -> nat
    decreases dispatches.len(),
{
    if dispatches.len() == 0 {
        0
    } else {
        count_of(dispatches.drop_last(), key) + if dispatches.last().0 == key {
            1nat
        } else {
            0nat
        }
    }
}

/// What a query answers: an undispatched or unscripted key is unrecognized, a withheld
/// outcome is pending until revealed, and `Never` is pending for good.
pub open spec fn answer(b: BackendView, key: Seq<char>) -> ObservationView {
    if count_of(b.dispatches, key) == 0 || !b.scripts.dom().contains(key) {
        ObservationView::Unrecognized
    } else {
        match b.scripts[key].0 {
            ScriptedOutcomeView::Immediate(t) => ObservationView::Terminal(t),
            ScriptedOutcomeView::ImmediateTargets(v) => ObservationView::PerTarget(v),
            ScriptedOutcomeView::Withheld(t) => if b.scripts[key].1 {
                ObservationView::Terminal(t)
            } else {
                ObservationView::Pending
            },
            ScriptedOutcomeView::Never => ObservationView::Pending,
        }
    }
}

/// The backend after a key is scripted: the new outcome replaces the old one and is sealed.
pub open spec fn scripted(
    b: BackendView,
    key: Seq<char>,
    outcome: ScriptedOutcomeView,
) -> BackendView {
    BackendView { scripts: b.scripts.insert(key, (outcome, false)), ..b }
}

/// The backend after a dispatch: recorded whether or not a script covers the key.
pub open spec fn dispatched(b: BackendView, key: Seq<char>, id: Uuid7) -> BackendView {
    BackendView { dispatches: b.dispatches.push((key, id)), ..b }
}

/// The backend after a reconcile: a withheld outcome of a dispatched key is revealed.
pub open spec fn reconciled(b: BackendView, key: Seq<char>) -> BackendView {
    if count_of(b.dispatches, key) > 0 && b.scripts.dom().contains(key)
        && b.scripts[key].0 is Withheld {
        BackendView { scripts: b.scripts.insert(key, (b.scripts[key].0, true)), ..b }
    } else {
        b
    }
}

impl Default for FakeEffectBackend {
    fn default() -> (r: Self)
        ensures
            r@.scripts == Map::<Seq<char>, (ScriptedOutcomeView, bool)>::empty(),
            r@.dispatches == Seq::<(Seq<char>, Uuid7)>::empty(),
    {
        let r = FakeEffectBackend { scripts: Vec::new(), dispatches: Vec::new() };
        proof {
            assert(r@.dispatches =~= Seq::<(Seq<char>, Uuid7)>::empty());
        }
        r
    }
}

impl FakeEffectBackend {
    /// A target with no script that has seen no dispatch.
    pub fn new() -> (r: Self)
        ensures
            r@.scripts == Map::<Seq<char>, (ScriptedOutcomeView, bool)>::empty(),
            r@.dispatches == Seq::<(Seq<char>, Uuid7)>::empty(),
    {
        FakeEffectBackend::default()
    }

    /// Scripts a key. Any earlier reveal is reset: a re-scripted withheld outcome is hidden
    /// again until its own reconcile.
    pub fn script(&mut self, operation_key: &str, outcome: ScriptedOutcome)
        ensures
            final(self)@ == scripted(old(self)@, operation_key@, outcome@),
    {
        let ghost before = self.scripts@;
        self.scripts.push(Script { key: operation_key.to_owned(), outcome, revealed: false });
        proof {
            assert(self.scripts@.drop_last() =~= before);
            assert(self@.dispatches =~= old(self)@.dispatches);
        }
    }

    /// The target observes a dispatch. Recording is unconditional; an unscripted key fails
    /// after it.
    pub fn dispatch(&mut self, intent: &EffectIntent) -> (r: Result<(), FakeEffectError>)
        ensures
            final(self)@ == dispatched(
                old(self)@,
                intent.operation_key@,
                intent.effect_intent_id,
            ),
            match r {
                Ok(()) => old(self)@.scripts.dom().contains(intent.operation_key@),
                Err(FakeEffectError::UnscriptedKey(key)) => key@ == intent.operation_key@
                    && !old(self)@.scripts.dom().contains(intent.operation_key@),
            },
    {
        self.dispatches.push(
            DispatchRecord {
                operation_key: intent.operation_key.clone(),
                effect_intent_id: intent.effect_intent_id,
            },
        );
        proof {
            assert(self@.dispatches =~= old(self)@.dispatches.push(
                (intent.operation_key@, intent.effect_intent_id),
            ));
        }
        match self.find(&intent.operation_key) {
            Some(_) => Ok(()),
            None => Err(FakeEffectError::UnscriptedKey(intent.operation_key.clone())),
        }
    }

    fn find(&self, key: &str) -> (r: Option<usize>)
        ensures
            match r {
                Some(i) => {
                    &&& i < self.scripts@.len()
                    &&& self@.scripts.dom().contains(key@)
                    &&& self@.scripts[key@] == (
                        self.scripts@[i as int].outcome@,
                        self.scripts@[i as int].revealed,
                    )
                },
                None => !self@.scripts.dom().contains(key@),
            },
    {
        let mut i: usize = self.scripts.len();
        proof {
            assert(self.scripts@.take(i as int) =~= self.scripts@);
        }
        while i > 0
            invariant
                i <= self.scripts.len(),
                self@.scripts.dom().contains(key@) == script_map(
                    self.scripts@.take(i as int),
                ).dom().contains(key@),
                self@.scripts[key@] == script_map(self.scripts@.take(i as int))[key@],
            decreases i,
        {
            i -= 1;
            proof {
                assert(self.scripts@.take(i + 1).drop_last() =~= self.scripts@.take(i as int));
            }
            if same(&self.scripts[i].key, key) {
                return Some(i);
            }
        }
        None
    }

    /// Queries the target.
    pub fn observe(&self, operation_key: &str) -> (r: Observation)
        ensures
            r@ == answer(self@, operation_key@),
    {
        if self.dispatch_count(operation_key) == 0 {
            return Observation::Unrecognized;
        }
        match self.find(operation_key) {
            None => Observation::Unrecognized,
            Some(i) => match &self.scripts[i].outcome {
                ScriptedOutcome::Immediate(t) => Observation::Terminal(*t),
                ScriptedOutcome::ImmediateTargets(v) => {
                    let copy = copy_targets(v);
                    Observation::PerTarget(copy)
                },
                ScriptedOutcome::Withheld(t) => if self.scripts[i].revealed {
                    Observation::Terminal(*t)
                } else {
                    Observation::Pending
                },
                ScriptedOutcome::Never => Observation::Pending,
            },
        }
    }

    /// The explicit reconcile step: reveals a withheld outcome of an operation that the
    /// target received, then answers as a query does.
    pub fn reconcile(&mut self, operation_key: &str) -> (r: Observation)
        ensures
            final(self)@ == reconciled(old(self)@, operation_key@),
            r@ == answer(final(self)@, operation_key@),
    {
        if self.dispatch_count(operation_key) > 0 {
            let found = self.find(operation_key);
            if let Some(i) = found {
                let withheld = match &self.scripts[i].outcome {
                    ScriptedOutcome::Withheld(t) => Some(*t),
                    _ => None,
                };
                if let Some(t) = withheld {
                    let ghost before = self.scripts@;
                    self.scripts.push(
                        Script {
                            key: operation_key.to_owned(),
                            outcome: ScriptedOutcome::Withheld(t),
                            revealed: true,
                        },
                    );
                    proof {
                        assert(self.scripts@.drop_last() =~= before);
                        assert(self@.dispatches =~= old(self)@.dispatches);
                    }
                }
            }
        }
        self.observe(operation_key)
    }

    /// Every dispatch the target saw, in order.
    pub fn dispatches(&self) -> (r: &Vec<DispatchRecord>)
        ensures
            r@.len() == self@.dispatches.len(),
            forall|i: int|
                0 <= i < r@.len() ==> (#[trigger] r@[i]).operation_key@ == self@.dispatches[i].0
                    && r@[i].effect_intent_id == self@.dispatches[i].1,
    {
        &self.dispatches
    }

    /// How often a key was dispatched.
    pub fn dispatch_count(&self, operation_key: &str) -> (r: usize)
        ensures
            r == count_of(self@.dispatches, operation_key@),
    {
        let mut i: usize = 0;
        let mut n: usize = 0;
        proof {
            assert(self@.dispatches.take(0) =~= Seq::<(Seq<char>, Uuid7)>::empty());
        }
        while i < self.dispatches.len()
            invariant
                n <= i <= self.dispatches.len(),
                self@.dispatches.len() == self.dispatches.len(),
                n == count_of(self@.dispatches.take(i as int), operation_key@),
            decreases self.dispatches.len() - i,
        {
            proof {
                assert(self@.dispatches.take(i + 1).drop_last() =~= self@.dispatches.take(
                    i as int,
                ));
            }
            if same(&self.dispatches[i].operation_key, operation_key) {
                n += 1;
            }
            i += 1;
        }
        proof {
            assert(self@.dispatches.take(i as int) =~= self@.dispatches);
        }
        n
    }

    /// The distinct operation keys that the target ever saw, in the order of their bytes.
    pub fn distinct_keys(&self) -> (r: Vec<&str>)
        ensures
            forall|i: int, j: int|
                0 <= i < j < r@.len() ==> text_before(#[trigger] r@[i]@, #[trigger] r@[j]@),
            forall|key: Seq<char>| #[trigger]
                listed(r@, key) <==> count_of(self@.dispatches, key) > 0,
    {
        let mut keys: Vec<&str> = Vec::new();
        let mut i: usize = 0;
        proof {
            assert(self@.dispatches.take(0) =~= Seq::<(Seq<char>, Uuid7)>::empty());
        }
        while i < self.dispatches.len()
            invariant
                i <= self.dispatches.len(),
                self@.dispatches.len() == self.dispatches.len(),
                sorted(keys@),
                forall|key: Seq<char>| #[trigger]
                    listed(keys@, key) <==> count_of(self@.dispatches.take(i as int), key) > 0,
            decreases self.dispatches.len() - i,
        {
            proof {
                assert(self@.dispatches.take(i + 1).drop_last() =~= self@.dispatches.take(
                    i as int,
                ));
                assert(self@.dispatches.take(i + 1).last().0
                    == self.dispatches@[i as int].operation_key@);
            }
            insert_sorted(&mut keys, self.dispatches[i].operation_key.as_str());
            i += 1;
        }
        proof {
            assert(self@.dispatches.take(i as int) =~= self@.dispatches);
        }
        keys
    }
}

/// Whether a list of strings holds a text.
pub open spec fn listed(keys: Seq<&str>, key: Seq<char>) -> bool {
    exists|i: int| 0 <= i < keys.len() && #[trigger] keys[i]@ == key
}

spec fn sorted(keys: Seq<&str>) -> bool {
    forall|i: int, j: int|
        0 <= i < j < keys.len() ==> text_before(#[trigger] keys[i]@, #[trigger] keys[j]@)
}

fn insert_sorted<'a>(keys: &mut Vec<&'a str>, key: &'a str)
    requires
        sorted(old(keys)@),
    ensures
        sorted(final(keys)@),
        forall|other: Seq<char>| #[trigger]
            listed(final(keys)@, other) <==> listed(old(keys)@, other) || other == key@,
{
    let mut at: usize = 0;
    while at < keys.len() && before(keys[at], key)
        invariant
            at <= keys.len(),
            forall|k: int| 0 <= k < at ==> text_before(#[trigger] keys@[k]@, key@),
        decreases keys.len() - at,
    {
        at += 1;
    }
    let ghost old_keys = keys@;
    if at < keys.len() && same(keys[at], key) {
        proof {
            assert(old_keys[at as int]@ == key@);
        }
        return ;
    }
    proof {
        if at < keys@.len() {
            text_order_total(keys@[at as int]@, key@);
        }
    }
    keys.insert(at, key);
    proof {
        let new_keys = keys@;
        assert(new_keys =~= old_keys.insert(at as int, key));
        assert forall|i: int, j: int| 0 <= i < j < new_keys.len() implies text_before(
            #[trigger] new_keys[i]@,
            #[trigger] new_keys[j]@,
        ) by {
            let oi = if i < at { i } else { i - 1 };
            let oj = if j < at { j } else { j - 1 };
            if i == at {
                assert(new_keys[j] == old_keys[oj]);
                if oj > at {
                    text_order_transitive(key@, old_keys[at as int]@, old_keys[oj]@);
                }
            } else if j == at {
                assert(new_keys[i] == old_keys[i]);
            } else {
                assert(new_keys[i] == old_keys[oi] && new_keys[j] == old_keys[oj]);
            }
        }
        assert forall|other: Seq<char>| #[trigger] listed(new_keys, other) <==> (listed(
            old_keys,
            other,
        ) || other == key@) by {
            if listed(old_keys, other) {
                let k = choose|k: int| 0 <= k < old_keys.len() && #[trigger] old_keys[k]@ == other;
                let m = if k < at { k } else { k + 1 };
                assert(new_keys[m]@ == other);
            }
            if other == key@ {
                assert(new_keys[at as int]@ == other);
            }
            if listed(new_keys, other) {
                let k = choose|k: int| 0 <= k < new_keys.len() && #[trigger] new_keys[k]@ == other;
                if k != at {
                    let m = if k < at { k } else { k - 1 };
                    assert(old_keys[m]@ == other);
                }
            }
        }
    }
}

fn copy_targets(list: &Vec<(String, TargetState)>) -> (r: Vec<(String, TargetState)>)
    ensures
        target_views(r@) == target_views(list@),
{
    let mut r: Vec<(String, TargetState)> = Vec::new();
    let mut i: usize = 0;
    while i < list.len()
        invariant
            i <= list.len(),
            r.len() == i,
            forall|k: int| 0 <= k < i ==> #[trigger] r@[k] == list@[k],
        decreases list.len() - i,
    {
        r.push((list[i].0.clone(), list[i].1));
        i += 1;
    }
    proof {
        assert(target_views(r@) =~= target_views(list@));
    }
    r
}

proof fn count_grows(dispatches: Seq<(Seq<char>, Uuid7)>, entry: (Seq<char>, Uuid7), key: Seq<char>)
    ensures
        count_of(dispatches.push(entry), key) == count_of(dispatches, key) + if entry.0 == key {
            1nat
        } else {
            0nat
        },
{
    assert(dispatches.push(entry).drop_last() =~= dispatches);
}

/// Scripting a key again seals its outcome: whatever was revealed before, a withheld outcome
/// is pending until its own reconcile, which then reveals the new outcome.
pub proof fn rescripting_reseals(b: BackendView, key: Seq<char>, terminal: EffectTerminal)
    requires
        count_of(b.dispatches, key) > 0,
    ensures
        ({
            let again = scripted(b, key, ScriptedOutcomeView::Withheld(terminal));
            &&& answer(again, key) == ObservationView::Pending
            &&& answer(reconciled(again, key), key) == ObservationView::Terminal(terminal)
        }),
{
}

/// A key that was never dispatched is unrecognized, scripted or not, and stays so under a
/// reconcile.
pub proof fn undispatched_is_unrecognized(b: BackendView, key: Seq<char>)
    requires
        count_of(b.dispatches, key) == 0,
    ensures
        answer(b, key) == ObservationView::Unrecognized,
        reconciled(b, key) == b,
{
}

/// A key that never resolves is pending before and after every reconcile.
pub proof fn never_stays_pending(b: BackendView, key: Seq<char>)
    requires
        count_of(b.dispatches, key) > 0,
        b.scripts.dom().contains(key),
        b.scripts[key].0 is Never,
    ensures
        answer(b, key) == ObservationView::Pending,
        reconciled(b, key) == b,
{
}

/// Dispatching a key again under another intent raises its count and adds no other key.
pub proof fn redispatch_keeps_one_key(b: BackendView, key: Seq<char>, id: Uuid7, other: Seq<char>)
    ensures
        count_of(dispatched(b, key, id).dispatches, key) == count_of(b.dispatches, key) + 1,
        other != key ==> count_of(dispatched(b, key, id).dispatches, other) == count_of(
            b.dispatches,
            other,
        ),
{
    count_grows(b.dispatches, (key, id), key);
    count_grows(b.dispatches, (key, id), other);
}

proof fn counting_finds(dispatches: Seq<(Seq<char>, Uuid7)>, key: Seq<char>)
    ensures
        count_of(dispatches, key) > 0 <==> exists|i: int|
            0 <= i < dispatches.len() && (#[trigger] dispatches[i]).0 == key,
    decreases dispatches.len(),
{
    if dispatches.len() > 0 {
        let front = dispatches.drop_last();
        counting_finds(front, key);
        assert(dispatches[dispatches.len() - 1] == dispatches.last());
        if count_of(front, key) > 0 {
            let i = choose|i: int| 0 <= i < front.len() && (#[trigger] front[i]).0 == key;
            assert(dispatches[i] == front[i]);
        }
        if exists|i: int| 0 <= i < dispatches.len() && (#[trigger] dispatches[i]).0 == key {
            let i = choose|i: int|
                0 <= i < dispatches.len() && (#[trigger] dispatches[i]).0 == key;
            if i < front.len() {
                assert(front[i] == dispatches[i]);
            }
        }
    }
}

/// The target plays its script: of a key that it saw it tells an immediate outcome at once, with its
/// targets where they are scripted, a withheld one once it is revealed, and one that never comes
/// never. A reconcile reveals what is withheld of its own key and of no other; it is no dispatch.
pub proof fn the_target_plays_its_script(b: BackendView, key: Seq<char>, other: Seq<char>)
    ensures
        ({
            let seen = exists|i: int|
                0 <= i < b.dispatches.len() && (#[trigger] b.dispatches[i]).0 == key;
            let line = b.scripts[key];
            let known = seen && b.scripts.dom().contains(key);
            let now = answer(b, key);
            let then = answer(reconciled(b, key), key);
            &&& !known ==> now is Unrecognized && then is Unrecognized
            &&& known && line.0 is Immediate ==> now == ObservationView::Terminal(
                line.0->Immediate_0,
            ) && then == now
            &&& known && line.0 is ImmediateTargets ==> now == ObservationView::PerTarget(
                line.0->ImmediateTargets_0,
            ) && then == now
            &&& known && line.0 is Withheld ==> then == ObservationView::Terminal(
                line.0->Withheld_0,
            ) && now == if line.1 {
                then
            } else {
                ObservationView::Pending
            }
            &&& known && line.0 is Never ==> now is Pending && then is Pending
            &&& reconciled(b, key).dispatches == b.dispatches
            &&& other != key ==> answer(reconciled(b, key), other) == answer(b, other)
        }),
{
    counting_finds(b.dispatches, key);
}

/// Scripting a key says what becomes of it from then on, and nothing of any other key or of what was
/// seen.
pub proof fn scripts_are_by_key(
    b: BackendView,
    key: Seq<char>,
    outcome: ScriptedOutcomeView,
    other: Seq<char>,
)
    ensures
        scripted(b, key, outcome).scripts.dom().contains(key),
        scripted(b, key, outcome).scripts[key].0 == outcome,
        !scripted(b, key, outcome).scripts[key].1,
        scripted(b, key, outcome).dispatches == b.dispatches,
        other != key ==> answer(scripted(b, key, outcome), other) == answer(b, other),
{
}

} // verus!
