//! The close predicate of a run: it must not close `success` while an effect or a committed
//! cancellation in it is unresolved.
use crate::cancel::{
    kind_from_wire, kind_named, outcome_from_wire, outcome_named, CancelKind, ScopeMemberView,
};
use crate::effect::{EffectState, EffectTerminal};
use crate::funnel::cancel_rules::{blocker_views, Blocker, BlockerView};
use crate::store::{
    AttemptRow, AttemptRowView, CancelDeliveryRow, CancelDeliveryRowView, CancelRequestRow,
    CancelRequestRowView, EffectRow, EffectRowView, Tables, TablesView,
};
use crate::table::{lookup, Table};
use crate::text::{opt_view, same};
use vstd::prelude::*;
use vstd::string::*;

verus! {

/// Why an effect in this state forbids a success close; `None` where it does not. An
/// unreadable state blocks, and so does a settled effect whose outcome is unknown.
pub open spec fn effect_block(state: Option<Seq<char>>, terminal: Option<Seq<char>>) -> Option<
    Seq<char>,
> {
    match state {
        None => Some("state unreadable"@),
        Some(s) => if s == EffectState::Settled.wire_text() {
            match terminal {
                None => Some("settled with no terminal recorded"@),
                Some(t) => if t == EffectTerminal::Unknown.wire_text() {
                    Some("settled with terminal `unknown` — needs an explicit accept-unknown"@)
                } else {
                    None
                },
            }
        } else {
            Some("state `"@ + s + "` is not settled"@)
        },
    }
}

/// The view of an optional string slice.
pub open spec fn opt_str(o: Option<&str>) -> Option<Seq<char>> {
    match o {
        Some(s) => Some(s@),
        None => None,
    }
}

/// Why an effect forbids a success close; `None` where it does not.
pub fn effect_blocks(state: Option<&str>, terminal: Option<&str>) -> (r: Option<String>)
    ensures
        opt_view(r) == effect_block(opt_str(state), opt_str(terminal)),
{
    match state {
        Some(s) => {
            if same(s, wire(EffectState::Settled)) {
                match terminal {
                    Some(t) => if same(t, wire_terminal(EffectTerminal::Unknown)) {
                        Some(
                            "settled with terminal `unknown` — needs an explicit accept-unknown".to_owned(),
                        )
                    } else {
                        None
                    },
                    None => Some("settled with no terminal recorded".to_owned()),
                }
            } else {
                let mut reason = "state `".to_owned();
                reason.append(s);
                reason.append("` is not settled");
                Some(reason)
            }
        },
        None => Some("state unreadable".to_owned()),
    }
}

fn wire(state: EffectState) -> (r: &'static str)
    ensures
        r@ == state.wire_text(),
{
    state.wire()
}

fn wire_terminal(t: EffectTerminal) -> (r: &'static str)
    ensures
        r@ == t.wire_text(),
{
    t.wire()
}

/// The run of a unit.
pub open spec fn unit_run(tables: TablesView, unit_id: Seq<char>) -> Option<Seq<char>> {
    match lookup(tables.units, unit_id) {
        Some(unit) => Some(unit.run_id),
        None => None,
    }
}

/// The run of a unit.
pub fn unit_run_id(tables: &Tables, unit_id: &str) -> (r: Option<String>)
    ensures
        opt_view(r) == unit_run(tables@, unit_id@),
{
    match tables.units.get(unit_id) {
        Some(unit) => Some(unit.run_id.clone()),
        None => None,
    }
}

/// The first attempt with an id.
pub open spec fn attempt_named(rows: Seq<(Seq<char>, AttemptRowView)>, id: Seq<char>) -> Option<
    AttemptRowView,
>
    decreases rows.len(),
{
    if rows.len() == 0 {
        None
    } else {
        match attempt_named(rows.drop_last(), id) {
            Some(row) => Some(row),
            None => if rows.last().1.attempt_id == id {
                Some(rows.last().1)
            } else {
                None
            },
        }
    }
}

/// The first effect with an intent id.
pub open spec fn effect_named(rows: Seq<(Seq<char>, EffectRowView)>, id: Seq<char>) -> Option<
    EffectRowView,
>
    decreases rows.len(),
{
    if rows.len() == 0 {
        None
    } else {
        match effect_named(rows.drop_last(), id) {
            Some(row) => Some(row),
            None => if rows.last().1.effect_intent_id == id {
                Some(rows.last().1)
            } else {
                None
            },
        }
    }
}

proof fn attempt_named_grows(rows: Seq<(Seq<char>, AttemptRowView)>, id: Seq<char>, k: int)
    requires
        0 <= k <= rows.len(),
        attempt_named(rows.take(k), id) is Some,
    ensures
        attempt_named(rows, id) == attempt_named(rows.take(k), id),
    decreases rows.len() - k,
{
    if k < rows.len() {
        assert(rows.take(k + 1).drop_last() =~= rows.take(k));
        attempt_named_grows(rows, id, k + 1);
    } else {
        assert(rows.take(k) =~= rows);
    }
}

proof fn effect_named_grows(rows: Seq<(Seq<char>, EffectRowView)>, id: Seq<char>, k: int)
    requires
        0 <= k <= rows.len(),
        effect_named(rows.take(k), id) is Some,
    ensures
        effect_named(rows, id) == effect_named(rows.take(k), id),
    decreases rows.len() - k,
{
    if k < rows.len() {
        assert(rows.take(k + 1).drop_last() =~= rows.take(k));
        effect_named_grows(rows, id, k + 1);
    } else {
        assert(rows.take(k) =~= rows);
    }
}

/// The attempt with an id.
pub fn attempt_by_id<'a>(attempts: &'a Table<AttemptRow>, id: &str) -> (r: Option<&'a AttemptRow>)
    ensures
        match r {
            Some(row) => attempt_named(attempts@, id@) == Some(row@),
            None => attempt_named(attempts@, id@) is None,
        },
{
    let mut i: usize = 0;
    proof {
        assert(attempts@.take(0) =~= Seq::<(Seq<char>, AttemptRowView)>::empty());
    }
    while i < attempts.len()
        invariant
            i <= attempts@.len(),
            attempt_named(attempts@.take(i as int), id@) is None,
        decreases attempts@.len() - i,
    {
        let row = attempts.row_at(i);
        proof {
            assert(attempts@.take(i + 1).drop_last() =~= attempts@.take(i as int));
            assert(attempts@.take(i + 1).last().1 == row@);
        }
        if same(&row.attempt_id, id) {
            proof {
                attempt_named_grows(attempts@, id@, i + 1);
            }
            return Some(row);
        }
        i += 1;
    }
    proof {
        assert(attempts@.take(attempts@.len() as int) =~= attempts@);
    }
    None
}

/// The effect with an intent id.
pub fn effect_by_intent<'a>(effects: &'a Table<EffectRow>, id: &str) -> (r: Option<&'a EffectRow>)
    ensures
        match r {
            Some(row) => effect_named(effects@, id@) == Some(row@),
            None => effect_named(effects@, id@) is None,
        },
{
    let mut i: usize = 0;
    proof {
        assert(effects@.take(0) =~= Seq::<(Seq<char>, EffectRowView)>::empty());
    }
    while i < effects.len()
        invariant
            i <= effects@.len(),
            effect_named(effects@.take(i as int), id@) is None,
        decreases effects@.len() - i,
    {
        let row = effects.row_at(i);
        proof {
            assert(effects@.take(i + 1).drop_last() =~= effects@.take(i as int));
            assert(effects@.take(i + 1).last().1 == row@);
        }
        if same(&row.effect_intent_id, id) {
            proof {
                effect_named_grows(effects@, id@, i + 1);
            }
            return Some(row);
        }
        i += 1;
    }
    proof {
        assert(effects@.take(effects@.len() as int) =~= effects@);
    }
    None
}

/// The run that owns a root: a run owns itself, every other kind resolves up through its
/// unit.
pub open spec fn run_of_root(tables: TablesView, kind: CancelKind, id: Seq<char>) -> Option<
    Seq<char>,
> {
    match kind {
        CancelKind::Run => Some(id),
        CancelKind::ExecutionUnit => unit_run(tables, id),
        CancelKind::Attempt => match attempt_named(tables.attempts, id) {
            Some(row) => unit_run(tables, row.unit_id),
            None => None,
        },
        CancelKind::EffectIntent => match effect_named(tables.effects, id) {
            Some(row) => unit_run(tables, row.unit_id),
            None => None,
        },
    }
}

/// The run that owns a root.
pub fn root_run(tables: &Tables, root_kind: CancelKind, root_id: &str) -> (r: Option<String>)
    ensures
        opt_view(r) == run_of_root(tables@, root_kind, root_id@),
{
    match root_kind {
        CancelKind::Run => Some(root_id.to_owned()),
        CancelKind::ExecutionUnit => unit_run_id(tables, root_id),
        CancelKind::Attempt => match attempt_by_id(&tables.attempts, root_id) {
            Some(row) => unit_run_id(tables, &row.unit_id),
            None => None,
        },
        CancelKind::EffectIntent => match effect_by_intent(&tables.effects, root_id) {
            Some(row) => unit_run_id(tables, &row.unit_id),
            None => None,
        },
    }
}

/// Whether an effect of a run forbids its success close, with the reason.
pub open spec fn effect_blocker(
    tables: TablesView,
    run_id: Seq<char>,
    key: Seq<char>,
    row: EffectRowView,
) -> Option<BlockerView> {
    if unit_run(tables, row.unit_id) == Some(run_id) {
        match effect_block(Some(row.state), row.terminal) {
            Some(reason) => Some(BlockerView { member: key, reason }),
            None => None,
        }
    } else {
        None
    }
}

/// The effects of a run that forbid its success close.
pub open spec fn effect_blockers(
    tables: TablesView,
    run_id: Seq<char>,
    rows: Seq<(Seq<char>, EffectRowView)>,
) -> Seq<BlockerView>
    decreases rows.len(),
{
    if rows.len() == 0 {
        Seq::empty()
    } else {
        let front = effect_blockers(tables, run_id, rows.drop_last());
        match effect_blocker(tables, run_id, rows.last().0, rows.last().1) {
            Some(b) => front.push(b),
            None => front,
        }
    }
}

/// Whether a recorded delivery discharges a member of a request.
pub open spec fn discharge_row(
    row: CancelDeliveryRowView,
    request_id: Seq<char>,
    member_id: Seq<char>,
) -> bool {
    &&& row.cancel_request_id == request_id
    &&& row.member_id == member_id
    &&& outcome_named(row.outcome) is Some
    &&& outcome_named(row.outcome)->0.discharges()
}

/// Whether a member of a request is discharged.
pub open spec fn member_discharged(
    rows: Seq<(Seq<char>, CancelDeliveryRowView)>,
    request_id: Seq<char>,
    member_id: Seq<char>,
) -> bool {
    exists|k: int|
        0 <= k < rows.len() && discharge_row((#[trigger] rows[k]).1, request_id, member_id)
}

/// The first member, from `i` on, that is not discharged.
pub open spec fn first_missing(
    members: Seq<ScopeMemberView>,
    rows: Seq<(Seq<char>, CancelDeliveryRowView)>,
    request_id: Seq<char>,
    i: int,
) -> int
    decreases members.len() - i,
{
    if i >= members.len() {
        members.len() as int
    } else if !member_discharged(rows, request_id, members[i].member_id) {
        i
    } else {
        first_missing(members, rows, request_id, i + 1)
    }
}

/// Whether a committed cancellation rooted in a run forbids its success close: it is not
/// settled, and a member of its scope is not discharged.
pub open spec fn cancel_blocker(
    tables: TablesView,
    run_id: Seq<char>,
    row: CancelRequestRowView,
) -> Option<BlockerView> {
    let members = row.record.scope.members;
    let at = first_missing(members, tables.deliveries, row.cancel_request_id, 0);
    if row.status == "settled"@ {
        None
    } else {
        match kind_named(row.root_kind) {
            None => None,
            Some(kind) => if run_of_root(tables, kind, row.root_id) == Some(run_id) && at
                < members.len() {
                Some(
                    BlockerView {
                        member: "cancel_request "@ + row.cancel_request_id + " member "@
                            + members[at].member_id,
                        reason: "committed cancellation of "@ + row.root_kind + ":"@ + row.root_id
                            + " not settled (status "@ + row.status + ")"@,
                    },
                )
            } else {
                None
            },
        }
    }
}

/// The committed cancellations rooted in a run that forbid its success close.
pub open spec fn cancel_blockers(
    tables: TablesView,
    run_id: Seq<char>,
    rows: Seq<(Seq<char>, CancelRequestRowView)>,
) -> Seq<BlockerView>
    decreases rows.len(),
{
    if rows.len() == 0 {
        Seq::empty()
    } else {
        let front = cancel_blockers(tables, run_id, rows.drop_last());
        match cancel_blocker(tables, run_id, rows.last().1) {
            Some(b) => front.push(b),
            None => front,
        }
    }
}

/// Everything in a run that forbids its success close.
pub open spec fn close_blockers(tables: TablesView, run_id: Seq<char>) -> Seq<BlockerView> {
    effect_blockers(tables, run_id, tables.effects) + cancel_blockers(
        tables,
        run_id,
        tables.requests,
    )
}

/// The members of a run that forbid closing it `success`. Empty means the close is lawful.
pub fn success_blockers(tables: &Tables, run_id: &str) -> (r: Vec<Blocker>)
    ensures
        blocker_views(r@) == close_blockers(tables@, run_id@),
{
    let mut blockers: Vec<Blocker> = Vec::new();
    let mut i: usize = 0;
    proof {
        assert(tables.effects@.take(0) =~= Seq::<(Seq<char>, EffectRowView)>::empty());
        assert(blocker_views(blockers@) =~= Seq::<BlockerView>::empty());
    }
    while i < tables.effects.len()
        invariant
            i <= tables.effects@.len(),
            blocker_views(blockers@) == effect_blockers(
                tables@,
                run_id@,
                tables.effects@.take(i as int),
            ),
        decreases tables.effects@.len() - i,
    {
        let row = tables.effects.row_at(i);
        let key = tables.effects.key_at(i);
        proof {
            assert(tables.effects@.take(i + 1).drop_last() =~= tables.effects@.take(i as int));
            assert(tables.effects@.take(i + 1).last() == (key@, row@));
        }
        let owned = match unit_run_id(tables, &row.unit_id) {
            Some(run) => same(&run, run_id),
            None => false,
        };
        if owned {
            let terminal = match &row.terminal {
                Some(t) => Some(t.as_str()),
                None => None,
            };
            if let Some(reason) = effect_blocks(Some(row.state.as_str()), terminal) {
                let ghost before = blocker_views(blockers@);
                blockers.push(Blocker { member: key.clone(), reason });
                proof {
                    assert(blocker_views(blockers@) =~= before.push(
                        BlockerView { member: key@, reason: reason@ },
                    ));
                }
            }
        }
        i += 1;
    }
    proof {
        assert(tables.effects@.take(tables.effects@.len() as int) =~= tables.effects@);
    }
    let mut more = cancel_blocks(tables, run_id);
    let ghost first = blockers@;
    let ghost second = more@;
    blockers.append(&mut more);
    proof {
        assert(blocker_views(blockers@) =~= blocker_views(first) + blocker_views(second));
    }
    blockers
}

/// The cancellation half of the close predicate.
pub fn cancel_blocks(tables: &Tables, run_id: &str) -> (r: Vec<Blocker>)
    ensures
        blocker_views(r@) == cancel_blockers(tables@, run_id@, tables@.requests),
{
    let mut blockers: Vec<Blocker> = Vec::new();
    let mut i: usize = 0;
    proof {
        assert(tables.requests@.take(0) =~= Seq::<(Seq<char>, CancelRequestRowView)>::empty());
        assert(blocker_views(blockers@) =~= Seq::<BlockerView>::empty());
    }
    while i < tables.requests.len()
        invariant
            i <= tables.requests@.len(),
            blocker_views(blockers@) == cancel_blockers(
                tables@,
                run_id@,
                tables.requests@.take(i as int),
            ),
        decreases tables.requests@.len() - i,
    {
        let row = tables.requests.row_at(i);
        proof {
            assert(tables.requests@.take(i + 1).drop_last() =~= tables.requests@.take(i as int));
            assert(tables.requests@.take(i + 1).last().1 == row@);
        }
        if let Some(b) = request_blocks(tables, run_id, row) {
            let ghost before = blocker_views(blockers@);
            blockers.push(b);
            proof {
                assert(blocker_views(blockers@) =~= before.push(b@));
            }
        }
        i += 1;
    }
    proof {
        assert(tables.requests@.take(tables.requests@.len() as int) =~= tables.requests@);
    }
    blockers
}

fn request_blocks(tables: &Tables, run_id: &str, row: &CancelRequestRow) -> (r: Option<Blocker>)
    ensures
        match r {
            Some(b) => cancel_blocker(tables@, run_id@, row@) == Some(b@),
            None => cancel_blocker(tables@, run_id@, row@) is None,
        },
{
    if same(&row.status, "settled") {
        return None;
    }
    let root = match kind_from_wire(&row.root_kind) {
        Some(kind) => kind,
        None => {
            return None;
        },
    };
    let mine = match root_run(tables, root, &row.root_id) {
        Some(run) => same(&run, run_id),
        None => false,
    };
    if !mine {
        return None;
    }
    let ghost members = row@.record.scope.members;
    let mut i: usize = 0;
    while i < row.record.scope.members.len()
        invariant
            i <= row.record.scope.members.len(),
            members == row@.record.scope.members,
            row@.status != "settled"@,
            kind_named(row@.root_kind) == Some(root),
            run_of_root(tables@, root, row@.root_id) == Some(run_id@),
            first_missing(members, tables@.deliveries, row@.cancel_request_id, 0) == first_missing(
                members,
                tables@.deliveries,
                row@.cancel_request_id,
                i as int,
            ),
        decreases row.record.scope.members.len() - i,
    {
        let m = &row.record.scope.members[i];
        proof {
            assert(members[i as int] == m@);
        }
        if !is_discharged(&tables.deliveries, &row.cancel_request_id, &m.member_id) {
            let mut member = "cancel_request ".to_owned();
            member.append(&row.cancel_request_id);
            member.append(" member ");
            member.append(&m.member_id);
            let mut reason = "committed cancellation of ".to_owned();
            reason.append(&row.root_kind);
            reason.append(":");
            reason.append(&row.root_id);
            reason.append(" not settled (status ");
            reason.append(&row.status);
            reason.append(")");
            return Some(Blocker { member, reason });
        }
        i += 1;
    }
    None
}

fn is_discharged(deliveries: &Table<CancelDeliveryRow>, request_id: &str, member_id: &str) -> (r:
    bool)
    ensures
        r == member_discharged(deliveries@, request_id@, member_id@),
{
    let mut i: usize = 0;
    while i < deliveries.len()
        invariant
            i <= deliveries@.len(),
            forall|k: int|
                0 <= k < i ==> !discharge_row(
                    (#[trigger] deliveries@[k]).1,
                    request_id@,
                    member_id@,
                ),
        decreases deliveries@.len() - i,
    {
        let row = deliveries.row_at(i);
        if same(&row.cancel_request_id, request_id) && same(&row.member_id, member_id) {
            let done = match outcome_from_wire(&row.outcome) {
                Some(outcome) => outcome.is_discharged(),
                None => false,
            };
            if done {
                proof {
                    assert(discharge_row(deliveries@[i as int].1, request_id@, member_id@));
                }
                return true;
            }
        }
        i += 1;
    }
    false
}

/// An effect of a run that is not settled with a known outcome forbids its success close.
pub proof fn unresolved_effects_bar_success(tables: TablesView, run_id: Seq<char>, i: int)
    requires
        0 <= i < tables.effects.len(),
        unit_run(tables, tables.effects[i].1.unit_id) == Some(run_id),
        tables.effects[i].1.state != EffectState::Settled.wire_text()
            || tables.effects[i].1.terminal is None || tables.effects[i].1.terminal->0
            == EffectTerminal::Unknown.wire_text(),
    ensures
        close_blockers(tables, run_id).len() > 0,
{
    effect_blockers_hold(tables, run_id, tables.effects, i);
}

proof fn effect_blockers_hold(
    tables: TablesView,
    run_id: Seq<char>,
    rows: Seq<(Seq<char>, EffectRowView)>,
    i: int,
)
    requires
        0 <= i < rows.len(),
        effect_blocker(tables, run_id, rows[i].0, rows[i].1) is Some,
    ensures
        effect_blockers(tables, run_id, rows).len() > 0,
    decreases rows.len(),
{
    if i < rows.len() - 1 {
        assert(rows.drop_last()[i] == rows[i]);
        effect_blockers_hold(tables, run_id, rows.drop_last(), i);
    }
}

} // verus!
