//! Legality and classification rules of the effect ledger.
//!
//! The ledger does not trust the caller's conclusions, only its observations: callers give
//! digests, wait status and query answers, and every target state and terminal is decided
//! here from the declaration at prepare time.
use crate::effect::{
    declared_state, EffectIntent, EffectIntentView, EffectState, EffectTerminal,
    ReversibilityClass, TargetEnumeration, TargetObservation, TargetObservationView, TargetState,
};
use crate::error::ErrorKind;
use crate::funnel::command::{refuse, Rejection, RejectionView, SettleEvidence};
use crate::text::{before, dec, decimal, same, text_before, text_order_total, text_order_transitive};
use vstd::prelude::*;
use vstd::string::*;
use vstd::utf8::*;

verus! {

/// The views of a list of targets.
pub open spec fn rows_of(targets: Seq<TargetObservation>) -> Seq<TargetObservationView> {
    targets.map_values(|t: TargetObservation| t@)
}

/// Whether the target at `i` is named by an earlier row.
pub open spec fn repeats(rows: Seq<TargetObservationView>, i: int) -> bool {
    exists|k: int| 0 <= k < i && (#[trigger] rows[k]).target_id == rows[i].target_id
}

/// The first fault of a list of targets from `i` on: an id over 256 bytes, or a repeated id.
pub open spec fn row_fault(rows: Seq<TargetObservationView>, i: int) -> Option<RejectionView>
    decreases rows.len() - i,
{
    if i >= rows.len() {
        None
    } else if encode_utf8(rows[i].target_id).len() > 256 {
        Some(
            refuse(
                ErrorKind::InvalidRequest,
                "target_id of "@ + dec(encode_utf8(rows[i].target_id).len())
                    + " bytes exceeds the 256 cap"@,
                true,
            ),
        )
    } else if repeats(rows, i) {
        Some(
            refuse(
                ErrorKind::InvalidRequest,
                "duplicate target_id "@ + rows[i].target_id,
                true,
            ),
        )
    } else {
        row_fault(rows, i + 1)
    }
}

/// The first fault of a list of targets: more than 1024 rows, or a faulty row.
pub open spec fn target_list_fault(rows: Seq<TargetObservationView>) -> Option<RejectionView> {
    if rows.len() > 1024 {
        Some(
            refuse(
                ErrorKind::InvalidRequest,
                dec(rows.len()) + " target rows exceed the 1024 cap"@,
                true,
            ),
        )
    } else {
        row_fault(rows, 0)
    }
}

/// The list constraints, enforced at every write that carries targets.
pub fn check_target_list(targets: &Vec<TargetObservation>) -> (r: Result<(), Rejection>)
    ensures
        match r {
            Ok(()) => target_list_fault(rows_of(targets@)) is None,
            Err(e) => target_list_fault(rows_of(targets@)) == Some(e@),
        },
{
    let ghost rows = rows_of(targets@);
    if targets.len() > 1024 {
        let mut detail = decimal(targets.len() as u64);
        detail.append(" target rows exceed the 1024 cap");
        return Err(Rejection { kind: ErrorKind::InvalidRequest, detail, persist: true });
    }
    let mut i: usize = 0;
    while i < targets.len()
        invariant
            i <= targets.len() <= 1024,
            rows == rows_of(targets@),
            target_list_fault(rows) == row_fault(rows, i as int),
        decreases targets.len() - i,
    {
        proof {
            assert(rows[i as int] == targets@[i as int]@);
        }
        let size: usize = targets[i].target_id.as_str().as_bytes().len();
        if size > 256 {
            let mut detail = "target_id of ".to_owned();
            detail.append(&decimal(size as u64));
            detail.append(" bytes exceeds the 256 cap");
            return Err(Rejection { kind: ErrorKind::InvalidRequest, detail, persist: true });
        }
        let mut k: usize = 0;
        while k < i
            invariant
                k <= i < targets.len() <= 1024,
                rows == rows_of(targets@),
                target_list_fault(rows) == row_fault(rows, i as int),
                encode_utf8(rows[i as int].target_id).len() <= 256,
                forall|j: int|
                    0 <= j < k ==> (#[trigger] rows[j]).target_id != rows[i as int].target_id,
            decreases i - k,
        {
            proof {
                assert(rows[k as int] == targets@[k as int]@);
                assert(rows[i as int] == targets@[i as int]@);
            }
            if same(&targets[k].target_id, &targets[i].target_id) {
                proof {
                    assert(repeats(rows, i as int));
                }
                let mut detail = "duplicate target_id ".to_owned();
                detail.append(&targets[i].target_id);
                return Err(Rejection { kind: ErrorKind::InvalidRequest, detail, persist: true });
            }
            k += 1;
        }
        i += 1;
    }
    Ok(())
}

// --- Order ---------------------------------------------------------------------------------------

/// A row put into a sorted list, behind the rows that its id does not come before.
pub open spec fn insert_row(
    sorted: Seq<TargetObservationView>,
    row: TargetObservationView,
) -> Seq<TargetObservationView>
    decreases sorted.len(),
{
    if sorted.len() > 0 && text_before(row.target_id, sorted.last().target_id) {
        insert_row(sorted.drop_last(), row).push(sorted.last())
    } else {
        sorted.push(row)
    }
}

/// The rows in the order of their ids; rows with one id keep their order.
pub open spec fn sorted_rows(rows: Seq<TargetObservationView>) -> Seq<TargetObservationView>
    decreases rows.len(),
{
    if rows.len() == 0 {
        Seq::empty()
    } else {
        insert_row(sorted_rows(rows.drop_last()), rows.last())
    }
}

/// Whether no row comes before an earlier one.
pub open spec fn in_order(rows: Seq<TargetObservationView>) -> bool {
    forall|i: int, j: int|
        0 <= i < j < rows.len() ==> !text_before(
            (#[trigger] rows[j]).target_id,
            (#[trigger] rows[i]).target_id,
        )
}

/// The rows with one id, in order.
pub open spec fn with_id(rows: Seq<TargetObservationView>, id: Seq<char>) -> Seq<
    TargetObservationView,
>
    decreases rows.len(),
{
    if rows.len() == 0 {
        Seq::empty()
    } else if rows.last().target_id == id {
        with_id(rows.drop_last(), id).push(rows.last())
    } else {
        with_id(rows.drop_last(), id)
    }
}

proof fn insert_row_rule(sorted: Seq<TargetObservationView>, row: TargetObservationView, id: Seq<char>)
    requires
        in_order(sorted),
    ensures
        in_order(insert_row(sorted, row)),
        insert_row(sorted, row).len() == sorted.len() + 1,
        forall|b: Seq<char>|
            (forall|k: int|
                0 <= k < sorted.len() ==> !text_before(b, (#[trigger] sorted[k]).target_id))
                && !text_before(b, row.target_id) ==> (forall|k: int|
                0 <= k < insert_row(sorted, row).len() ==> !#[trigger] text_before(
                    b,
                    insert_row(sorted, row)[k].target_id,
                )),
        with_id(insert_row(sorted, row), id) == if row.target_id == id {
            with_id(sorted, id).push(row)
        } else {
            with_id(sorted, id)
        },
    decreases sorted.len(),
{
    let new = insert_row(sorted, row);
    if sorted.len() > 0 && text_before(row.target_id, sorted.last().target_id) {
        let front = sorted.drop_last();
        let last = sorted.last();
        assert(in_order(front)) by {
            assert forall|i: int, j: int| 0 <= i < j < front.len() implies !text_before(
                (#[trigger] front[j]).target_id,
                (#[trigger] front[i]).target_id,
            ) by {
                assert(front[i] == sorted[i] && front[j] == sorted[j]);
            }
        }
        insert_row_rule(front, row, id);
        let mid = insert_row(front, row);
        assert(new.drop_last() =~= mid);
        assert forall|k: int| 0 <= k < front.len() implies !text_before(
            last.target_id,
            (#[trigger] front[k]).target_id,
        ) by {
            assert(front[k] == sorted[k]);
            assert(sorted[sorted.len() - 1] == last);
        }
        text_order_total(row.target_id, last.target_id);
        assert(forall|k: int|
            0 <= k < mid.len() ==> !#[trigger] text_before(last.target_id, mid[k].target_id));
        assert forall|i: int, j: int| 0 <= i < j < new.len() implies !text_before(
            (#[trigger] new[j]).target_id,
            (#[trigger] new[i]).target_id,
        ) by {
            if j == new.len() - 1 {
                assert(new[i] == mid[i]);
                assert(!text_before(last.target_id, mid[i].target_id));
            } else {
                assert(new[i] == mid[i] && new[j] == mid[j]);
            }
        }
        assert forall|b: Seq<char>|
            (forall|k: int|
                0 <= k < sorted.len() ==> !text_before(b, (#[trigger] sorted[k]).target_id))
                && !text_before(b, row.target_id) implies (forall|k: int|
            0 <= k < new.len() ==> !#[trigger] text_before(b, new[k].target_id)) by {
            assert forall|k: int| 0 <= k < front.len() implies !text_before(
                b,
                (#[trigger] front[k]).target_id,
            ) by {
                assert(front[k] == sorted[k]);
            }
            assert forall|k: int| 0 <= k < new.len() implies !#[trigger] text_before(
                b,
                new[k].target_id,
            ) by {
                if k < mid.len() {
                    assert(new[k] == mid[k]);
                    assert(!text_before(b, mid[k].target_id));
                } else {
                    assert(sorted[sorted.len() - 1] == last);
                }
            }
        }
        text_order_total(row.target_id, row.target_id);
    } else {
        assert(new.drop_last() =~= sorted);
        assert forall|i: int, j: int| 0 <= i < j < new.len() implies !text_before(
            (#[trigger] new[j]).target_id,
            (#[trigger] new[i]).target_id,
        ) by {
            if j == new.len() - 1 {
                if i < sorted.len() - 1 && text_before(row.target_id, sorted[i].target_id) {
                    // The last row is not before row i, and row is not before the last row.
                    let last = sorted.last();
                    assert(!text_before(last.target_id, sorted[i].target_id)) by {
                        assert(sorted[sorted.len() - 1] == last);
                    }
                    text_order_total(sorted[i].target_id, last.target_id);
                    if sorted[i].target_id != last.target_id {
                        text_order_transitive(
                            row.target_id,
                            sorted[i].target_id,
                            last.target_id,
                        );
                    }
                }
            } else {
                assert(new[i] == sorted[i] && new[j] == sorted[j]);
            }
        }
    }
}

/// Sorting puts the rows in the order of their ids, and keeps the rows of each id, in order.
pub proof fn sorting_is_stable(rows: Seq<TargetObservationView>, id: Seq<char>)
    ensures
        in_order(sorted_rows(rows)),
        sorted_rows(rows).len() == rows.len(),
        with_id(sorted_rows(rows), id) == with_id(rows, id),
    decreases rows.len(),
{
    if rows.len() > 0 {
        sorting_is_stable(rows.drop_last(), id);
        insert_row_rule(sorted_rows(rows.drop_last()), rows.last(), id);
    }
}

proof fn insert_row_at(sorted: Seq<TargetObservationView>, row: TargetObservationView, at: int)
    requires
        0 <= at <= sorted.len(),
        forall|k: int|
            at <= k < sorted.len() ==> text_before(
                row.target_id,
                (#[trigger] sorted[k]).target_id,
            ),
        at > 0 ==> !text_before(row.target_id, sorted[at - 1].target_id),
    ensures
        insert_row(sorted, row) == sorted.insert(at, row),
    decreases sorted.len(),
{
    if at < sorted.len() {
        let front = sorted.drop_last();
        assert(sorted[sorted.len() - 1] == sorted.last());
        assert forall|k: int| at <= k < front.len() implies text_before(
            row.target_id,
            (#[trigger] front[k]).target_id,
        ) by {
            assert(front[k] == sorted[k]);
        }
        insert_row_at(front, row, at);
        assert(insert_row(sorted, row) =~= sorted.insert(at, row));
    } else {
        assert(sorted.insert(at, row) =~= sorted.push(row));
    }
}

/// The rows in the order of their ids.
pub fn sorted_by_target_id(targets: Vec<TargetObservation>) -> (r: Vec<TargetObservation>)
    ensures
        rows_of(r@) == sorted_rows(rows_of(targets@)),
{
    let ghost rows = rows_of(targets@);
    let mut out: Vec<TargetObservation> = Vec::new();
    let mut i: usize = 0;
    proof {
        assert(rows.take(0) =~= Seq::<TargetObservationView>::empty());
        assert(rows_of(out@) =~= Seq::<TargetObservationView>::empty());
    }
    while i < targets.len()
        invariant
            i <= targets.len(),
            rows == rows_of(targets@),
            rows_of(out@) == sorted_rows(rows.take(i as int)),
        decreases targets.len() - i,
    {
        let row = targets[i].clone();
        let ghost done = rows_of(out@);
        let mut at: usize = out.len();
        while at > 0 && before(&row.target_id, &out[at - 1].target_id)
            invariant
                at <= out.len(),
                done == rows_of(out@),
                forall|k: int|
                    at <= k < done.len() ==> text_before(
                        row@.target_id,
                        (#[trigger] done[k]).target_id,
                    ),
            decreases at,
        {
            proof {
                assert(done[at - 1] == out@[at - 1]@);
            }
            at -= 1;
        }
        proof {
            if at > 0 {
                assert(done[at - 1] == out@[at - 1]@);
            }
            insert_row_at(done, row@, at as int);
        }
        let ghost before_insert = out@;
        out.insert(at, row);
        proof {
            assert(rows_of(out@) =~= done.insert(at as int, row@));
            assert(rows.take(i + 1).drop_last() =~= rows.take(i as int));
            assert(rows.take(i + 1).last() == row@);
        }
        i += 1;
    }
    proof {
        assert(rows.take(rows.len() as int) =~= rows);
    }
    out
}

/// A declared row begins unobserved: whatever state the caller put on it is discarded.
pub open spec fn unobserved(t: TargetObservationView) -> TargetObservationView {
    TargetObservationView {
        observed_digest: None,
        observed_at: None,
        state: TargetState::Unknown,
        ..t
    }
}

/// The rows of an intent at prepare time.
pub open spec fn declared_rows(rows: Seq<TargetObservationView>) -> Seq<TargetObservationView> {
    sorted_rows(rows.map_values(|t: TargetObservationView| unobserved(t)))
}

/// Normalizes the declared rows at prepare time.
pub fn declared_at_prepare(targets: &Vec<TargetObservation>) -> (r: Vec<TargetObservation>)
    ensures
        rows_of(r@) == declared_rows(rows_of(targets@)),
{
    let ghost wanted = rows_of(targets@).map_values(|t: TargetObservationView| unobserved(t));
    let mut out: Vec<TargetObservation> = Vec::new();
    let mut i: usize = 0;
    while i < targets.len()
        invariant
            i <= targets.len(),
            out.len() == i,
            forall|k: int| 0 <= k < i ==> (#[trigger] out@[k])@ == unobserved(targets@[k]@),
        decreases targets.len() - i,
    {
        let mut t = targets[i].clone();
        t.observed_digest = None;
        t.observed_at = None;
        t.state = TargetState::Unknown;
        out.push(t);
        i += 1;
    }
    proof {
        assert(rows_of(out@) =~= wanted);
    }
    sorted_by_target_id(out)
}

// --- Settlement of declared targets --------------------------------------------------------------

/// The last row with an id.
pub open spec fn observation_of(rows: Seq<TargetObservationView>, id: Seq<char>) -> Option<
    TargetObservationView,
>
    decreases rows.len(),
{
    if rows.len() == 0 {
        None
    } else if rows.last().target_id == id {
        Some(rows.last())
    } else {
        observation_of(rows.drop_last(), id)
    }
}

/// A declared row with its observation: the caller gives the observed digest and time and
/// nothing else, and the state follows from the digests.
pub open spec fn merged_row(
    declared: TargetObservationView,
    submitted: Seq<TargetObservationView>,
) -> TargetObservationView {
    let seen = match observation_of(submitted, declared.target_id) {
        Some(obs) => TargetObservationView {
            observed_digest: obs.observed_digest,
            observed_at: obs.observed_at,
            ..declared
        },
        None => TargetObservationView { observed_digest: None, observed_at: None, ..declared },
    };
    TargetObservationView { state: declared_state(seen), ..seen }
}

/// Whether a target is declared.
pub open spec fn is_declared(declared: Seq<TargetObservationView>, id: Seq<char>) -> bool {
    exists|k: int| 0 <= k < declared.len() && (#[trigger] declared[k]).target_id == id
}

/// The first submitted row, from `i` on, that names no declared target.
pub open spec fn undeclared_from(
    declared: Seq<TargetObservationView>,
    submitted: Seq<TargetObservationView>,
    i: int,
) -> int
    decreases submitted.len() - i,
{
    if i >= submitted.len() {
        submitted.len() as int
    } else if !is_declared(declared, submitted[i].target_id) {
        i
    } else {
        undeclared_from(declared, submitted, i + 1)
    }
}

/// What settling declared targets gives.
pub open spec fn merged(
    declared: Seq<TargetObservationView>,
    submitted: Seq<TargetObservationView>,
) -> Result<Seq<TargetObservationView>, RejectionView> {
    let at = undeclared_from(declared, submitted, 0);
    if at < submitted.len() {
        Err(
            refuse(
                ErrorKind::InvalidRequest,
                "settle names undeclared target "@ + submitted[at].target_id,
                true,
            ),
        )
    } else {
        Ok(declared.map_values(|d: TargetObservationView| merged_row(d, submitted)))
    }
}

/// The rows of a result of settling targets.
pub open spec fn rows_result(r: Result<Vec<TargetObservation>, Rejection>) -> Result<
    Seq<TargetObservationView>,
    RejectionView,
> {
    match r {
        Ok(v) => Ok(rows_of(v@)),
        Err(e) => Err(e@),
    }
}

/// Declared-target settlement: the identity and digests of prepare time are immutable, the
/// states are recomputed, and a declared target without an observation stays unknown.
pub fn merge_declared(
    declared: &Vec<TargetObservation>,
    submitted: &Vec<TargetObservation>,
) -> (r: Result<Vec<TargetObservation>, Rejection>)
    ensures
        rows_result(r) == merged(rows_of(declared@), rows_of(submitted@)),
{
    let ghost known = rows_of(declared@);
    let ghost given = rows_of(submitted@);
    let mut i: usize = 0;
    while i < submitted.len()
        invariant
            i <= submitted.len(),
            known == rows_of(declared@),
            given == rows_of(submitted@),
            undeclared_from(known, given, 0) == undeclared_from(known, given, i as int),
        decreases submitted.len() - i,
    {
        let mut k: usize = 0;
        let mut found = false;
        while k < declared.len() && !found
            invariant
                k <= declared.len(),
                i < submitted.len(),
                known == rows_of(declared@),
                given == rows_of(submitted@),
                found ==> is_declared(known, given[i as int].target_id),
                !found ==> forall|j: int|
                    0 <= j < k ==> (#[trigger] known[j]).target_id != given[i as int].target_id,
            decreases declared.len() - k, if found { 0int } else { 1 },
        {
            proof {
                assert(known[k as int] == declared@[k as int]@);
                assert(given[i as int] == submitted@[i as int]@);
            }
            if same(&declared[k].target_id, &submitted[i].target_id) {
                found = true;
            } else {
                k += 1;
            }
        }
        if !found {
            let mut detail = "settle names undeclared target ".to_owned();
            detail.append(&submitted[i].target_id);
            proof {
                assert(given[i as int] == submitted@[i as int]@);
                assert(!is_declared(known, given[i as int].target_id));
            }
            return Err(Rejection { kind: ErrorKind::InvalidRequest, detail, persist: true });
        }
        i += 1;
    }
    let mut out: Vec<TargetObservation> = Vec::new();
    let mut j: usize = 0;
    while j < declared.len()
        invariant
            j <= declared.len(),
            out.len() == j,
            given == rows_of(submitted@),
            forall|k: int| 0 <= k < j ==> (#[trigger] out@[k])@ == merged_row(declared@[k]@, given),
        decreases declared.len() - j,
    {
        let mut row = declared[j].clone();
        match last_with_id(submitted, &declared[j].target_id) {
            Some(obs) => {
                row.observed_digest = obs.observed_digest.clone();
                row.observed_at = obs.observed_at;
            },
            None => {
                row.observed_digest = None;
                row.observed_at = None;
            },
        }
        row.classify_declared();
        out.push(row);
        j += 1;
    }
    proof {
        assert(rows_of(out@) =~= known.map_values(|d: TargetObservationView| merged_row(d, given)));
    }
    Ok(out)
}

fn last_with_id<'a>(rows: &'a Vec<TargetObservation>, id: &str) -> (r: Option<
    &'a TargetObservation,
>)
    ensures
        match r {
            Some(t) => observation_of(rows_of(rows@), id@) == Some(t@),
            None => observation_of(rows_of(rows@), id@) is None,
        },
{
    let ghost all = rows_of(rows@);
    let mut i: usize = rows.len();
    proof {
        assert(all.take(all.len() as int) =~= all);
    }
    while i > 0
        invariant
            i <= rows.len(),
            all == rows_of(rows@),
            observation_of(all, id@) == observation_of(all.take(i as int), id@),
        decreases i,
    {
        i -= 1;
        proof {
            assert(all.take(i + 1).drop_last() =~= all.take(i as int));
            assert(all.take(i + 1).last() == rows@[i as int]@);
        }
        if same(&rows[i].target_id, id) {
            return Some(&rows[i]);
        }
    }
    None
}

/// A declared target that the settling caller leaves out ends up unknown: omitting rows can
/// never make a success.
pub proof fn omitted_targets_stay_unknown(
    declared: TargetObservationView,
    submitted: Seq<TargetObservationView>,
)
    requires
        observation_of(submitted, declared.target_id) is None,
    ensures
        merged_row(declared, submitted).state == TargetState::Unknown,
{
}

/// The identity and the digests of a declared target are those of prepare time, whatever
/// the caller submits.
pub proof fn declared_identity_is_immutable(
    declared: TargetObservationView,
    submitted: Seq<TargetObservationView>,
)
    ensures
        merged_row(declared, submitted).target_id == declared.target_id,
        merged_row(declared, submitted).expected_digest == declared.expected_digest,
        merged_row(declared, submitted).pre_digest == declared.pre_digest,
{
}

// --- Settlement of targets found afterwards ------------------------------------------------------

/// A target found afterwards: applied only where it was observed and the process ended
/// cleanly.
pub open spec fn post_hoc_row(t: TargetObservationView, evidence: SettleEvidence) -> TargetObservationView {
    TargetObservationView {
        expected_digest: None,
        state: if evidence.clean_wait_status && t.observed_digest is Some {
            TargetState::Applied
        } else {
            TargetState::Unknown
        },
        ..t
    }
}

/// The targets found afterwards, in the order of their ids.
pub open spec fn post_hoc_rows(
    rows: Seq<TargetObservationView>,
    evidence: SettleEvidence,
) -> Seq<TargetObservationView> {
    sorted_rows(rows.map_values(|t: TargetObservationView| post_hoc_row(t, evidence)))
}

/// Post-hoc settlement. The state that the caller asserts is never consulted.
pub fn classify_post_hoc(
    submitted: &Vec<TargetObservation>,
    evidence: SettleEvidence,
) -> (r: Vec<TargetObservation>)
    ensures
        rows_of(r@) == post_hoc_rows(rows_of(submitted@), evidence),
{
    let ghost wanted = rows_of(submitted@).map_values(
        |t: TargetObservationView| post_hoc_row(t, evidence),
    );
    let mut out: Vec<TargetObservation> = Vec::new();
    let mut i: usize = 0;
    while i < submitted.len()
        invariant
            i <= submitted.len(),
            out.len() == i,
            forall|k: int|
                0 <= k < i ==> (#[trigger] out@[k])@ == post_hoc_row(submitted@[k]@, evidence),
        decreases submitted.len() - i,
    {
        let mut t = submitted[i].clone();
        t.expected_digest = None;
        t.state = if evidence.clean_wait_status && t.observed_digest.is_some() {
            TargetState::Applied
        } else {
            TargetState::Unknown
        };
        out.push(t);
        i += 1;
    }
    proof {
        assert(rows_of(out@) =~= wanted);
    }
    sorted_by_target_id(out)
}

/// What settling the targets of an intent gives, by the enumeration declared at prepare time.
pub open spec fn settled_targets(
    intent: EffectIntentView,
    submitted: Seq<TargetObservationView>,
    evidence: SettleEvidence,
) -> Result<Seq<TargetObservationView>, RejectionView> {
    match intent.target_enumeration {
        TargetEnumeration::Declared => merged(intent.targets, submitted),
        TargetEnumeration::PostHoc => Ok(post_hoc_rows(submitted, evidence)),
    }
}

/// Classifies the targets at settle time, by the declaration at prepare time rather than by
/// whether rows happen to be there.
pub fn classify_settle_targets(
    intent: &EffectIntent,
    submitted: &Vec<TargetObservation>,
    evidence: SettleEvidence,
) -> (r: Result<Vec<TargetObservation>, Rejection>)
    ensures
        rows_result(r) == settled_targets(intent@, rows_of(submitted@), evidence),
{
    match intent.target_enumeration {
        TargetEnumeration::Declared => merge_declared(&intent.targets, submitted),
        TargetEnumeration::PostHoc => Ok(classify_post_hoc(submitted, evidence)),
    }
}

// --- Which state may settle which terminal -------------------------------------------------------

/// Whether the adapter may have touched the world: the commit of `dispatching` authorizes it.
pub open spec fn dispatch_evidence(state: EffectState) -> bool {
    ||| state == EffectState::Dispatching
    ||| state == EffectState::Dispatched
    ||| state == EffectState::Observing
    ||| state == EffectState::Reconciling
    ||| state == EffectState::Compensating
}

/// Why a terminal is unlawful for an intent; `None` where it is lawful.
pub open spec fn unlawful(
    intent: EffectIntentView,
    terminal: EffectTerminal,
    evidence: SettleEvidence,
) -> Option<Seq<char>> {
    let state = intent.state.debug_name_text();
    let dispatched = dispatch_evidence(intent.state);
    match terminal {
        EffectTerminal::Succeeded | EffectTerminal::Failed => if dispatched {
            None
        } else {
            Some(
                terminal.debug_name_text() + " needs dispatch evidence; state is "@ + state
                    + " (§9 step 6 forbids synthetic outcomes)"@,
            )
        },
        EffectTerminal::Cancelled => if intent.state == EffectState::Prepared {
            None
        } else if dispatched && evidence.target_reported_cancellation {
            None
        } else {
            Some(
                "cancelled from "@ + state
                    + " requires an authoritative target-reported cancellation (§5.3); a cancel request MUST NOT convert an uncertain effect into cancelled (I7)"@,
            )
        },
        EffectTerminal::Compensated => if !dispatched {
            Some("compensated from "@ + state + ": nothing was dispatched to compensate"@)
        } else if intent.reversibility_class == ReversibilityClass::Irreversible {
            Some(
                "compensated is unavailable for an irreversible effect (§5.3 R20); an unproven outcome surfaces to the owner for accept-unknown"@,
            )
        } else if intent.compensation_intent_id is None {
            Some("compensated requires a registered compensation intent (§4.2 step 5)"@)
        } else {
            None
        },
        EffectTerminal::Unknown => if dispatched {
            None
        } else {
            Some(
                "unknown from "@ + state
                    + ": I8 proves no adapter acted, so the outcome is not uncertain"@,
            )
        },
    }
}

/// Which state may settle which terminal. The reason is diagnostic; callers branch on the
/// kind.
pub fn settle_legality(
    intent: &EffectIntent,
    terminal: EffectTerminal,
    evidence: SettleEvidence,
) -> (r: Option<String>)
    ensures
        match r {
            Some(reason) => unlawful(intent@, terminal, evidence) == Some(reason@),
            None => unlawful(intent@, terminal, evidence) is None,
        },
{
    let state = intent.state;
    let dispatched = matches!(
        state,
        EffectState::Dispatching
            | EffectState::Dispatched
            | EffectState::Observing
            | EffectState::Reconciling
            | EffectState::Compensating
    );
    match terminal {
        EffectTerminal::Succeeded | EffectTerminal::Failed => {
            if dispatched {
                return None;
            }
            let mut reason = terminal.debug_name().to_owned();
            reason.append(" needs dispatch evidence; state is ");
            reason.append(state.debug_name());
            reason.append(" (§9 step 6 forbids synthetic outcomes)");
            Some(reason)
        },
        EffectTerminal::Cancelled => {
            if state == EffectState::Prepared {
                return None;
            }
            if dispatched && evidence.target_reported_cancellation {
                return None;
            }
            let mut reason = "cancelled from ".to_owned();
            reason.append(state.debug_name());
            reason.append(
                " requires an authoritative target-reported cancellation (§5.3); a cancel request MUST NOT convert an uncertain effect into cancelled (I7)",
            );
            Some(reason)
        },
        EffectTerminal::Compensated => {
            if !dispatched {
                let mut reason = "compensated from ".to_owned();
                reason.append(state.debug_name());
                reason.append(": nothing was dispatched to compensate");
                return Some(reason);
            }
            if intent.reversibility_class == ReversibilityClass::Irreversible {
                return Some(
                    "compensated is unavailable for an irreversible effect (§5.3 R20); an unproven outcome surfaces to the owner for accept-unknown".to_owned(),
                );
            }
            if intent.compensation_intent_id.is_none() {
                return Some("compensated requires a registered compensation intent (§4.2 step 5)".to_owned());
            }
            None
        },
        EffectTerminal::Unknown => {
            if dispatched {
                return None;
            }
            let mut reason = "unknown from ".to_owned();
            reason.append(state.debug_name());
            reason.append(
                ": I8 proves no adapter acted, so the outcome is not uncertain",
            );
            Some(reason)
        },
    }
}

/// An effect is cancelled only where it was never dispatched, or where the target itself
/// reported the cancellation: a request alone never turns an uncertain effect into a
/// cancelled one.
pub proof fn cancellation_needs_proof(
    intent: EffectIntentView,
    evidence: SettleEvidence,
)
    requires
        unlawful(intent, EffectTerminal::Cancelled, evidence) is None,
    ensures
        intent.state == EffectState::Prepared || evidence.target_reported_cancellation,
{
}

/// No outcome of the world is recorded for an intent that was never dispatched.
pub proof fn outcomes_are_never_synthetic(
    intent: EffectIntentView,
    terminal: EffectTerminal,
    evidence: SettleEvidence,
)
    requires
        unlawful(intent, terminal, evidence) is None,
        terminal != EffectTerminal::Cancelled,
    ensures
        dispatch_evidence(intent.state),
{
}

/// The wire name of a terminal.
pub fn terminal_wire(t: EffectTerminal) -> (r: &'static str)
    ensures
        r@ == t.wire_text(),
{
    t.wire()
}

/// The wire name of a state.
pub fn state_wire(s: EffectState) -> (r: &'static str)
    ensures
        r@ == s.wire_text(),
{
    s.wire()
}

} // verus!
