//! The evidence of a worker: one record per confirmed commit.
use crate::harness::workload::{CommitSpec, CommitSpecView};
use crate::text::{dec, decimal};
use vstd::prelude::*;
use vstd::string::*;

verus! {

/// A commit that the store confirmed durable.
#[derive(Debug)]
pub struct Confirmed {
    pub spec: CommitSpec,
    pub generation: u64,
    pub durable_at: Option<u64>,
    /// Set when a spec that was planned to be stale was accepted.
    pub stale_accepted: bool,
}

/// The view of a `Confirmed`.
pub struct ConfirmedView {
    pub spec: CommitSpecView,
    pub generation: u64,
    pub durable_at: Option<u64>,
    pub stale_accepted: bool,
}

impl View for Confirmed {
    type V = ConfirmedView;

    open spec fn view(&self) -> ConfirmedView {
        ConfirmedView {
            spec: self.spec@,
            generation: self.generation,
            durable_at: self.durable_at,
            stale_accepted: self.stale_accepted,
        }
    }
}

impl Clone for Confirmed {
    fn clone(&self) -> (r: Self)
        ensures
            r@ == self@,
    {
        Confirmed {
            spec: self.spec.clone(),
            generation: self.generation,
            durable_at: self.durable_at,
            stale_accepted: self.stale_accepted,
        }
    }
}

/// One line of the evidence file, decoded: empty, a record, or unparseable.
#[derive(Debug)]
pub enum EvidenceLine {
    Empty,
    Record(Confirmed),
    Torn,
}

/// The view of an `EvidenceLine`.
pub enum EvidenceLineView {
    Empty,
    Record(ConfirmedView),
    Torn,
}

impl View for EvidenceLine {
    type V = EvidenceLineView;

    open spec fn view(&self) -> EvidenceLineView {
        match self {
            EvidenceLine::Empty => EvidenceLineView::Empty,
            EvidenceLine::Record(r) => EvidenceLineView::Record(r@),
            EvidenceLine::Torn => EvidenceLineView::Torn,
        }
    }
}

/// The views of a list of lines.
pub open spec fn line_views(lines: Seq<EvidenceLine>) -> Seq<EvidenceLineView> {
    lines.map_values(|l: EvidenceLine| l@)
}

/// The views of a list of records.
pub open spec fn record_views(list: Seq<Confirmed>) -> Seq<ConfirmedView> {
    list.map_values(|c: Confirmed| c@)
}

/// The records of a file, in order.
pub open spec fn records_of(lines: Seq<EvidenceLineView>) -> Seq<ConfirmedView>
    decreases lines.len(),
{
    if lines.len() == 0 {
        Seq::empty()
    } else {
        let front = records_of(lines.drop_last());
        match lines.last() {
            EvidenceLineView::Record(r) => front.push(r),
            _ => front,
        }
    }
}

/// The last torn line among the first `n`.
pub open spec fn torn_before(lines: Seq<EvidenceLineView>, n: int) -> Option<int>
    decreases n,
{
    if n <= 0 {
        None
    } else if lines[n - 1] is Torn {
        Some(n - 1)
    } else {
        torn_before(lines, n - 1)
    }
}

/// Whether the line at `n` follows a torn line: corruption, and not a torn tail. An empty line is
/// no line of evidence.
pub open spec fn corrupt_at(lines: Seq<EvidenceLineView>, n: int) -> bool {
    0 <= n < lines.len() && !(lines[n] is Empty) && torn_before(lines, n) is Some
}

/// What is said of a corrupt file: the torn line, and the line that follows it.
pub open spec fn corruption_text(lines: Seq<EvidenceLineView>, n: int) -> Seq<char> {
    "sidecar corrupt: unparseable line "@ + dec(torn_before(lines, n)->0 as nat) + (
    if lines[n] is Record {
        " followed by valid line "@
    } else {
        " followed by unparseable line "@
    }) + dec(n as nat)
}

fn corruption(torn: usize, next: usize, valid: bool) -> (r: String)
    ensures
        r@ == "sidecar corrupt: unparseable line "@ + dec(torn as nat) + (if valid {
            " followed by valid line "@
        } else {
            " followed by unparseable line "@
        }) + dec(next as nat),
{
    let mut e = "sidecar corrupt: unparseable line ".to_owned();
    e.append(&decimal(torn as u64));
    e.append(if valid { " followed by valid line " } else { " followed by unparseable line " });
    e.append(&decimal(next as u64));
    e
}

/// Reads the evidence back. A torn last line is expected, since a kill can land while a line is
/// written; a torn line anywhere else is corruption. The first line after it is reported with
/// it.
pub fn read_confirmed(lines: Vec<EvidenceLine>) -> (r: Result<Vec<Confirmed>, String>)
    ensures
        ({
            let all = line_views(lines@);
            match r {
                Ok(records) => {
                    &&& record_views(records@) == records_of(all)
                    &&& forall|n: int| !corrupt_at(all, n)
                },
                Err(e) => exists|n: int| #[trigger]
                    corrupt_at(all, n) && e@ == corruption_text(all, n) && forall|k: int|
                        0 <= k < n ==> !corrupt_at(all, k),
            }
        }),
{
    let ghost all = line_views(lines@);
    let mut out: Vec<Confirmed> = Vec::new();
    let mut torn_at: Option<usize> = None;
    let mut i: usize = 0;
    proof {
        assert(all.take(0) =~= Seq::<EvidenceLineView>::empty());
        assert(record_views(out@) =~= Seq::<ConfirmedView>::empty());
    }
    while i < lines.len()
        invariant
            i <= lines.len(),
            all == line_views(lines@),
            record_views(out@) == records_of(all.take(i as int)),
            torn_before(all, i as int) == (match torn_at {
                Some(t) => Some(t as int),
                None => None,
            }),
            forall|k: int| k < i ==> !corrupt_at(all, k),
        decreases lines.len() - i,
    {
        proof {
            assert(all[i as int] == lines@[i as int]@);
            assert(all.take(i + 1).drop_last() =~= all.take(i as int));
            assert(all.take(i + 1).last() == all[i as int]);
        }
        match &lines[i] {
            EvidenceLine::Empty => {},
            EvidenceLine::Record(rec) => {
                if let Some(t) = torn_at {
                    proof {
                        assert(corrupt_at(all, i as int));
                    }
                    return Err(corruption(t, i, true));
                }
                let ghost before = record_views(out@);
                let copy = rec.clone();
                out.push(copy);
                proof {
                    assert(record_views(out@) =~= before.push(rec@));
                }
            },
            EvidenceLine::Torn => {
                if let Some(t) = torn_at {
                    proof {
                        assert(corrupt_at(all, i as int));
                    }
                    return Err(corruption(t, i, false));
                }
                torn_at = Some(i);
            },
        }
        i += 1;
    }
    proof {
        assert(all.take(all.len() as int) =~= all);
    }
    Ok(out)
}

/// A torn last line loses no record: where the lines before it hold no torn line, the file is
/// read, and its records are theirs.
pub proof fn torn_tails_lose_nothing(lines: Seq<EvidenceLineView>)
    requires
        forall|i: int| 0 <= i < lines.len() ==> !(#[trigger] lines[i] is Torn),
    ensures
        records_of(lines.push(EvidenceLineView::Torn)) == records_of(lines),
        forall|n: int| !corrupt_at(lines.push(EvidenceLineView::Torn), n),
{
    let all = lines.push(EvidenceLineView::Torn);
    assert(all.drop_last() =~= lines);
    assert forall|n: int| !corrupt_at(all, n) by {
        if 0 <= n < all.len() {
            none_torn_before(all, n);
        }
    }
}

proof fn none_torn_before(lines: Seq<EvidenceLineView>, n: int)
    requires
        0 <= n <= lines.len(),
        forall|i: int| 0 <= i < n ==> !(#[trigger] lines[i] is Torn),
    ensures
        torn_before(lines, n) is None,
    decreases n,
{
    if n > 0 {
        none_torn_before(lines, n - 1);
    }
}

proof fn torn_is_before(lines: Seq<EvidenceLineView>, i: int, n: int)
    requires
        0 <= i < n <= lines.len(),
        lines[i] is Torn,
    ensures
        torn_before(lines, n) is Some,
    decreases n,
{
    if i < n - 1 {
        torn_is_before(lines, i, n - 1);
    }
}

/// A torn line that some line of evidence follows makes the file corrupt.
pub proof fn torn_lines_are_last(lines: Seq<EvidenceLineView>, i: int, n: int)
    requires
        0 <= i < n < lines.len(),
        lines[i] is Torn,
        !(lines[n] is Empty),
    ensures
        corrupt_at(lines, n),
{
    torn_is_before(lines, i, n);
}

} // verus!
