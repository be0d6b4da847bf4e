//! The handoff from a snapshot to polling the log, while writers go on.
use crate::harness::orchestrate::{entries_between, polled_views, Handoff, WalReadView};
use vstd::prelude::*;

verus! {

/// After how many commits the snapshot is taken.
pub const SNAPSHOT_AT: u64 = 40;

/// What the writers report: the committed events and the durability watermark.
#[derive(Debug)]
pub struct Recorder {
    pub committed: Vec<u64>,
    pub watermark: u64,
}

impl Recorder {
    /// A recorder that has seen nothing.
    pub fn new() -> (r: Recorder)
        ensures
            r.committed@ == Seq::<u64>::empty(),
            r.watermark == 0,
    {
        Recorder { committed: Vec::new(), watermark: 0 }
    }

    /// Records a commit before the watermark moves, so that no poller trusts a sequence whose
    /// event might be missing here. Tells whether the snapshot is to be taken now.
    pub fn record(&mut self, event_id: u64, durable_at: Option<u64>) -> (r: bool)
        ensures
            final(self).committed@ == old(self).committed@.push(event_id),
            final(self).watermark == (match durable_at {
                Some(seq) => if seq > old(self).watermark {
                    seq
                } else {
                    old(self).watermark
                },
                None => old(self).watermark,
            }),
            r == (final(self).committed@.len() == SNAPSHOT_AT),
    {
        self.committed.push(event_id);
        if let Some(seq) = durable_at {
            if seq > self.watermark {
                self.watermark = seq;
            }
        }
        self.committed.len() as u64 == SNAPSHOT_AT
    }
}

/// A reader that took a snapshot at a cursor and polls the log from there.
#[derive(Debug)]
pub struct Watcher {
    /// The cursor and the events of the snapshot.
    pub snapshot: Option<(u64, Vec<u64>)>,
    pub last_polled: u64,
    pub polled: Vec<u64>,
}

/// The events of polled entries, in order.
pub open spec fn events_in(entries: Seq<(u64, Seq<u64>)>) -> Seq<u64>
    decreases entries.len(),
{
    if entries.len() == 0 {
        Seq::empty()
    } else {
        events_in(entries.drop_last()) + entries.last().1
    }
}

impl Watcher {
    /// A reader without a snapshot.
    pub fn new() -> (r: Watcher)
        ensures
            r.snapshot is None,
            r.last_polled == 0,
            r.polled@ == Seq::<u64>::empty(),
    {
        Watcher { snapshot: None, last_polled: 0, polled: Vec::new() }
    }

    /// Takes the snapshot: polling begins at its cursor.
    pub fn take_snapshot(&mut self, cursor: u64, events: Vec<u64>)
        ensures
            final(self).snapshot == Some((cursor, events)),
            final(self).last_polled == cursor,
            final(self).polled@ == old(self).polled@,
    {
        self.snapshot = Some((cursor, events));
        self.last_polled = cursor;
    }

    /// What is to be polled for a watermark: the sequences after the first number and up to the
    /// second. Nothing before the snapshot is taken, and nothing twice.
    pub fn next_range(&self, watermark: u64) -> (r: Option<(u64, u64)>)
        ensures
            r == (if self.snapshot is Some && watermark > self.last_polled {
                Some((self.last_polled, watermark))
            } else {
                None
            }),
    {
        if self.snapshot.is_some() && watermark > self.last_polled {
            Some((self.last_polled, watermark))
        } else {
            None
        }
    }

    /// Takes the entries of a poll up to a watermark.
    pub fn absorb(&mut self, watermark: u64, entries: &Vec<(u64, Vec<u64>)>)
        ensures
            final(self).snapshot == old(self).snapshot,
            final(self).last_polled == watermark,
            final(self).polled@ == old(self).polled@ + events_in(polled_views(entries@)),
    {
        let ghost all = polled_views(entries@);
        let ghost start = self.polled@;
        let mut i: usize = 0;
        proof {
            assert(all.take(0) =~= Seq::<(u64, Seq<u64>)>::empty());
            assert(start + events_in(all.take(0)) =~= start);
        }
        while i < entries.len()
            invariant
                i <= entries.len(),
                all == polled_views(entries@),
                start == old(self).polled@,
                self.snapshot == old(self).snapshot,
                self.polled@ == start + events_in(all.take(i as int)),
            decreases entries.len() - i,
        {
            proof {
                assert(all.take(i + 1).drop_last() =~= all.take(i as int));
                assert(all.take(i + 1).last().1 == entries@[i as int].1@);
            }
            let ghost before = self.polled@;
            let ghost ids = entries@[i as int].1@;
            let mut k: usize = 0;
            proof {
                assert(before + ids.take(0) =~= before);
            }
            while k < entries[i].1.len()
                invariant
                    i < entries.len(),
                    ids == entries@[i as int].1@,
                    k <= ids.len(),
                    self.snapshot == old(self).snapshot,
                    self.polled@ == before + ids.take(k as int),
                decreases ids.len() - k,
            {
                self.polled.push(entries[i].1[k]);
                proof {
                    assert(before + ids.take(k + 1) =~= (before + ids.take(k as int)).push(
                        ids[k as int],
                    ));
                }
                k += 1;
            }
            proof {
                assert(ids.take(ids.len() as int) =~= ids);
                assert(self.polled@ =~= start + events_in(all.take(i + 1)));
            }
            i += 1;
        }
        self.last_polled = watermark;
        proof {
            assert(all.take(all.len() as int) =~= all);
        }
    }

    /// What the reader saw, against what was committed.
    pub fn into_handoff(self, committed: Vec<u64>) -> (r: Option<Handoff>)
        ensures
            match self.snapshot {
                Some(s) => r == Some(
                    Handoff { committed, snapshot: s.1, polled: self.polled },
                ),
                None => r is None,
            },
    {
        match self.snapshot {
            Some((_, snapshot)) => Some(Handoff { committed, snapshot, polled: self.polled }),
            None => None,
        }
    }
}

/// Two polls in a row, up to one watermark and from there up to a later one, see exactly what one
/// poll over both would: no entry twice and none missed.
pub proof fn polls_join(reads: Seq<WalReadView>, n: int, after: u64, mid: u64, watermark: u64)
    requires
        after <= mid <= watermark,
        0 <= n <= reads.len(),
        forall|i: int, j: int|
            0 <= i < j < n && reads[i] is Entry && reads[j] is Entry
                ==> (#[trigger] reads[i])->Entry_sequence < (#[trigger] reads[j])->Entry_sequence,
    ensures
        entries_between(reads, n, after, watermark) == entries_between(reads, n, after, mid)
            + entries_between(reads, n, mid, watermark),
    decreases n,
{
    if n > 0 {
        polls_join(reads, n - 1, after, mid, watermark);
        let a = entries_between(reads, n - 1, after, mid);
        let b = entries_between(reads, n - 1, mid, watermark);
        match reads[n - 1] {
            WalReadView::Entry { sequence, event_ids } => {
                if after < sequence && sequence <= mid {
                    nothing_later(reads, n - 1, mid, watermark, sequence);
                    assert((a + b).push((sequence, event_ids)) =~= a.push((sequence, event_ids))
                        + b);
                } else if mid < sequence && sequence <= watermark {
                    assert((a + b).push((sequence, event_ids)) =~= a + b.push(
                        (sequence, event_ids),
                    ));
                }
            },
            _ => {},
        }
    } else {
        assert(Seq::<(u64, Seq<u64>)>::empty() + Seq::<(u64, Seq<u64>)>::empty() =~= Seq::<
            (u64, Seq<u64>),
        >::empty());
    }
}

proof fn nothing_later(reads: Seq<WalReadView>, n: int, mid: u64, watermark: u64, bound: u64)
    requires
        0 <= n < reads.len(),
        bound <= mid,
        forall|i: int|
            0 <= i < n && reads[i] is Entry ==> (#[trigger] reads[i])->Entry_sequence < bound,
    ensures
        entries_between(reads, n, mid, watermark).len() == 0,
    decreases n,
{
    if n > 0 {
        assert(reads[n - 1] is Entry ==> reads[n - 1]->Entry_sequence < bound);
        nothing_later(reads, n - 1, mid, watermark, bound);
    }
}

} // verus!
