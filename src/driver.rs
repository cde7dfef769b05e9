use std::collections::VecDeque;
use vstd::prelude::*;

use crate::limit::{apply_limit, kept_rows, reaches_limit, remain_after};

verus! {

/// One file of a group: what the opener needs to reach its bytes, and the
/// values of its partition columns.
pub struct FileEntry<L, P> {
    pub locator: L,
    pub partition_values: P,
}

/// Where the scan stands. Opening and scanning carry the partition values of
/// the file at hand; `Limit` and `Error` are terminal.
pub enum Phase<P> {
    Idle,
    Opening { partition_values: P },
    Scanning { partition_values: P },
    Limit,
    Error,
}

/// What the caller does next.
pub enum Action<L> {
    /// Open the file at this locator, then report how the open went.
    Open(L),
    /// Keep polling the pending open.
    AwaitOpen,
    /// Keep polling the current file's batch stream.
    AwaitBatch,
    /// The sequence has ended.
    End,
}

impl<P> Phase<P> {
    /// No batch follows once the scan is in this phase.
    pub open spec fn is_terminal(&self) -> bool {
        self is Limit || self is Error
    }
}

/// A batch to emit: its first `keep` rows. `cut` tells whether the limit was
/// reached with it, in which case the caller slices it to `keep` rows and the
/// scan has ended.
pub struct Emit<B> {
    pub batch: B,
    pub keep: usize,
    pub cut: bool,
}

/// What became of one batch handed to the driver: the position in the group
/// of its file, its rows, and how many of them were let through.
pub struct Passed {
    pub file: nat,
    pub rows: nat,
    pub kept: nat,
}

/// The scan driver of one file group.
pub struct Driver<L, P> {
    queue: VecDeque<FileEntry<L, P>>,
    remain: Option<usize>,
    phase: Phase<P>,
    /// The whole file group, in order.
    group: Ghost<Seq<FileEntry<L, P>>>,
    /// The row limit the driver was made with.
    limit: Ghost<Option<nat>>,
    /// How many files have been taken off the queue.
    opened: Ghost<nat>,
    /// Rows of all batches handed to the driver.
    offered: Ghost<nat>,
    /// Rows of all batches the driver let through.
    emitted: Ghost<nat>,
    /// Each batch let through, in order.
    log: Ghost<Seq<Passed>>,
}

impl<L, P> Driver<L, P> {
    /// The whole file group, in order.
    pub closed spec fn group(&self) -> Seq<FileEntry<L, P>> {
        self.group@
    }

    /// The row limit the driver was made with (`None`: no limit).
    pub closed spec fn limit(&self) -> Option<nat> {
        self.limit@
    }

    /// How many more rows may be emitted (`None`: no limit).
    pub closed spec fn remain(&self) -> Option<usize> {
        self.remain
    }

    /// Where the scan stands.
    pub closed spec fn phase(&self) -> Phase<P> {
        self.phase
    }

    /// How many files of the group have been taken off the queue.
    pub closed spec fn opened(&self) -> nat {
        self.opened@
    }

    /// Rows of all batches handed to the driver so far.
    pub closed spec fn offered(&self) -> nat {
        self.offered@
    }

    /// Rows let through so far.
    pub closed spec fn emitted(&self) -> nat {
        self.emitted@
    }

    /// Each batch let through, in order.
    pub closed spec fn log(&self) -> Seq<Passed> {
        self.log@
    }

    /// The files not yet opened.
    pub open spec fn pending(&self) -> Seq<FileEntry<L, P>> {
        self.group().skip(self.opened() as int)
    }

    /// The partition values of the file being opened or scanned.
    pub open spec fn current_values(&self) -> P {
        self.group()[self.opened() - 1].partition_values
    }

    /// The counters and the file position are as in `other`.
    pub open spec fn same_progress(&self, other: &Self) -> bool {
        &&& self.group() == other.group()
        &&& self.limit() == other.limit()
        &&& self.opened() == other.opened()
        &&& self.offered() == other.offered()
        &&& self.emitted() == other.emitted()
        &&& self.log() == other.log()
    }

    /// The queue is the rest of the group, the phase holds the values of the
    /// file last taken off it, and the row counters agree with the limit.
    pub closed spec fn wf(&self) -> bool {
        &&& self.opened@ <= self.group@.len()
        &&& self.queue@ == self.group@.skip(self.opened@ as int)
        &&& match self.phase {
            Phase::Opening { partition_values } => {
                &&& self.opened@ >= 1
                &&& partition_values == self.group@[self.opened@ - 1].partition_values
            },
            Phase::Scanning { partition_values } => {
                &&& self.opened@ >= 1
                &&& partition_values == self.group@[self.opened@ - 1].partition_values
            },
            _ => true,
        }
        &&& match self.limit@ {
            None => self.remain is None,
            Some(l) => {
                &&& self.remain is Some
                &&& self.remain->0 + self.emitted@ == l
            },
        }
        &&& !(self.phase is Limit) ==> self.emitted@ == self.offered@
        &&& self.phase is Limit ==> {
            &&& self.limit@ is Some
            &&& self.emitted@ == self.limit@->0
            &&& self.log@.len() > 0
            &&& self.log@.last().kept <= self.log@.last().rows
            &&& self.offered@ - self.emitted@ == self.log@.last().rows - self.log@.last().kept
        }
        &&& forall|i: int| 0 <= i < self.log@.len() ==> self.log@[i].file < self.opened@
        &&& forall|i: int, j: int|
            0 <= i <= j < self.log@.len() ==> self.log@[i].file <= self.log@[j].file
        &&& forall|i: int|
            0 <= i < self.log@.len() ==> self.log@[i].kept == self.log@[i].rows || (
            self.phase is Limit && i == self.log@.len() - 1)
    }

    /// A driver at the start of `files`, with at most `limit` rows to emit.
    pub fn new(files: Vec<FileEntry<L, P>>, limit: Option<usize>) -> (d: Self)
        ensures
            d.wf(),
            d.group() == files@,
            d.remain() == limit,
            d.limit() == (match limit {
                Some(l) => Some(l as nat),
                None => None,
            }),
            (d.phase() is Idle),
            d.opened() == 0,
            d.offered() == 0,
            d.emitted() == 0,
            d.log() == Seq::<Passed>::empty(),
    {
        let ghost all = files@;
        let mut rest = files;
        let mut queue: VecDeque<FileEntry<L, P>> = VecDeque::new();
        while rest.len() > 0
            invariant
                rest@ == all.take(rest@.len() as int),
                queue@ == all.skip(rest@.len() as int),
                rest@.len() <= all.len(),
            decreases rest@.len(),
        {
            let ghost n = rest@.len() as int;
            let f = rest.pop().unwrap();
            queue.push_front(f);
            assert(queue@ =~= all.skip(n - 1));
            assert(rest@ =~= all.take(n - 1));
        }
        assert(queue@ =~= all.skip(0));
        Driver {
            queue,
            remain: limit,
            phase: Phase::Idle,
            group: Ghost(all),
            limit: Ghost(
                match limit {
                    Some(l) => Some(l as nat),
                    None => None,
                },
            ),
            opened: Ghost(0),
            offered: Ghost(0),
            emitted: Ghost(0),
            log: Ghost(Seq::empty()),
        }
    }

    /// Where the scan stands.
    pub fn current_phase(&self) -> (r: &Phase<P>)
        ensures
            *r == self.phase(),
    {
        &self.phase
    }

    /// What the caller does next. From `Idle` this takes the next file off the
    /// queue and starts opening it; with no file left, or in a terminal phase,
    /// the sequence has ended and stays so.
    pub fn next_action(&mut self) -> (r: Action<L>)
        requires
            old(self).wf(),
        ensures
            final(self).wf(),
            old(self).phase().is_terminal() ==> r is End && *final(self) == *old(self),
            old(self).phase() is Opening ==> r is AwaitOpen && *final(self) == *old(self),
            old(self).phase() is Scanning ==> r is AwaitBatch && *final(self) == *old(self),
            old(self).phase() is Idle && old(self).pending().len() == 0 ==> r is End
                && *final(self) == *old(self),
            old(self).phase() is Idle && old(self).pending().len() > 0 ==> {
                let file = old(self).pending()[0];
                &&& r == Action::Open(file.locator)
                &&& final(self).phase() == Phase::Opening {
                    partition_values: file.partition_values,
                }
                &&& final(self).opened() == old(self).opened() + 1
                &&& final(self).remain() == old(self).remain()
                &&& final(self).group() == old(self).group()
                &&& final(self).limit() == old(self).limit()
                &&& final(self).offered() == old(self).offered()
                &&& final(self).emitted() == old(self).emitted()
                &&& final(self).log() == old(self).log()
            },
    {
        match self.phase {
            Phase::Idle => {},
            Phase::Opening { .. } => {
                return Action::AwaitOpen;
            },
            Phase::Scanning { .. } => {
                return Action::AwaitBatch;
            },
            Phase::Limit | Phase::Error => {
                return Action::End;
            },
        }
        if self.queue.len() == 0 {
            return Action::End;
        }
        match self.queue.pop_front() {
            None => Action::End,
            Some(file) => {
                let FileEntry { locator, partition_values } = file;
                self.phase = Phase::Opening { partition_values };
                self.opened = Ghost((self.opened@ + 1) as nat);
                assert(self.queue@ =~= self.group@.skip(self.opened@ as int));
                Action::Open(locator)
            },
        }
    }

    /// The partition values of the file being opened or scanned, for the
    /// projector; `None` in any other phase.
    pub fn partition_values(&self) -> (r: Option<&P>)
        requires
            self.wf(),
        ensures
            r is Some == (self.phase() is Opening || self.phase() is Scanning),
            r is Some ==> self.opened() >= 1 && *r->0 == self.current_values(),
    {
        match &self.phase {
            Phase::Opening { partition_values } => Some(partition_values),
            Phase::Scanning { partition_values } => Some(partition_values),
            _ => None,
        }
    }

    /// The open of the current file resolved to a batch stream: scan it, with
    /// the file's partition values moved along.
    pub fn open_succeeded(&mut self)
        requires
            old(self).wf(),
            (old(self).phase() is Opening),
        ensures
            final(self).wf(),
            final(self).phase() == (Phase::Scanning::<P> {
                partition_values: old(self).phase()->Opening_partition_values,
            }),
            final(self).remain() == old(self).remain(),
            final(self).same_progress(old(self)),
    {
        let mut taken = Phase::Error;
        std::mem::swap(&mut self.phase, &mut taken);
        if let Phase::Opening { partition_values } = taken {
            self.phase = Phase::Scanning { partition_values };
        }
    }

    /// The open of the current file, or its batch stream, or the projection
    /// of a batch failed: the scan ends with that error.
    pub fn fail(&mut self)
        requires
            old(self).wf(),
            (old(self).phase() is Opening || old(self).phase() is Scanning),
        ensures
            final(self).wf(),
            (final(self).phase() is Error),
            final(self).remain() == old(self).remain(),
            final(self).same_progress(old(self)),
    {
        self.phase = Phase::Error;
    }

    /// The current file's batch stream has ended: go on with the next file.
    pub fn file_finished(&mut self)
        requires
            old(self).wf(),
            (old(self).phase() is Scanning),
        ensures
            final(self).wf(),
            (final(self).phase() is Idle),
            final(self).remain() == old(self).remain(),
            final(self).same_progress(old(self)),
    {
        self.phase = Phase::Idle;
    }

    /// The current file's stream yielded `batch`, of `rows` rows once its
    /// partition columns were added. It is let through whole while it fits in
    /// what is left of the limit and something is left; otherwise its first
    /// rows up to the limit are (none, where nothing is left), and the scan
    /// stops after it.
    pub fn accept_batch<B>(&mut self, batch: B, rows: usize) -> (r: Emit<B>)
        requires
            old(self).wf(),
            (old(self).phase() is Scanning),
        ensures
            final(self).wf(),
            r.batch == batch,
            r.keep == kept_rows(old(self).remain(), rows as nat),
            r.cut == reaches_limit(old(self).remain(), rows as nat),
            final(self).phase() == (if r.cut {
                Phase::Limit
            } else {
                old(self).phase()
            }),
            final(self).remain() is Some == old(self).remain() is Some,
            final(self).remain() is Some ==> remain_after(old(self).remain(), rows as nat) == Some(
                final(self).remain()->0 as nat,
            ),
            final(self).group() == old(self).group(),
            final(self).limit() == old(self).limit(),
            final(self).opened() == old(self).opened(),
            final(self).offered() == old(self).offered() + rows,
            final(self).emitted() == old(self).emitted() + r.keep,
            final(self).log() == old(self).log().push(
                (Passed { file: (old(self).opened() - 1) as nat, rows: rows as nat, kept: r.keep as nat }),
            ),
    {
        let step = apply_limit(self.remain, rows);
        self.remain = step.remain;
        if step.reached {
            self.phase = Phase::Limit;
        }
        self.offered = Ghost((self.offered@ + rows) as nat);
        self.emitted = Ghost((self.emitted@ + step.keep) as nat);
        self.log = Ghost(
            self.log@.push(
                Passed { file: (self.opened@ - 1) as nat, rows: rows as nat, kept: step.keep as nat },
            ),
        );
        Emit { batch, keep: step.keep, cut: step.reached }
    }

    /// Row-limit soundness: with a limit of `l` rows, the rows let through
    /// never exceed `l`, and they are exactly the smaller of `l` and the rows
    /// the files offered.
    pub proof fn lemma_row_limit_sound(&self)
        requires
            self.wf(),
            self.limit() is Some,
        ensures
            self.emitted() <= self.limit()->0,
            self.emitted() == (if self.offered() < self.limit()->0 {
                self.offered()
            } else {
                self.limit()->0
            }),
            self.remain() is Some,
            self.remain()->0 + self.emitted() == self.limit()->0,
    {
    }

    /// Without a limit every row offered is let through.
    pub proof fn lemma_no_limit_passes_all(&self)
        requires
            self.wf(),
            self.limit() is None,
        ensures
            self.emitted() == self.offered(),
            self.remain() is None,
    {
    }

    /// Order preservation: the batches let through are those the files'
    /// streams yielded, in the order of the files in the group and of the
    /// batches in each file, each whole but the very last once the limit is
    /// reached, which is cut short; and the files are taken off the queue
    /// front to back.
    pub proof fn lemma_file_order(&self)
        requires
            self.wf(),
        ensures
            self.opened() <= self.group().len(),
            self.pending() == self.group().skip(self.opened() as int),
            forall|i: int| 0 <= i < self.log().len() ==> self.log()[i].file < self.opened(),
            forall|i: int, j: int|
                0 <= i <= j < self.log().len() ==> self.log()[i].file <= self.log()[j].file,
            forall|i: int| 0 <= i < self.log().len() - 1 ==> self.log()[i].kept == self.log()[i].rows,
            self.log().len() > 0 ==> self.log().last().kept <= self.log().last().rows,
            !(self.phase() is Limit) ==> forall|i: int|
                0 <= i < self.log().len() ==> self.log()[i].kept == self.log()[i].rows,
    {
    }

    /// No batch is cut while the rows offered stay within the limit.
    pub proof fn lemma_within_limit_passes_whole(&self)
        requires
            self.wf(),
            self.limit() is Some,
            self.offered() <= self.limit()->0,
        ensures
            self.emitted() == self.offered(),
            forall|i: int| 0 <= i < self.log().len() ==> self.log()[i].kept == self.log()[i].rows,
    {
    }

    /// Once the limit is reached nothing is left of it: no later batch could
    /// keep a single row.
    pub proof fn lemma_limit_exhausted(&self)
        requires
            self.wf(),
            (self.phase() is Limit),
        ensures
            self.limit() is Some,
            self.remain() == Some(0usize),
            self.emitted() == self.limit()->0,
            forall|rows: nat| kept_rows(self.remain(), rows) == 0,
    {
    }
}

} // verus!
