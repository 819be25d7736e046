use std::collections::VecDeque;
use vstd::prelude::*;

verus! {

/// One event on the traversal path, at a level of the destination tree:
/// level 0 is the destination root, level `d + 1` holds the entries that the
/// walk reports at depth `d`.
pub enum Step {
    CreateDir { level: nat },
    Enqueue { level: nat },
}

impl Step {
    pub open spec fn level(self) -> nat {
        match self {
            Step::CreateDir { level } => level,
            Step::Enqueue { level } => level,
        }
    }
}

/// The file queued at position `k` of `steps` lies in a directory that was
/// created earlier: the last step at the level just above it is the creation
/// of that directory, and nothing in between left its subtree.
pub open spec fn parent_created_before(steps: Seq<Step>, k: int) -> bool {
    exists|j: int|
        #![trigger steps[j]]
        0 <= j < k && steps[j] == (Step::CreateDir { level: (steps[k].level() - 1) as nat })
            && forall|m: int| j < m < k ==> steps[m].level() >= steps[k].level()
}

/// Where the run stands.
#[derive(Clone, Copy, Debug, PartialEq, Eq, Structural)]
pub enum Phase {
    /// The walk is still producing work.
    Running,
    /// The walk has stopped; queued or taken items are still being processed.
    Draining,
    /// Every queued item was processed after a complete walk.
    Done,
    /// The walk was aborted; every item queued before that was processed.
    Failed,
}

/// What a worker gets when it asks for work.
#[derive(Debug)]
pub enum Take<T> {
    /// A work item, now owned by this worker alone.
    Item(T),
    /// Nothing is queued yet, but the walk may still produce more.
    Wait,
    /// The walk has stopped and the queue is empty: the worker may exit.
    Finished,
}

/// How a worker dealt with one item.
#[derive(Clone, Copy, Debug, PartialEq, Eq, Structural)]
pub enum Outcome {
    Copied,
    Skipped,
    CopyFailed,
}

/// Why the walk could not hand over an entry.
#[derive(Clone, Copy, Debug, PartialEq, Eq, Structural)]
pub enum WalkError {
    /// The walk has already been finished or aborted.
    Closed,
    /// The entry's parent directory was not created on the traversal path.
    ParentMissing,
    /// The count of queued items is at its maximum.
    Full,
}

/// The shared state of one incremental copy run: the traversal's chain of
/// created directories, the queue of pending file pairs between the walk
/// and the workers, and the progress counters.
pub struct BackupRun<T> {
    queue: VecDeque<T>,
    open_dirs: usize,
    closed: bool,
    aborted: bool,
    total: usize,
    sent: usize,
    in_flight: usize,
    copied: usize,
    skipped: usize,
    failed: usize,
    sent_log: Ghost<Seq<T>>,
    taken_log: Ghost<Seq<T>>,
    steps: Ghost<Seq<Step>>,
    chain: Ghost<Seq<int>>,
}

impl<T> BackupRun<T> {
    /// Items still waiting in the queue, oldest first.
    pub closed spec fn pending(&self) -> Seq<T> {
        self.queue@
    }

    /// Every item queued so far, in order.
    pub closed spec fn sent_items(&self) -> Seq<T> {
        self.sent_log@
    }

    /// Every item handed to a worker so far, in order.
    pub closed spec fn taken_items(&self) -> Seq<T> {
        self.taken_log@
    }

    /// The traversal's steps so far.
    pub closed spec fn steps(&self) -> Seq<Step> {
        self.steps@
    }

    /// The number of directories on the current traversal path, the
    /// destination root included.
    pub closed spec fn depth_open(&self) -> nat {
        self.open_dirs as nat
    }

    pub closed spec fn is_closed(&self) -> bool {
        self.closed
    }

    pub closed spec fn is_aborted(&self) -> bool {
        self.aborted
    }

    /// The file count found by the scan before the run.
    pub closed spec fn spec_total(&self) -> nat {
        self.total as nat
    }

    /// Items taken by a worker and not yet reported back.
    pub closed spec fn spec_in_flight(&self) -> nat {
        self.in_flight as nat
    }

    pub closed spec fn spec_copied(&self) -> nat {
        self.copied as nat
    }

    pub closed spec fn spec_skipped(&self) -> nat {
        self.skipped as nat
    }

    pub closed spec fn spec_failed(&self) -> nat {
        self.failed as nat
    }

    /// Items reported back by workers, whatever their outcome.
    pub open spec fn spec_processed(&self) -> nat {
        self.spec_copied() + self.spec_skipped() + self.spec_failed()
    }

    pub open spec fn spec_phase(&self) -> Phase {
        if !self.is_closed() {
            Phase::Running
        } else if self.pending().len() > 0 || self.spec_in_flight() > 0 {
            Phase::Draining
        } else if self.is_aborted() {
            Phase::Failed
        } else {
            Phase::Done
        }
    }

    /// The run's invariant.
    pub closed spec fn wf(&self) -> bool {
        &&& self.sent_log@ == self.taken_log@ + self.queue@
        &&& self.sent as int == self.sent_log@.len()
        &&& self.copied + self.skipped + self.failed + self.in_flight == self.taken_log@.len()
        &&& self.aborted ==> self.closed
        &&& self.open_dirs >= 1
        &&& self.chain@.len() == self.open_dirs
        &&& forall|i: int|
            #![trigger self.chain@[i]]
            0 <= i < self.chain@.len() ==> 0 <= self.chain@[i] < self.steps@.len()
                && self.steps@[self.chain@[i]] == (Step::CreateDir { level: i as nat })
        &&& forall|i: int, m: int|
            #![trigger self.chain@[i], self.steps@[m]]
            0 <= i < self.chain@.len() && self.chain@[i] < m < self.steps@.len()
                ==> self.steps@[m].level() > i
        &&& forall|k: int|
            0 <= k < self.steps@.len() && self.steps@[k] is Enqueue ==> #[trigger] parent_created_before(
                self.steps@,
                k,
            )
    }

    /// Starts a run whose destination root already exists, with the file
    /// count found by the scan before the run.
    pub fn new(total: usize) -> (r: Self)
        ensures
            r.wf(),
            r.pending() == Seq::<T>::empty(),
            r.sent_items() == Seq::<T>::empty(),
            r.taken_items() == Seq::<T>::empty(),
            r.steps() == seq![Step::CreateDir { level: 0 }],
            r.depth_open() == 1,
            !r.is_closed(),
            !r.is_aborted(),
            r.spec_total() == total,
            r.spec_in_flight() == 0,
            r.spec_copied() == 0,
            r.spec_skipped() == 0,
            r.spec_failed() == 0,
    {
        let r = BackupRun {
            queue: VecDeque::new(),
            open_dirs: 1,
            closed: false,
            aborted: false,
            total,
            sent: 0,
            in_flight: 0,
            copied: 0,
            skipped: 0,
            failed: 0,
            sent_log: Ghost(Seq::empty()),
            taken_log: Ghost(Seq::empty()),
            steps: Ghost(Seq::empty().push(Step::CreateDir { level: 0 })),
            chain: Ghost(Seq::empty().push(0int)),
        };
        assert(r.sent_log@ =~= r.taken_log@ + r.queue@);
        r
    }

    /// Truncates the directory chain to `keep` levels and records `step`
    /// at the level just below them.
    proof fn lemma_step_at_level(
        steps: Seq<Step>,
        chain: Seq<int>,
        keep: int,
        step: Step,
    )
        requires
            1 <= keep <= chain.len(),
            step.level() == keep,
            forall|i: int|
                #![trigger chain[i]]
                0 <= i < chain.len() ==> 0 <= chain[i] < steps.len() && steps[chain[i]] == (
                Step::CreateDir { level: i as nat }),
            forall|i: int, m: int|
                #![trigger chain[i], steps[m]]
                0 <= i < chain.len() && chain[i] < m < steps.len() ==> steps[m].level() > i,
            forall|k: int|
                0 <= k < steps.len() && steps[k] is Enqueue ==> #[trigger] parent_created_before(
                    steps,
                    k,
                ),
        ensures
            ({
                let s2 = steps.push(step);
                let c2 = chain.subrange(0, keep);
                &&& forall|i: int|
                    #![trigger c2[i]]
                    0 <= i < c2.len() ==> 0 <= c2[i] < s2.len() && s2[c2[i]] == (Step::CreateDir {
                        level: i as nat,
                    })
                &&& forall|i: int, m: int|
                    #![trigger c2[i], s2[m]]
                    0 <= i < c2.len() && c2[i] < m < s2.len() ==> s2[m].level() > i
                &&& forall|k: int|
                    0 <= k < s2.len() && s2[k] is Enqueue ==> #[trigger] parent_created_before(
                        s2,
                        k,
                    )
            }),
    {
        let s2 = steps.push(step);
        let c2 = chain.subrange(0, keep);
        let n = steps.len() as int;
        assert forall|i: int, m: int|
            #![trigger c2[i], s2[m]]
            0 <= i < c2.len() && c2[i] < m < s2.len() implies s2[m].level() > i by {
            assert(c2[i] == chain[i]);
            if m < n {
                assert(s2[m] == steps[m]);
            }
        }
        assert forall|k: int|
            0 <= k < s2.len() && s2[k] is Enqueue implies #[trigger] parent_created_before(
                s2,
                k,
            ) by {
            if k < n {
                assert(s2[k] == steps[k]);
                assert(parent_created_before(steps, k));
                let j = choose|j: int|
                    #![trigger steps[j]]
                    0 <= j < k && steps[j] == (Step::CreateDir {
                        level: (steps[k].level() - 1) as nat,
                    }) && forall|m: int| j < m < k ==> steps[m].level() >= steps[k].level();
                assert(s2[j] == steps[j]);
                assert forall|m: int| j < m < k implies s2[m].level() >= s2[k].level() by {
                    assert(s2[m] == steps[m]);
                }
            } else {
                let j = chain[keep - 1];
                assert(c2[keep - 1] == j);
                assert(s2[j] == steps[j]);
                assert forall|m: int| j < m < k implies s2[m].level() >= s2[k].level() by {
                    assert(s2[m] == steps[m]);
                }
            }
        }
    }

    /// Records that the walk reached a directory at `depth` (the source root
    /// is at depth 0) and that its mirror in the destination was created.
    /// Its parent must be on the current traversal path: the walk must still
    /// be open, and `depth` at most the depth of the last directory reached
    /// plus one.
    pub fn directory_created(&mut self, depth: usize) -> (r: Result<(), WalkError>)
        requires
            old(self).wf(),
        ensures
            final(self).wf(),
            old(self).is_closed() ==> r == Err::<(), WalkError>(WalkError::Closed),
            !old(self).is_closed() && depth >= old(self).depth_open() ==> r == Err::<
                (),
                WalkError,
            >(WalkError::ParentMissing),
            !old(self).is_closed() && depth < old(self).depth_open() && depth + 2 > usize::MAX
                ==> r == Err::<(), WalkError>(WalkError::Full),
            r is Ok <==> !old(self).is_closed() && depth < old(self).depth_open() && depth + 2
                <= usize::MAX,
            r is Ok ==> final(self).steps() == old(self).steps().push(
                Step::CreateDir { level: (depth + 1) as nat },
            ) && final(self).depth_open() == depth + 2,
            r is Err ==> final(self).steps() == old(self).steps() && final(self).depth_open()
                == old(self).depth_open(),
            final(self).pending() == old(self).pending(),
            final(self).sent_items() == old(self).sent_items(),
            final(self).taken_items() == old(self).taken_items(),
            final(self).is_closed() == old(self).is_closed(),
            final(self).is_aborted() == old(self).is_aborted(),
            final(self).spec_total() == old(self).spec_total(),
            final(self).spec_in_flight() == old(self).spec_in_flight(),
            final(self).spec_copied() == old(self).spec_copied(),
            final(self).spec_skipped() == old(self).spec_skipped(),
            final(self).spec_failed() == old(self).spec_failed(),
    {
        if self.closed {
            return Err(WalkError::Closed);
        }
        if depth >= self.open_dirs {
            return Err(WalkError::ParentMissing);
        }
        if depth > usize::MAX - 2 {
            return Err(WalkError::Full);
        }
        let ghost n = self.steps@.len() as int;
        let ghost keep = depth + 1;
        proof {
            Self::lemma_step_at_level(
                self.steps@,
                self.chain@,
                keep,
                Step::CreateDir { level: keep as nat },
            );
        }
        self.steps = Ghost(self.steps@.push(Step::CreateDir { level: keep as nat }));
        self.chain = Ghost(self.chain@.subrange(0, keep).push(n));
        self.open_dirs = depth + 2;
        proof {
            let c = self.chain@;
            let s = self.steps@;
            assert forall|i: int, m: int|
                #![trigger c[i], s[m]]
                0 <= i < c.len() && c[i] < m < s.len() implies s[m].level() > i by {
                if i < keep {
                    assert(c[i] == c.subrange(0, keep)[i]);
                }
            }
            assert forall|i: int|
                #![trigger c[i]]
                0 <= i < c.len() implies 0 <= c[i] < s.len() && s[c[i]] == (Step::CreateDir {
                    level: i as nat,
                }) by {
                if i < keep {
                    assert(c[i] == c.subrange(0, keep)[i]);
                }
            }
        }
        Ok(())
    }

    /// Hands the walk's file at `depth` over to the workers: `item` joins the
    /// back of the queue. The file's directory must be on the current
    /// traversal path, as for `directory_created`, so that a worker never
    /// gets a file whose destination directory is missing.
    pub fn enqueue_file(&mut self, depth: usize, item: T) -> (r: Result<(), WalkError>)
        requires
            old(self).wf(),
        ensures
            final(self).wf(),
            old(self).is_closed() ==> r == Err::<(), WalkError>(WalkError::Closed),
            !old(self).is_closed() && depth >= old(self).depth_open() ==> r == Err::<
                (),
                WalkError,
            >(WalkError::ParentMissing),
            !old(self).is_closed() && depth < old(self).depth_open() && old(
                self,
            ).sent_items().len() >= usize::MAX ==> r == Err::<(), WalkError>(WalkError::Full),
            r is Ok <==> !old(self).is_closed() && depth < old(self).depth_open() && old(
                self,
            ).sent_items().len() < usize::MAX,
            r is Ok ==> final(self).steps() == old(self).steps().push(
                Step::Enqueue { level: (depth + 1) as nat },
            ) && final(self).depth_open() == depth + 1 && final(self).pending() == old(
                self,
            ).pending().push(item) && final(self).sent_items() == old(self).sent_items().push(
                item,
            ),
            r is Err ==> final(self).steps() == old(self).steps() && final(self).depth_open()
                == old(self).depth_open() && final(self).pending() == old(self).pending()
                && final(self).sent_items() == old(self).sent_items(),
            final(self).taken_items() == old(self).taken_items(),
            final(self).is_closed() == old(self).is_closed(),
            final(self).is_aborted() == old(self).is_aborted(),
            final(self).spec_total() == old(self).spec_total(),
            final(self).spec_in_flight() == old(self).spec_in_flight(),
            final(self).spec_copied() == old(self).spec_copied(),
            final(self).spec_skipped() == old(self).spec_skipped(),
            final(self).spec_failed() == old(self).spec_failed(),
    {
        if self.closed {
            return Err(WalkError::Closed);
        }
        if depth >= self.open_dirs {
            return Err(WalkError::ParentMissing);
        }
        if self.sent == usize::MAX {
            return Err(WalkError::Full);
        }
        let ghost keep = depth + 1;
        let ghost old_queue = self.queue@;
        proof {
            Self::lemma_step_at_level(
                self.steps@,
                self.chain@,
                keep,
                Step::Enqueue { level: keep as nat },
            );
        }
        self.steps = Ghost(self.steps@.push(Step::Enqueue { level: keep as nat }));
        self.chain = Ghost(self.chain@.subrange(0, keep));
        self.open_dirs = depth + 1;
        self.sent_log = Ghost(self.sent_log@.push(item));
        self.queue.push_back(item);
        self.sent = self.sent + 1;
        assert(self.sent_log@ =~= self.taken_log@ + self.queue@);
        Ok(())
    }

    /// A worker asks for work. The oldest queued item, if any, is handed to
    /// this caller alone; with the queue empty the answer is `Finished` once
    /// the walk has stopped, and `Wait` before.
    pub fn take(&mut self) -> (r: Take<T>)
        requires
            old(self).wf(),
        ensures
            final(self).wf(),
            old(self).pending().len() > 0 ==> r == Take::Item(old(self).pending()[0])
                && final(self).pending() == old(self).pending().drop_first()
                && final(self).taken_items() == old(self).taken_items().push(
                old(self).pending()[0],
            ) && final(self).spec_in_flight() == old(self).spec_in_flight() + 1,
            old(self).pending().len() == 0 && old(self).is_closed() ==> r is Finished,
            old(self).pending().len() == 0 && !old(self).is_closed() ==> r is Wait,
            old(self).pending().len() == 0 ==> final(self).pending() == old(self).pending()
                && final(self).taken_items() == old(self).taken_items()
                && final(self).spec_in_flight() == old(self).spec_in_flight(),
            final(self).sent_items() == old(self).sent_items(),
            final(self).steps() == old(self).steps(),
            final(self).depth_open() == old(self).depth_open(),
            final(self).is_closed() == old(self).is_closed(),
            final(self).is_aborted() == old(self).is_aborted(),
            final(self).spec_total() == old(self).spec_total(),
            final(self).spec_copied() == old(self).spec_copied(),
            final(self).spec_skipped() == old(self).spec_skipped(),
            final(self).spec_failed() == old(self).spec_failed(),
    {
        let ghost old_queue = self.queue@;
        match self.queue.pop_front() {
            Some(item) => {
                proof {
                    assert(old_queue[0] == item);
                    assert(self.taken_log@.len() < self.sent_log@.len());
                }
                self.taken_log = Ghost(self.taken_log@.push(item));
                self.in_flight = self.in_flight + 1;
                assert(self.sent_log@ =~= self.taken_log@ + self.queue@);
                Take::Item(item)
            },
            None => {
                if self.closed {
                    Take::Finished
                } else {
                    Take::Wait
                }
            },
        }
    }

    /// A worker reports how it dealt with an item it took: the progress
    /// advances by one, whatever the outcome. Returns `false`, and changes
    /// nothing, when no item is out with a worker.
    pub fn complete(&mut self, outcome: Outcome) -> (r: bool)
        requires
            old(self).wf(),
        ensures
            final(self).wf(),
            r == (old(self).spec_in_flight() > 0),
            r ==> final(self).spec_in_flight() + 1 == old(self).spec_in_flight()
                && final(self).spec_processed() == old(self).spec_processed() + 1,
            !r ==> final(self).spec_in_flight() == old(self).spec_in_flight()
                && final(self).spec_processed() == old(self).spec_processed(),
            final(self).spec_copied() == old(self).spec_copied() + if r && outcome
                == Outcome::Copied {
                1int
            } else {
                0int
            },
            final(self).spec_skipped() == old(self).spec_skipped() + if r && outcome
                == Outcome::Skipped {
                1int
            } else {
                0int
            },
            final(self).spec_failed() == old(self).spec_failed() + if r && outcome
                == Outcome::CopyFailed {
                1int
            } else {
                0int
            },
            final(self).pending() == old(self).pending(),
            final(self).sent_items() == old(self).sent_items(),
            final(self).taken_items() == old(self).taken_items(),
            final(self).steps() == old(self).steps(),
            final(self).depth_open() == old(self).depth_open(),
            final(self).is_closed() == old(self).is_closed(),
            final(self).is_aborted() == old(self).is_aborted(),
            final(self).spec_total() == old(self).spec_total(),
    {
        if self.in_flight == 0 {
            return false;
        }
        self.in_flight = self.in_flight - 1;
        match outcome {
            Outcome::Copied => self.copied = self.copied + 1,
            Outcome::Skipped => self.skipped = self.skipped + 1,
            Outcome::CopyFailed => self.failed = self.failed + 1,
        }
        true
    }

    /// The walk went through the whole tree: no more items will come, and
    /// workers drain what is queued.
    pub fn finish_walk(&mut self)
        requires
            old(self).wf(),
        ensures
            final(self).wf(),
            final(self).is_closed(),
            final(self).is_aborted() == old(self).is_aborted(),
            final(self).pending() == old(self).pending(),
            final(self).sent_items() == old(self).sent_items(),
            final(self).taken_items() == old(self).taken_items(),
            final(self).steps() == old(self).steps(),
            final(self).depth_open() == old(self).depth_open(),
            final(self).spec_total() == old(self).spec_total(),
            final(self).spec_in_flight() == old(self).spec_in_flight(),
            final(self).spec_copied() == old(self).spec_copied(),
            final(self).spec_skipped() == old(self).spec_skipped(),
            final(self).spec_failed() == old(self).spec_failed(),
    {
        self.closed = true;
    }

    /// The walk failed on an entry: no more items will come, and the run
    /// ends as failed once the items already queued are processed. A walk
    /// that was already finished or aborted is left as it is.
    pub fn abort_walk(&mut self)
        requires
            old(self).wf(),
        ensures
            final(self).wf(),
            final(self).is_closed(),
            final(self).is_aborted() == !old(self).is_closed() || old(self).is_aborted(),
            final(self).pending() == old(self).pending(),
            final(self).sent_items() == old(self).sent_items(),
            final(self).taken_items() == old(self).taken_items(),
            final(self).steps() == old(self).steps(),
            final(self).depth_open() == old(self).depth_open(),
            final(self).spec_total() == old(self).spec_total(),
            final(self).spec_in_flight() == old(self).spec_in_flight(),
            final(self).spec_copied() == old(self).spec_copied(),
            final(self).spec_skipped() == old(self).spec_skipped(),
            final(self).spec_failed() == old(self).spec_failed(),
    {
        if !self.closed {
            self.closed = true;
            self.aborted = true;
        }
    }

    /// Where the run stands.
    pub fn phase(&self) -> (p: Phase)
        requires
            self.wf(),
        ensures
            p == self.spec_phase(),
    {
        if !self.closed {
            Phase::Running
        } else if self.queue.len() > 0 || self.in_flight > 0 {
            Phase::Draining
        } else if self.aborted {
            Phase::Failed
        } else {
            Phase::Done
        }
    }

    /// The file count found by the scan before the run.
    pub fn total(&self) -> (n: usize)
        ensures
            n == self.spec_total(),
    {
        self.total
    }

    /// Items reported back by workers, whatever their outcome.
    pub fn processed(&self) -> (n: usize)
        requires
            self.wf(),
        ensures
            n == self.spec_processed(),
    {
        self.copied + self.skipped + self.failed
    }

    pub fn copied(&self) -> (n: usize)
        ensures
            n == self.spec_copied(),
    {
        self.copied
    }

    pub fn skipped(&self) -> (n: usize)
        ensures
            n == self.spec_skipped(),
    {
        self.skipped
    }

    pub fn failed(&self) -> (n: usize)
        ensures
            n == self.spec_failed(),
    {
        self.failed
    }

    /// Items queued so far.
    pub fn sent_count(&self) -> (n: usize)
        requires
            self.wf(),
        ensures
            n == self.sent_items().len(),
    {
        self.sent
    }

    /// Items waiting in the queue.
    pub fn pending_count(&self) -> (n: usize)
        ensures
            n == self.pending().len(),
    {
        self.queue.len()
    }

    /// Items taken by a worker and not yet reported back.
    pub fn in_flight(&self) -> (n: usize)
        ensures
            n == self.spec_in_flight(),
    {
        self.in_flight
    }

    /// At every moment each queued item is either still in the queue or was
    /// handed to exactly one worker, in queue order: nothing is lost and
    /// nothing is handed out twice. Every item handed out is either still
    /// with its worker or counted once in the progress.
    pub proof fn lemma_no_loss_or_duplication(&self)
        requires
            self.wf(),
        ensures
            self.sent_items() == self.taken_items() + self.pending(),
            self.spec_processed() + self.spec_in_flight() == self.taken_items().len(),
    {
    }

    /// Once the run has ended, every queued item was handed out exactly once
    /// and the progress counts each of them once.
    pub proof fn lemma_ended_run_processed_everything(&self)
        requires
            self.wf(),
            self.spec_phase() == Phase::Done || self.spec_phase() == Phase::Failed,
        ensures
            self.taken_items() == self.sent_items(),
            self.spec_processed() == self.sent_items().len(),
    {
        assert(self.sent_log@ =~= self.taken_log@ + self.queue@);
        assert(self.taken_log@ + self.queue@ =~= self.taken_log@);
    }

    /// When the tree did not change between the scan and the walk, so that
    /// the scan's count is the number of files the walk queued, a completed
    /// run advances the progress exactly that many times. The count of
    /// workers plays no part.
    pub proof fn lemma_progress_reaches_total(&self)
        requires
            self.wf(),
            self.spec_phase() == Phase::Done,
            self.spec_total() == self.sent_items().len(),
        ensures
            self.spec_processed() == self.spec_total(),
    {
        self.lemma_ended_run_processed_everything();
    }

    /// Every file handed to the workers lies in a directory that the
    /// traversal created before queueing it.
    pub proof fn lemma_directory_precedes_its_files(&self, k: int)
        requires
            self.wf(),
            0 <= k < self.steps().len(),
            self.steps()[k] is Enqueue,
        ensures
            parent_created_before(self.steps(), k),
    {
    }
}

} // verus!
