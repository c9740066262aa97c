use vstd::prelude::*;
use crate::blocks::Block;

verus! {

/// What the chain, or the hand-off queue, reported to the poller.
pub enum PollEvent {
    /// The chain's current head height.
    HeightOk(u64),
    /// The height query failed.
    HeightFailed,
    /// The requested block, with its transactions.
    Fetched(Block),
    /// The block fetch failed, or the block was not found.
    FetchFailed,
    /// The block was accepted by the hand-off queue.
    Pushed,
    /// The hand-off queue has no consumer any more.
    QueueClosed,
}

/// What the poller asks its driver to do next.
pub enum PollAction {
    /// Query the chain's current height.
    QueryHeight,
    /// Wait the fixed backoff interval, then query the height again.
    RetryHeight,
    /// Fetch the block with this number.
    Fetch(u64),
    /// Wait the fixed backoff interval, then fetch this block again.
    RetryFetch(u64),
    /// Push this block into the hand-off queue, waiting while it is full.
    Push(Block),
    /// Caught up with the chain: wait the poll interval, then query the height.
    Idle,
    /// Stop polling.
    Stop,
    /// The queue has no consumer any more, so block `n` cannot be handed
    /// over: stop polling with an error.
    Fail(u64),
}

/// Which report the poller waits for.
#[derive(PartialEq, Eq, Structural, Clone, Copy, Debug)]
pub enum Phase {
    AwaitHeight,
    AwaitFetch,
    AwaitPush,
    Stopped,
}

/// The poller's state as mathematics. `next` is the block to fetch or being
/// pushed, `processed` the published cursor (the last block handed to the
/// queue), `height` the last observed chain height; before `started` the
/// cursor waits for the chain head. Before any block is handed over the
/// published cursor stands one block before the start (at zero for a start
/// at zero).
pub struct PollerModel {
    pub started: bool,
    pub next: u64,
    pub processed: u64,
    pub height: u64,
    pub phase: Phase,
}

/// The poller's start: at `start` when given, else at the chain head that the
/// first height query reports.
pub open spec fn initial(start: Option<u64>) -> PollerModel {
    match start {
        Some(b) => PollerModel {
            started: true,
            next: b,
            processed: before(b),
            height: 0,
            phase: Phase::AwaitHeight,
        },
        None => PollerModel { started: false, next: 0, processed: 0, height: 0, phase: Phase::AwaitHeight },
    }
}

/// The block number before `b`, or zero.
pub open spec fn before(b: u64) -> u64 {
    if b == 0 { 0 } else { (b - 1) as u64 }
}

/// After observing height `h`: fetch the cursor's block while it is at most
/// `h`, else wait for the chain to grow.
pub open spec fn after_height(m: PollerModel, h: u64) -> (PollerModel, PollAction) {
    let next = if m.started { m.next } else { h };
    let processed = if m.started { m.processed } else { before(h) };
    if next <= h {
        (
            PollerModel { started: true, next, processed, height: h, phase: Phase::AwaitFetch },
            PollAction::Fetch(next),
        )
    } else {
        (
            PollerModel { started: true, next, processed, height: h, phase: Phase::AwaitHeight },
            PollAction::Idle,
        )
    }
}

/// After the queue accepted block `m.next`: publish it and move on to the
/// following block, stopping only when no block number is left.
pub open spec fn after_push(m: PollerModel) -> (PollerModel, PollAction) {
    if m.next == u64::MAX {
        (PollerModel { processed: m.next, phase: Phase::Stopped, ..m }, PollAction::Stop)
    } else if m.next + 1 <= m.height {
        (
            PollerModel { processed: m.next, next: (m.next + 1) as u64, phase: Phase::AwaitFetch, ..m },
            PollAction::Fetch((m.next + 1) as u64),
        )
    } else {
        (
            PollerModel { processed: m.next, next: (m.next + 1) as u64, phase: Phase::AwaitHeight, ..m },
            PollAction::Idle,
        )
    }
}

/// One decision of the poller: the state after event `e` and the action it
/// asks for. A failed query or fetch is retried after the backoff without
/// moving the cursor; a fetched block whose number is not the cursor's counts
/// as a failed fetch; a report that does not answer the pending request, or
/// any report once stopped, stops the poller; a closed queue fails it.
pub open spec fn step_spec(m: PollerModel, e: PollEvent) -> (PollerModel, PollAction) {
    let stop = (PollerModel { phase: Phase::Stopped, ..m }, PollAction::Stop);
    match m.phase {
        Phase::AwaitHeight => match e {
            PollEvent::HeightOk(h) => after_height(m, h),
            PollEvent::HeightFailed => (m, PollAction::RetryHeight),
            _ => stop,
        },
        Phase::AwaitFetch => match e {
            PollEvent::Fetched(b) => if b.number == m.next {
                (PollerModel { phase: Phase::AwaitPush, ..m }, PollAction::Push(b))
            } else {
                (m, PollAction::RetryFetch(m.next))
            },
            PollEvent::FetchFailed => (m, PollAction::RetryFetch(m.next)),
            _ => stop,
        },
        Phase::AwaitPush => match e {
            PollEvent::Pushed => after_push(m),
            PollEvent::QueueClosed => (PollerModel { phase: Phase::Stopped, ..m }, PollAction::Fail(m.next)),
            _ => stop,
        },
        Phase::Stopped => stop,
    }
}

/// The state after the reports `evs`, one after another.
pub open spec fn run(m: PollerModel, evs: Seq<PollEvent>) -> PollerModel
    decreases evs.len(),
{
    if evs.len() == 0 {
        m
    } else {
        step_spec(run(m, evs.drop_last()), evs.last()).0
    }
}

/// The numbers of the blocks that the queue accepted along the reports `evs`,
/// in order.
pub open spec fn delivered(m: PollerModel, evs: Seq<PollEvent>) -> Seq<int>
    decreases evs.len(),
{
    if evs.len() == 0 {
        Seq::empty()
    } else {
        let r = run(m, evs.drop_last());
        let d = delivered(m, evs.drop_last());
        if r.phase == Phase::AwaitPush && evs.last() is Pushed {
            d.push(r.next as int)
        } else {
            d
        }
    }
}

/// Whatever the chain and the queue report, the blocks handed to the queue
/// from a started cursor `c` are exactly `c, c + 1, ...`, with no gap, repeat
/// or reordering; a running poller's cursor is the next of them, and the
/// published cursor is the last one accepted.
pub proof fn lemma_ordering(m: PollerModel, evs: Seq<PollEvent>)
    requires
        m.started,
    ensures
        delivered(m, evs) =~= Seq::new(delivered(m, evs).len(), |i: int| m.next + i),
        run(m, evs).started,
        run(m, evs).phase != Phase::Stopped ==> run(m, evs).next == m.next + delivered(m, evs).len(),
        delivered(m, evs).len() > 0 ==> run(m, evs).processed == m.next + delivered(m, evs).len() - 1,
        delivered(m, evs).len() == 0 ==> run(m, evs).processed == m.processed,
    decreases evs.len(),
{
    if evs.len() > 0 {
        lemma_ordering(m, evs.drop_last());
    }
}

/// One more report extends the run by one step: after calls of
/// `process_blocks` with the reports `evs` and then `e`, the poller is in the
/// state that `run` gives, and the last call's action is that of `e`.
pub proof fn lemma_run_extends(m: PollerModel, evs: Seq<PollEvent>, e: PollEvent)
    ensures
        run(m, evs.push(e)) == step_spec(run(m, evs), e).0,
        delivered(m, evs.push(e)) == if run(m, evs).phase == Phase::AwaitPush && e is Pushed {
            delivered(m, evs).push(run(m, evs).next as int)
        } else {
            delivered(m, evs)
        },
{
    assert(evs.push(e).drop_last() =~= evs);
}

/// From a start override `c0`, whatever is reported, the blocks handed to the
/// queue are exactly `c0, c0 + 1, ...`.
pub proof fn lemma_ordering_from_start(c0: u64, evs: Seq<PollEvent>)
    ensures
        delivered(initial(Some(c0)), evs) =~= Seq::new(
            delivered(initial(Some(c0)), evs).len(),
            |i: int| c0 + i,
        ),
{
    lemma_ordering(initial(Some(c0)), evs);
}

/// Reports `a` then `b` run as `b` from the state that `a` reached, and
/// deliver what `a` delivered followed by what `b` delivers from there.
pub proof fn lemma_run_append(m: PollerModel, a: Seq<PollEvent>, b: Seq<PollEvent>)
    ensures
        run(m, a + b) == run(run(m, a), b),
        delivered(m, a + b) == delivered(m, a) + delivered(run(m, a), b),
    decreases b.len(),
{
    if b.len() == 0 {
        assert(a + b =~= a);
        assert(delivered(m, a) + delivered(run(m, a), b) =~= delivered(m, a));
    } else {
        lemma_run_append(m, a, b.drop_last());
        assert((a + b).drop_last() =~= a + b.drop_last());
        assert((a + b).last() == b.last());
        let d = delivered(m, a) + delivered(run(m, a), b.drop_last());
        assert(d.push(run(run(m, a), b.drop_last()).next as int) =~= delivered(m, a) + delivered(
            run(m, a),
            b.drop_last(),
        ).push(run(run(m, a), b.drop_last()).next as int));
    }
}

/// Without a start override, once the first height report gives the chain
/// head `h`, whatever is reported next, the blocks handed to the queue are
/// exactly `h, h + 1, ...`.
pub proof fn lemma_ordering_from_head(h: u64, evs: Seq<PollEvent>)
    ensures
        ({
            let all = seq![PollEvent::HeightOk(h)] + evs;
            delivered(initial(None), all) =~= Seq::new(delivered(initial(None), all).len(), |i: int| h + i)
        }),
{
    let first = seq![PollEvent::HeightOk(h)];
    let m1 = run(initial(None), first);
    assert(first.drop_last() =~= Seq::<PollEvent>::empty());
    assert(first.len() == 1 && first.last() == PollEvent::HeightOk(h));
    assert(run(initial(None), Seq::<PollEvent>::empty()) == initial(None));
    assert(delivered(initial(None), Seq::<PollEvent>::empty()) == Seq::<int>::empty());
    assert(m1 == step_spec(initial(None), PollEvent::HeightOk(h)).0);
    assert(delivered(initial(None), first) =~= Seq::<int>::empty());
    lemma_run_append(initial(None), first, evs);
    lemma_ordering(m1, evs);
    assert(delivered(initial(None), first + evs) =~= delivered(m1, evs));
}

/// The first block fetched is the start override `o`, not the chain head `h`,
/// as soon as the chain has reached it; until then the poller waits. Without
/// an override the first block fetched is the head itself.
pub proof fn lemma_start_override(o: u64, h: u64)
    ensures
        o <= h ==> step_spec(initial(Some(o)), PollEvent::HeightOk(h)).1 == PollAction::Fetch(o),
        o > h ==> step_spec(initial(Some(o)), PollEvent::HeightOk(h)).1 == PollAction::Idle,
        step_spec(initial(None), PollEvent::HeightOk(h)).1 == PollAction::Fetch(h),
{
}

/// When fetching block `N` fails twice and then succeeds, the published
/// cursor stays at `N - 1` through both failures, each followed by a backoff
/// before the same block is fetched again, and becomes `N` only once that
/// block has been handed to the queue.
pub proof fn lemma_retry_without_advance(m: PollerModel, b: Block)
    requires
        m.phase == Phase::AwaitFetch,
        m.next > 0,
        m.processed == m.next - 1,
        b.number == m.next,
    ensures
        ({
            let s1 = step_spec(m, PollEvent::FetchFailed);
            let s2 = step_spec(s1.0, PollEvent::FetchFailed);
            let s3 = step_spec(s2.0, PollEvent::Fetched(b));
            let s4 = step_spec(s3.0, PollEvent::Pushed);
            &&& s1.1 == PollAction::RetryFetch(m.next)
            &&& s1.0.processed == m.next - 1
            &&& s2.1 == PollAction::RetryFetch(m.next)
            &&& s2.0.processed == m.next - 1
            &&& s3.1 == PollAction::Push(b)
            &&& s3.0.processed == m.next - 1
            &&& s4.0.processed == m.next
        }),
{
}

/// The chain poller: keeps one always-advancing cursor over the chain and
/// decides, report by report, what to fetch, push, retry or wait for. Its
/// driver performs each action and reports the outcome; the first action is
/// always a height query.
pub struct BlockProcessor {
    started: bool,
    next: u64,
    processed: u64,
    height: u64,
    phase: Phase,
}

impl View for BlockProcessor {
    type V = PollerModel;

    closed spec fn view(&self) -> PollerModel {
        PollerModel {
            started: self.started,
            next: self.next,
            processed: self.processed,
            height: self.height,
            phase: self.phase,
        }
    }
}

impl BlockProcessor {
    /// A poller starting at `start_block` when given, else at the chain head.
    pub fn new(start_block: Option<u64>) -> (r: BlockProcessor)
        ensures
            r@ == initial(start_block),
    {
        match start_block {
            Some(b) => BlockProcessor {
                started: true,
                next: b,
                processed: if b == 0 { 0 } else { b - 1 },
                height: 0,
                phase: Phase::AwaitHeight,
            },
            None => BlockProcessor { started: false, next: 0, processed: 0, height: 0, phase: Phase::AwaitHeight },
        }
    }

    /// The published cursor: the last block handed to the queue.
    pub fn get_latest_processed_block(&self) -> (r: u64)
        ensures
            r == self@.processed,
    {
        self.processed
    }

    /// The block the poller fetches or pushes next.
    pub fn next_block(&self) -> (r: u64)
        ensures
            r == self@.next,
    {
        self.next
    }

    /// The report the poller waits for.
    pub fn phase(&self) -> (r: Phase)
        ensures
            r == self@.phase,
    {
        self.phase
    }

    /// Takes in one report and returns the next action.
    pub fn process_blocks(&mut self, event: PollEvent) -> (r: PollAction)
        ensures
            (final(self)@, r) == step_spec(old(self)@, event),
    {
        match self.phase {
            Phase::AwaitHeight => match event {
                PollEvent::HeightOk(h) => {
                    if !self.started {
                        self.next = h;
                        self.processed = if h == 0 { 0 } else { h - 1 };
                        self.started = true;
                    }
                    self.height = h;
                    if self.next <= h {
                        self.phase = Phase::AwaitFetch;
                        PollAction::Fetch(self.next)
                    } else {
                        PollAction::Idle
                    }
                },
                PollEvent::HeightFailed => PollAction::RetryHeight,
                _ => self.stop(),
            },
            Phase::AwaitFetch => match event {
                PollEvent::Fetched(b) => {
                    if b.number == self.next {
                        self.phase = Phase::AwaitPush;
                        PollAction::Push(b)
                    } else {
                        PollAction::RetryFetch(self.next)
                    }
                },
                PollEvent::FetchFailed => PollAction::RetryFetch(self.next),
                _ => self.stop(),
            },
            Phase::AwaitPush => match event {
                PollEvent::Pushed => {
                    self.processed = self.next;
                    if self.next == u64::MAX {
                        self.phase = Phase::Stopped;
                        PollAction::Stop
                    } else {
                        self.next = self.next + 1;
                        if self.next <= self.height {
                            self.phase = Phase::AwaitFetch;
                            PollAction::Fetch(self.next)
                        } else {
                            self.phase = Phase::AwaitHeight;
                            PollAction::Idle
                        }
                    }
                },
                PollEvent::QueueClosed => {
                    self.phase = Phase::Stopped;
                    PollAction::Fail(self.next)
                },
                _ => self.stop(),
            },
            Phase::Stopped => self.stop(),
        }
    }

    fn stop(&mut self) -> (r: PollAction)
        ensures
            final(self)@ == (PollerModel { phase: Phase::Stopped, ..old(self)@ }),
            r is Stop,
    {
        self.phase = Phase::Stopped;
        PollAction::Stop
    }
}

} // verus!
