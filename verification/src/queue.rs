//! The dispatcher: it takes watch events in, and hands provider calls out
//! so that the calls for one pod run one at a time and in the order of
//! arrival, while calls for different pods run side by side.
//!
//! The queues of all pods share one backlog in arrival order; the queue of
//! a pod is the part of the backlog that belongs to it. A pod thus has a
//! queue exactly while events wait for it, and nothing is kept for an idle
//! pod.

use crate::pod::{EventView, Invocation, InvocationView, KeyView, PodKey, WatchEvent};
use crate::reporter::{report_views, ErrorReport, ErrorReporter, ReportView, ReporterView};
use crate::sequence::lemma_filter_push;
use vstd::prelude::*;

verus! {

/// The views of a sequence of calls, in the same order.
pub open spec fn invocation_views(calls: Seq<Invocation>) -> Seq<InvocationView> {
    calls.map_values(|call: Invocation| call@)
}

/// The test that a call is for the pod `key`.
pub open spec fn of_key(key: KeyView) -> spec_fn(InvocationView) -> bool {
    |call: InvocationView| call.pod.key() == key
}

/// How a handler execution ended, as the error's text if it failed.
pub open spec fn failure_of(outcome: Result<(), String>) -> Option<Seq<char>> {
    match outcome {
        Ok(()) => None,
        Err(cause) => Some(cause@),
    }
}

/// What a [`QueueDispatcher`] stands for.
pub ghost struct DispatcherView {
    /// The calls that wait, in the order in which their events arrived.
    pub backlog: Seq<InvocationView>,
    /// The calls whose handler is executing.
    pub running: Seq<InvocationView>,
    /// The failures that wait for room in the report channel, oldest first.
    /// The pod of such a failure stays occupied until the report is sent.
    pub outbox: Seq<ReportView>,
    /// The most pods that may be occupied at one time, if there is a bound.
    pub limit: Option<nat>,
    /// Whether events are still taken in.
    pub open: bool,
}

impl DispatcherView {
    /// A dispatcher that holds nothing and takes events in.
    pub open spec fn fresh(limit: Option<nat>) -> DispatcherView {
        DispatcherView {
            backlog: Seq::empty(),
            running: Seq::empty(),
            outbox: Seq::empty(),
            limit,
            open: true,
        }
    }

    /// The queue of the pod `key`: the calls that wait for it, oldest first.
    pub open spec fn pending(self, key: KeyView) -> Seq<InvocationView> {
        self.backlog.filter(of_key(key))
    }

    /// Whether a handler is executing for `key`.
    pub open spec fn is_running(self, key: KeyView) -> bool {
        exists|j: int| 0 <= j < self.running.len() && (#[trigger] self.running[j]).pod.key() == key
    }

    /// Whether a failure of `key` waits to be sent.
    pub open spec fn is_reporting(self, key: KeyView) -> bool {
        exists|j: int| 0 <= j < self.outbox.len() && (#[trigger] self.outbox[j]).pod.key() == key
    }

    /// Whether `key` is occupied: no further call for it may start.
    pub open spec fn busy(self, key: KeyView) -> bool {
        self.is_running(key) || self.is_reporting(key)
    }

    /// How many pods are occupied.
    pub open spec fn in_flight(self) -> nat {
        self.running.len() + self.outbox.len()
    }

    /// Whether the bound on occupied pods is reached.
    pub open spec fn at_limit(self) -> bool {
        match self.limit {
            Some(limit) => self.in_flight() >= limit,
            None => false,
        }
    }

    /// No pod is occupied twice, and the bound on occupied pods holds.
    pub open spec fn wf(self) -> bool {
        &&& forall|i: int, j: int|
            0 <= i < j < self.running.len() ==> (#[trigger] self.running[i]).pod.key() != (
            #[trigger] self.running[j]).pod.key()
        &&& forall|i: int, j: int|
            0 <= i < j < self.outbox.len() ==> (#[trigger] self.outbox[i]).pod.key() != (
            #[trigger] self.outbox[j]).pod.key()
        &&& forall|i: int, j: int|
            0 <= i < self.running.len() && 0 <= j < self.outbox.len() ==> (
            #[trigger] self.running[i]).pod.key() != (#[trigger] self.outbox[j]).pod.key()
        &&& match self.limit {
            Some(limit) => self.in_flight() <= limit,
            None => true,
        }
    }

    /// Whether the call at place `i` of the backlog could start: its pod is
    /// not occupied.
    pub open spec fn ready(self, i: int) -> bool {
        0 <= i < self.backlog.len() && !self.busy(self.backlog[i].pod.key())
    }

    /// Whether `i` is the place of the oldest call that could start.
    pub open spec fn first_ready(self, i: int) -> bool {
        self.ready(i) && forall|j: int| 0 <= j < i ==> !self.ready(j)
    }

    /// The place of the call that starts next: the oldest whose pod is not
    /// occupied, unless the bound on occupied pods is reached.
    pub open spec fn next_ready(self) -> Option<int> {
        if !self.at_limit() && exists|i: int| self.first_ready(i) {
            Some(choose|i: int| self.first_ready(i))
        } else {
            None
        }
    }

    /// The dispatcher after every call that can start was started, oldest
    /// first, and the calls that started, in that order.
    pub open spec fn start_ready(self) -> (DispatcherView, Seq<InvocationView>)
        decreases self.backlog.len(),
    {
        match self.next_ready() {
            Some(i) if 0 <= i < self.backlog.len() => {
                let rest = self.start(i).start_ready();
                (rest.0, seq![self.backlog[i]] + rest.1)
            },
            _ => (self, Seq::empty()),
        }
    }

    /// The place among the running calls of the one for `key`.
    pub open spec fn position(self, key: KeyView) -> Option<int> {
        if self.is_running(key) {
            Some(
                choose|j: int|
                    0 <= j < self.running.len() && (#[trigger] self.running[j]).pod.key() == key,
            )
        } else {
            None
        }
    }

    /// The dispatcher after `event` was offered: a pod event joins the end
    /// of the backlog. A stream error names no pod, so nothing is queued
    /// for it; nor is anything once the dispatcher is shut down.
    pub open spec fn enqueue(self, event: EventView) -> DispatcherView {
        match event.invocation() {
            Some(call) if self.open => DispatcherView { backlog: self.backlog.push(call), ..self },
            _ => self,
        }
    }

    /// The dispatcher after the call at place `i` of the backlog started.
    pub open spec fn start(self, i: int) -> DispatcherView {
        DispatcherView {
            backlog: self.backlog.remove(i),
            running: self.running.push(self.backlog[i]),
            ..self
        }
    }

    /// The dispatcher after the running call at place `j` ended. A failure
    /// leaves one report in the outbox, for the pod of the call and with
    /// the cause; a success leaves nothing.
    pub open spec fn finish(self, j: int, failure: Option<Seq<char>>) -> DispatcherView {
        DispatcherView {
            running: self.running.remove(j),
            outbox: match failure {
                Some(cause) => self.outbox.push(ReportView { pod: self.running[j].pod, cause }),
                None => self.outbox,
            },
            ..self
        }
    }

    /// How many reports leave the outbox when it is flushed into `channel`:
    /// as many as there are, or as the channel has room for.
    pub open spec fn sendable(self, channel: ReporterView) -> nat {
        if self.outbox.len() <= channel.capacity - channel.buffer.len() {
            self.outbox.len()
        } else {
            (channel.capacity - channel.buffer.len()) as nat
        }
    }

    /// The dispatcher after the `count` oldest reports left the outbox.
    pub open spec fn release(self, count: nat) -> DispatcherView {
        DispatcherView { outbox: self.outbox.skip(count as int), ..self }
    }

    /// The dispatcher after shutdown: closed, with everything it held
    /// discarded.
    pub open spec fn shut_down(self) -> DispatcherView {
        DispatcherView {
            backlog: Seq::empty(),
            running: Seq::empty(),
            outbox: Seq::empty(),
            open: false,
            ..self
        }
    }

    /// At most one place is that of the oldest call that could start.
    pub proof fn lemma_first_ready_unique(self, i: int, j: int)
        requires
            self.first_ready(i),
            self.first_ready(j),
        ensures
            i == j,
    {
    }

    /// A key has at most one running call.
    pub proof fn lemma_position_unique(self, key: KeyView, j: int)
        requires
            self.wf(),
            0 <= j < self.running.len(),
            self.running[j].pod.key() == key,
        ensures
            self.position(key) == Some(j),
    {
    }
}

/// Why an event was not taken in.
#[derive(Debug, Clone, Copy, PartialEq, Eq, Structural)]
pub enum EnqueueError {
    /// The dispatcher has been shut down.
    ShutDown,
}

/// Why the end of a handler execution was not recorded.
#[derive(Debug, Clone, Copy, PartialEq, Eq, Structural)]
pub enum CompleteError {
    /// No handler is executing for the pod.
    NotRunning,
}

/// The per-pod serialized work queue.
pub struct QueueDispatcher {
    backlog: Vec<Invocation>,
    running: Vec<Invocation>,
    outbox: Vec<ErrorReport>,
    limit: Option<usize>,
    open: bool,
}

impl View for QueueDispatcher {
    type V = DispatcherView;

    closed spec fn view(&self) -> DispatcherView {
        DispatcherView {
            backlog: invocation_views(self.backlog@),
            running: invocation_views(self.running@),
            outbox: report_views(self.outbox@),
            limit: match self.limit {
                Some(limit) => Some(limit as nat),
                None => None,
            },
            open: self.open,
        }
    }
}

impl QueueDispatcher {
    /// No pod is occupied twice, and the bound on occupied pods holds.
    pub open spec fn wf(&self) -> bool {
        self@.wf()
    }

    /// A dispatcher that holds nothing and takes events in. With a `limit`,
    /// at most that many pods are occupied at one time.
    pub fn new(limit: Option<usize>) -> (dispatcher: QueueDispatcher)
        ensures
            dispatcher.wf(),
            dispatcher@ == DispatcherView::fresh(
                match limit {
                    Some(limit) => Some(limit as nat),
                    None => None,
                },
            ),
    {
        let dispatcher = QueueDispatcher {
            backlog: Vec::new(),
            running: Vec::new(),
            outbox: Vec::new(),
            limit,
            open: true,
        };
        assert(dispatcher@.backlog =~= Seq::empty());
        assert(dispatcher@.running =~= Seq::empty());
        assert(dispatcher@.outbox =~= Seq::empty());
        dispatcher
    }

    /// Whether events are still taken in.
    pub fn is_open(&self) -> (open: bool)
        ensures
            open == self@.open,
    {
        self.open
    }

    /// How many calls wait, over all pods.
    pub fn backlog_len(&self) -> (len: usize)
        ensures
            len == self@.backlog.len(),
    {
        self.backlog.len()
    }

    /// How many handlers are executing.
    pub fn running_len(&self) -> (len: usize)
        ensures
            len == self@.running.len(),
    {
        self.running.len()
    }

    /// How many failures wait for room in the report channel.
    pub fn outbox_len(&self) -> (len: usize)
        ensures
            len == self@.outbox.len(),
    {
        self.outbox.len()
    }

    /// Whether a handler is executing for `key`.
    pub fn is_running(&self, key: &PodKey) -> (running: bool)
        ensures
            running == self@.is_running(key@),
    {
        self.find_running(key).is_some()
    }

    /// Whether `key` is occupied: a handler is executing for it, or its
    /// failure waits to be sent.
    pub fn is_busy(&self, key: &PodKey) -> (busy: bool)
        ensures
            busy == self@.busy(key@),
    {
        if self.find_running(key).is_some() {
            return true;
        }
        let mut j: usize = 0;
        while j < self.outbox.len()
            invariant
                j <= self.outbox.len(),
                forall|k: int| 0 <= k < j ==> (#[trigger] self@.outbox[k]).pod.key() != key@,
            decreases self.outbox.len() - j,
        {
            if self.outbox[j].pod.has_key(key) {
                assert(self@.outbox[j as int].pod.key() == key@);
                return true;
            }
            j += 1;
        }
        false
    }

    /// How many calls wait for `key`.
    pub fn depth(&self, key: &PodKey) -> (depth: usize)
        ensures
            depth == self@.pending(key@).len(),
    {
        let mut depth: usize = 0;
        let mut i: usize = 0;
        while i < self.backlog.len()
            invariant
                i <= self.backlog.len(),
                depth <= i,
                depth == self@.backlog.take(i as int).filter(of_key(key@)).len(),
            decreases self.backlog.len() - i,
        {
            proof {
                lemma_filter_push(
                    self@.backlog.take(i as int),
                    self@.backlog[i as int],
                    of_key(key@),
                );
                assert(self@.backlog.take(i as int).push(self@.backlog[i as int])
                    =~= self@.backlog.take(i + 1));
            }
            if self.backlog[i].pod.has_key(key) {
                depth += 1;
            }
            i += 1;
        }
        assert(self@.backlog.take(i as int) =~= self@.backlog);
        depth
    }

    /// The place among the running calls of the one for `key`.
    fn find_running(&self, key: &PodKey) -> (place: Option<usize>)
        ensures
            match place {
                Some(j) => j < self@.running.len() && self@.running[j as int].pod.key() == key@,
                None => !self@.is_running(key@),
            },
    {
        let mut j: usize = 0;
        while j < self.running.len()
            invariant
                j <= self.running.len(),
                forall|k: int| 0 <= k < j ==> (#[trigger] self@.running[k]).pod.key() != key@,
            decreases self.running.len() - j,
        {
            if self.running[j].pod.has_key(key) {
                return Some(j);
            }
            j += 1;
        }
        None
    }

    /// Offers `event` to the dispatcher. A pod event joins the end of its
    /// pod's queue; a stream error names no pod and is taken in without
    /// being queued. The only failure is that the dispatcher has been shut
    /// down; the event is then dropped.
    pub fn enqueue(&mut self, event: WatchEvent) -> (outcome: Result<(), EnqueueError>)
        requires
            old(self).wf(),
        ensures
            final(self).wf(),
            final(self)@ == old(self)@.enqueue(event@),
            outcome == if old(self)@.open {
                Ok::<(), EnqueueError>(())
            } else {
                Err::<(), EnqueueError>(EnqueueError::ShutDown)
            },
    {
        if !self.open {
            return Err(EnqueueError::ShutDown);
        }
        match event.into_invocation() {
            Ok(call) => {
                self.backlog.push(call);
                assert(final(self)@.backlog =~= old(self)@.backlog.push(call@));
            },
            Err(_) => {},
        }
        Ok(())
    }

    /// Starts the next call, if one can start: the oldest waiting call
    /// whose pod is not occupied, provided the bound on occupied pods is
    /// not reached. The call leaves the backlog, its pod is occupied from
    /// now on, and a copy of the call is handed out to be executed.
    pub fn start_next(&mut self) -> (started: Option<Invocation>)
        requires
            old(self).wf(),
        ensures
            final(self).wf(),
            match old(self)@.next_ready() {
                Some(i) => started matches Some(call) && call@ == old(self)@.backlog[i]
                    && final(self)@ == old(self)@.start(i),
                None => started is None && final(self)@ == old(self)@,
            },
    {
        let at_limit = match self.limit {
            Some(limit) => self.running.len() + self.outbox.len() >= limit,
            None => false,
        };
        if at_limit {
            return None;
        }
        let mut i: usize = 0;
        while i < self.backlog.len()
            invariant
                i <= self.backlog.len(),
                *self == *old(self),
                self.wf(),
                !self@.at_limit(),
                forall|j: int| 0 <= j < i ==> !self@.ready(j),
            decreases self.backlog.len() - i,
        {
            let key = self.backlog[i].pod.key();
            if !self.is_busy(&key) {
                let ghost before = self@;
                assert(before.first_ready(i as int));
                proof {
                    before.lemma_first_ready_unique(i as int, before.next_ready().unwrap());
                }
                let call = self.backlog.remove(i);
                let copy = call.clone();
                self.running.push(call);
                assert(self@.backlog =~= before.backlog.remove(i as int));
                assert(self@.running =~= before.running.push(before.backlog[i as int]));
                return Some(copy);
            }
            i += 1;
        }
        None
    }

    /// Starts every call that can start, oldest first, and hands out
    /// copies of the calls in the order in which they started. Afterwards
    /// no waiting call could start.
    pub fn start_ready(&mut self) -> (started: Vec<Invocation>)
        requires
            old(self).wf(),
        ensures
            final(self).wf(),
            final(self)@ == old(self)@.start_ready().0,
            invocation_views(started@) == old(self)@.start_ready().1,
            final(self)@.next_ready() is None,
    {
        let mut started: Vec<Invocation> = Vec::new();
        loop
            invariant_except_break
                self.wf(),
                old(self)@.start_ready().0 == self@.start_ready().0,
                old(self)@.start_ready().1 == invocation_views(started@)
                    + self@.start_ready().1,
            ensures
                self.wf(),
                self@ == old(self)@.start_ready().0,
                invocation_views(started@) == old(self)@.start_ready().1,
                self@.next_ready() is None,
            decreases self@.backlog.len(),
        {
            match self.start_next() {
                Some(call) => {
                    started.push(call);
                },
                None => {
                    break ;
                },
            }
        }
        started
    }

    /// Records that the handler for `key` ended. Its pod is released on
    /// success. On failure one report, of the pod and the error's text,
    /// joins the outbox, and the pod stays occupied until the report is
    /// sent. The pod's queue is left as it is either way.
    pub fn complete(&mut self, key: &PodKey, outcome: Result<(), String>) -> (recorded: Result<
        (),
        CompleteError,
    >)
        requires
            old(self).wf(),
        ensures
            final(self).wf(),
            match old(self)@.position(key@) {
                Some(j) => recorded is Ok && final(self)@ == old(self)@.finish(
                    j,
                    failure_of(outcome),
                ),
                None => recorded == Err::<(), CompleteError>(CompleteError::NotRunning)
                    && final(self)@ == old(self)@,
            },
    {
        match self.find_running(key) {
            None => Err(CompleteError::NotRunning),
            Some(j) => {
                let ghost before = self@;
                proof {
                    before.lemma_position_unique(key@, j as int);
                }
                let call = self.running.remove(j);
                assert(self@.running =~= before.running.remove(j as int));
                match outcome {
                    Ok(()) => {},
                    Err(cause) => {
                        let report = ErrorReport { pod: call.pod, cause };
                        self.outbox.push(report);
                        assert(self@.outbox =~= before.outbox.push(report@));
                    },
                }
                Ok(())
            },
        }
    }

    /// Sends the waiting failures to `channel`, oldest first, as far as the
    /// channel has room, and releases the pod of each report that went in.
    /// What does not fit stays in the outbox: nothing is dropped, and the
    /// order of the reports is kept. Returns how many reports went in.
    pub fn forward_reports(&mut self, channel: &mut ErrorReporter) -> (sent: usize)
        requires
            old(self).wf(),
            old(channel).wf(),
        ensures
            final(self).wf(),
            final(channel).wf(),
            sent == old(self)@.sendable(old(channel)@),
            final(self)@ == old(self)@.release(sent as nat),
            final(channel)@ == old(channel)@.accept_all(old(self)@.outbox.take(sent as int)),
    {
        let waiting = self.outbox.len();
        let mut sent: usize = 0;
        assert(self@.outbox.skip(0) =~= self@.outbox);
        while sent < waiting && !channel.is_full()
            invariant
                self.wf(),
                channel.wf(),
                waiting == old(self)@.outbox.len(),
                sent <= waiting,
                sent <= old(self)@.sendable(old(channel)@),
                self@ == old(self)@.release(sent as nat),
                channel@ == old(channel)@.accept_all(old(self)@.outbox.take(sent as int)),
            decreases waiting - sent,
        {
            let ghost before = self@;
            assert(self.outbox@.len() == self@.outbox.len());
            let report = self.outbox.remove(0);
            assert(self@.outbox =~= before.outbox.skip(1));
            assert(before.outbox.skip(1) =~= old(self)@.outbox.skip(sent + 1));
            assert(report@ == before.outbox[0]);
            match channel.try_send(report) {
                Ok(()) => {},
                Err(_) => {},
            }
            assert(channel@.buffer =~= old(channel)@.buffer + old(self)@.outbox.take(sent + 1));
            sent += 1;
        }
        sent
    }

    /// Takes out the oldest report that is held, to be written back: out
    /// of `channel`, or, where the channel holds none, straight out of the
    /// outbox, whose pod is thereby released. Gives nothing only where no
    /// report is held at all.
    pub fn take_report(&mut self, channel: &mut ErrorReporter) -> (taken: Option<ErrorReport>)
        requires
            old(self).wf(),
            old(channel).wf(),
        ensures
            final(self).wf(),
            final(channel).wf(),
            match taken {
                Some(report) => if old(channel)@.buffer.len() > 0 {
                    &&& report@ == old(channel)@.buffer[0]
                    &&& final(channel)@ == old(channel)@.take()
                    &&& final(self)@ == old(self)@
                } else {
                    &&& old(self)@.outbox.len() > 0
                    &&& report@ == old(self)@.outbox[0]
                    &&& final(channel)@ == old(channel)@
                    &&& final(self)@ == old(self)@.release(1)
                },
                None => {
                    &&& old(channel)@.buffer.len() == 0
                    &&& old(self)@.outbox.len() == 0
                    &&& final(channel)@ == old(channel)@
                    &&& final(self)@ == old(self)@
                },
            },
    {
        match channel.recv() {
            Some(report) => Some(report),
            None => {
                if self.outbox.len() > 0 {
                    proof {
                        self@.lemma_release_frees_senders(
                            1,
                            KeyView { namespace: Seq::empty(), name: Seq::empty() },
                        );
                    }
                    let report = self.outbox.remove(0);
                    assert(self@.outbox =~= old(self)@.outbox.skip(1));
                    Some(report)
                } else {
                    None
                }
            },
        }
    }

    /// Shuts the dispatcher down: it takes no further event, and what it
    /// held, waiting or running, is discarded.
    pub fn shutdown(&mut self)
        ensures
            final(self).wf(),
            final(self)@ == old(self)@.shut_down(),
    {
        self.backlog = Vec::new();
        self.running = Vec::new();
        self.outbox = Vec::new();
        self.open = false;
        assert(self@.backlog =~= Seq::empty());
        assert(self@.running =~= Seq::empty());
        assert(self@.outbox =~= Seq::empty());
    }
}

} // verus!
