//! What the dispatcher and the report channel guarantee, proved of their
//! models: first step by step, then of every run.

use crate::pipeline::{Pipeline, Step};
use crate::pod::{EventView, KeyView};
use crate::queue::{of_key, DispatcherView};
use crate::reporter::{ReportView, ReporterView};
use crate::sequence::{
    lemma_chain, lemma_filter_push, lemma_filter_remove_failing,
    lemma_filter_remove_first_passing,
};
use vstd::prelude::*;

verus! {

impl DispatcherView {
    /// Where some call could start, there is an oldest call that could.
    pub proof fn lemma_oldest_ready_exists(self, i: int)
        requires
            self.ready(i),
        ensures
            exists|first: int| #[trigger] self.first_ready(first) && first <= i,
        decreases i,
    {
        if exists|j: int| 0 <= j < i && self.ready(j) {
            let j = choose|j: int| 0 <= j < i && self.ready(j);
            self.lemma_oldest_ready_exists(j);
        } else {
            assert(self.first_ready(i));
        }
    }

    /// A pod with a waiting call has a place in the backlog, and the
    /// oldest such place holds the head of the pod's queue.
    pub proof fn lemma_waiting_pod_has_place(self, key: KeyView)
        requires
            self.pending(key).len() > 0,
        ensures
            exists|i: int|
                0 <= i < self.backlog.len() && (#[trigger] self.backlog[i]).pod.key() == key,
    {
        let head = self.pending(key)[0];
        self.backlog.lemma_filter_pred(of_key(key), 0);
        self.backlog.lemma_filter_contains_rev(of_key(key), head);
        let i = choose|i: int| 0 <= i < self.backlog.len() && self.backlog[i] == head;
        assert(self.backlog[i].pod.key() == key);
    }

    /// An offered pod event joins the end of its pod's queue and of no
    /// other; nothing else changes. A stream error, and any event offered
    /// after shutdown, changes nothing.
    pub proof fn lemma_enqueue_extends_queue(self, event: EventView, key: KeyView)
        ensures
            self.enqueue(event).pending(key) == if self.open && event.key() == Some(key) {
                self.pending(key).push(event.invocation().unwrap())
            } else {
                self.pending(key)
            },
            self.enqueue(event).running == self.running,
            self.enqueue(event).outbox == self.outbox,
            self.wf() ==> self.enqueue(event).wf(),
    {
        if self.open && event.invocation() is Some {
            lemma_filter_push(self.backlog, event.invocation().unwrap(), of_key(key));
        }
    }

    /// The call that starts is the head of its pod's queue, and its pod
    /// was not occupied before and is occupied after. The queues of the
    /// other pods, and whether they are occupied, stay as they were.
    pub proof fn lemma_start_takes_head(self, i: int, key: KeyView)
        requires
            self.wf(),
            self.first_ready(i),
        ensures
            !self.busy(self.backlog[i].pod.key()),
            self.start(i).is_running(self.backlog[i].pod.key()),
            !self.at_limit() ==> self.start(i).wf(),
            key == self.backlog[i].pod.key() ==> self.pending(key).len() > 0 && self.pending(
                key,
            )[0] == self.backlog[i] && self.start(i).pending(key) == self.pending(
                key,
            ).drop_first(),
            key != self.backlog[i].pod.key() ==> self.start(i).pending(key) == self.pending(key)
                && self.start(i).busy(key) == self.busy(key),
    {
        let call = self.backlog[i];
        let after = self.start(i);
        assert(after.running[self.running.len() as int] == call);
        assert(forall|j: int| 0 <= j < self.running.len() ==> after.running[j] == self.running[j]);
        if key == call.pod.key() {
            assert forall|j: int| 0 <= j < i implies !of_key(key)(#[trigger] self.backlog[j]) by {
                assert(!self.ready(j));
            }
            lemma_filter_remove_first_passing(self.backlog, i, of_key(key));
        } else {
            lemma_filter_remove_failing(self.backlog, i, of_key(key));
        }
    }

    /// The end of a handler execution leaves every queue as it is. After a
    /// success the pod is no longer occupied. After a failure exactly one
    /// report has joined the outbox, of the pod and the cause, and the pod
    /// stays occupied. No other pod is affected.
    pub proof fn lemma_finish_keeps_queues(self, j: int, failure: Option<Seq<char>>, key: KeyView)
        requires
            self.wf(),
            0 <= j < self.running.len(),
        ensures
            self.finish(j, failure).wf(),
            self.finish(j, failure).pending(key) == self.pending(key),
            !self.finish(j, failure).is_running(self.running[j].pod.key()),
            failure is None ==> self.finish(j, failure).outbox == self.outbox && !self.finish(
                j,
                failure,
            ).busy(self.running[j].pod.key()),
            failure matches Some(cause) ==> self.finish(j, failure).outbox == self.outbox.push(
                ReportView { pod: self.running[j].pod, cause },
            ) && self.finish(j, failure).is_reporting(self.running[j].pod.key()),
            key != self.running[j].pod.key() ==> self.finish(j, failure).busy(key) == self.busy(
                key,
            ),
    {
        let after = self.finish(j, failure);
        let own = self.running[j].pod.key();
        // What ran before the call that ended keeps its place; what ran
        // after it moves up by one.
        assert(forall|k: int| 0 <= k < j ==> after.running[k] == self.running[k]);
        assert(forall|k: int|
            j <= k < after.running.len() ==> after.running[k] == self.running[k + 1]);
        assert(forall|k: int| 0 <= k < self.outbox.len() ==> after.outbox[k] == self.outbox[k]);
        if failure is Some {
            assert(after.outbox[self.outbox.len() as int].pod.key() == own);
        }
        if key != own && self.is_running(key) {
            let k = choose|k: int|
                0 <= k < self.running.len() && (#[trigger] self.running[k]).pod.key() == key;
            if k < j {
                assert(after.running[k].pod.key() == key);
            } else {
                assert(after.running[k - 1].pod.key() == key);
            }
        }
    }

    /// Sending the oldest reports releases their pods and no others, and
    /// leaves every queue as it is.
    pub proof fn lemma_release_frees_senders(self, count: nat, key: KeyView)
        requires
            self.wf(),
            count <= self.outbox.len(),
        ensures
            self.release(count).wf(),
            self.release(count).pending(key) == self.pending(key),
            self.release(count).is_running(key) == self.is_running(key),
            self.release(count).is_reporting(key) == (exists|k: int|
                count <= k < self.outbox.len() && (#[trigger] self.outbox[k]).pod.key() == key),
    {
        let after = self.release(count);
        assert(forall|k: int|
            0 <= k < after.outbox.len() ==> after.outbox[k] == self.outbox[k + count]);
        if exists|k: int|
            count <= k < self.outbox.len() && (#[trigger] self.outbox[k]).pod.key() == key {
            let k = choose|k: int|
                count <= k < self.outbox.len() && (#[trigger] self.outbox[k]).pod.key() == key;
            assert(after.outbox[k - count].pod.key() == key);
        }
    }

    /// Starting every call that can start keeps the dispatcher well formed
    /// and keeps running what was running.
    pub proof fn lemma_start_ready_keeps_running(self, key: KeyView)
        requires
            self.wf(),
        ensures
            self.start_ready().0.wf(),
            self.start_ready().0.outbox == self.outbox,
            self.start_ready().0.limit == self.limit,
            self.start_ready().0.open == self.open,
            self.is_running(key) ==> self.start_ready().0.is_running(key),
        decreases self.backlog.len(),
    {
        match self.next_ready() {
            Some(i) if 0 <= i < self.backlog.len() => {
                self.lemma_start_takes_head(i, key);
                self.start(i).lemma_start_ready_keeps_running(key);
            },
            _ => {},
        }
    }

    /// Once every call that can start was started, none is left that could.
    pub proof fn lemma_start_ready_settles(self)
        requires
            self.wf(),
        ensures
            self.start_ready().0.next_ready() is None,
        decreases self.backlog.len(),
    {
        match self.next_ready() {
            Some(i) if 0 <= i < self.backlog.len() => {
                self.lemma_start_takes_head(i, self.backlog[i].pod.key());
                self.start(i).lemma_start_ready_settles();
            },
            _ => {},
        }
    }

    /// A dispatcher with nothing waiting has no call that could start.
    pub proof fn lemma_empty_backlog_rests(self)
        requires
            self.backlog.len() == 0,
        ensures
            self.next_ready() is None,
    {
    }

    /// A slow handler for one pod does not delay another pod: while `a` is
    /// occupied, however long, a pod `b` that is not occupied and has a
    /// call waiting gets the head of its queue started when the calls that
    /// can start are started. This is stated of a dispatcher without a
    /// bound on occupied pods; under a bound `b` may have to wait for room.
    pub proof fn lemma_other_pod_not_delayed(self, a: KeyView, b: KeyView)
        requires
            self.wf(),
            self.limit is None,
            a != b,
            self.busy(a),
            !self.busy(b),
            self.pending(b).len() > 0,
        ensures
            self.start_ready().1.contains(self.pending(b)[0]),
            self.start_ready().0.is_running(b),
    {
        self.lemma_idle_pod_starts(b);
    }

    /// A pod that is not occupied and has a call waiting gets the head of
    /// its queue started when the calls that can start are started,
    /// whatever other pods are occupied with. Stated of a dispatcher
    /// without a bound on occupied pods.
    pub proof fn lemma_idle_pod_starts(self, key: KeyView)
        requires
            self.wf(),
            self.limit is None,
            !self.busy(key),
            self.pending(key).len() > 0,
        ensures
            self.start_ready().1.contains(self.pending(key)[0]),
            self.start_ready().0.is_running(key),
        decreases self.backlog.len(),
    {
        self.lemma_waiting_pod_has_place(key);
        let place = choose|i: int|
            0 <= i < self.backlog.len() && (#[trigger] self.backlog[i]).pod.key() == key;
        self.lemma_oldest_ready_exists(place);
        let i = self.next_ready().unwrap();
        let call = self.backlog[i];
        let next = self.start(i);
        let rest = next.start_ready();
        self.lemma_start_takes_head(i, key);
        if call.pod.key() == key {
            next.lemma_start_ready_keeps_running(key);
            assert((seq![call] + rest.1)[0] == call);
        } else {
            next.lemma_idle_pod_starts(key);
            let at = choose|at: int| 0 <= at < rest.1.len() && rest.1[at] == self.pending(key)[0];
            assert((seq![call] + rest.1)[at + 1] == self.pending(key)[0]);
        }
    }

    /// A failing handler does not stop its pod's queue: once the report of
    /// the failure has been sent, with those that waited before it, the
    /// pod is no longer occupied, and its queue is what it was.
    pub proof fn lemma_failure_does_not_stop_queue(self, j: int, cause: Seq<char>)
        requires
            self.wf(),
            0 <= j < self.running.len(),
        ensures
            ({
                let key = self.running[j].pod.key();
                let after = self.finish(j, Some(cause)).release(self.outbox.len() + 1);
                &&& after.wf()
                &&& !after.busy(key)
                &&& after.pending(key) == self.pending(key)
                &&& after.outbox.len() == 0
            }),
    {
        let key = self.running[j].pod.key();
        let failed = self.finish(j, Some(cause));
        self.lemma_finish_keeps_queues(j, Some(cause), key);
        failed.lemma_release_frees_senders(self.outbox.len() + 1, key);
    }

    /// Where the channel has room for every waiting report and one more,
    /// the report of a new failure is sent at once.
    pub proof fn lemma_report_fits(self, channel: ReporterView, j: int, cause: Seq<char>)
        requires
            0 <= j < self.running.len(),
            self.outbox.len() + channel.buffer.len() < channel.capacity,
        ensures
            self.finish(j, Some(cause)).sendable(channel) == self.outbox.len() + 1,
    {
    }

    /// Backpressure: a failure that meets a saturated channel is not
    /// dropped and not sent. Its report waits in the outbox, the channel
    /// stays as it is, and the pod stays occupied, so that none of its
    /// waiting calls can start.
    pub proof fn lemma_saturated_channel_holds_sender(
        self,
        channel: ReporterView,
        j: int,
        cause: Seq<char>,
    )
        requires
            self.wf(),
            channel.wf(),
            !channel.has_room(),
            0 <= j < self.running.len(),
        ensures
            ({
                let key = self.running[j].pod.key();
                let failed = self.finish(j, Some(cause));
                let sent = failed.sendable(channel);
                &&& sent == 0
                &&& failed.release(sent) == failed
                &&& channel.accept_all(failed.outbox.take(sent as int)) == channel
                &&& failed.outbox.last() == (ReportView { pod: self.running[j].pod, cause })
                &&& failed.busy(key)
                &&& forall|i: int|
                    0 <= i < failed.backlog.len() && (#[trigger] failed.backlog[i]).pod.key()
                        == key ==> !failed.ready(i)
            }),
    {
        let key = self.running[j].pod.key();
        let failed = self.finish(j, Some(cause));
        self.lemma_finish_keeps_queues(j, Some(cause), key);
        assert(failed.outbox.skip(0) =~= failed.outbox);
    }

    /// When a saturated channel gives up its oldest report, the oldest
    /// waiting report goes in behind those already there.
    pub proof fn lemma_freed_room_admits_oldest(self, channel: ReporterView)
        requires
            channel.wf(),
            !channel.has_room(),
            channel.buffer.len() > 0,
            self.outbox.len() > 0,
        ensures
            self.sendable(channel.take()) == 1,
            channel.take().accept_all(self.outbox.take(1)).buffer == channel.buffer.drop_first().push(
                self.outbox[0],
            ),
            self.release(1).outbox == self.outbox.drop_first(),
    {
    }
}

impl Pipeline {
    /// No step breaks the pipeline: at any time no pod is occupied twice,
    /// the bound on occupied pods holds, and the channel is within its
    /// capacity.
    pub proof fn lemma_step_keeps_wf(self, step: Step)
        requires
            self.wf(),
        ensures
            self.step(step).wf(),
    {
        let d = self.dispatcher;
        let key = KeyView { namespace: Seq::empty(), name: Seq::empty() };
        match step {
            Step::Offer(event) => {
                d.lemma_enqueue_extends_queue(event, key);
            },
            Step::Start => {
                if d.next_ready() is Some {
                    d.lemma_start_takes_head(d.next_ready().unwrap(), key);
                }
            },
            Step::Finish(of, failure) => {
                if d.position(of) is Some {
                    d.lemma_finish_keeps_queues(d.position(of).unwrap(), failure, key);
                }
            },
            Step::Forward => {
                d.lemma_release_frees_senders(d.sendable(self.channel), key);
            },
            Step::Drain => {
                if d.outbox.len() > 0 {
                    d.lemma_release_frees_senders(1, key);
                }
            },
        }
    }

    /// A call starts only for a pod that is not occupied, and occupies it.
    pub proof fn lemma_start_needs_idle_pod(self, step: Step, key: KeyView)
        requires
            self.wf(),
            self.starts(step, key).len() > 0,
        ensures
            !self.dispatcher.busy(key),
            self.step(step).dispatcher.is_running(key),
    {
        self.dispatcher.lemma_start_takes_head(self.dispatcher.next_ready().unwrap(), key);
    }

    /// In one step, what starts for a pod comes off the head of its queue,
    /// and what arrives for it joins the end.
    pub proof fn lemma_step_keeps_order(self, step: Step, key: KeyView)
        requires
            self.wf(),
        ensures
            self.starts(step, key) + self.step(step).dispatcher.pending(key)
                == self.dispatcher.pending(key) + self.arrives(step, key),
    {
        let d = self.dispatcher;
        match step {
            Step::Offer(event) => {
                d.lemma_enqueue_extends_queue(event, key);
            },
            Step::Start => {
                if d.next_ready() is Some {
                    d.lemma_start_takes_head(d.next_ready().unwrap(), key);
                }
            },
            Step::Finish(of, failure) => {
                if d.position(of) is Some {
                    d.lemma_finish_keeps_queues(d.position(of).unwrap(), failure, key);
                }
            },
            _ => {},
        }
    }

    /// In one step a report is neither lost nor made twice: what is
    /// drained comes off the front, and what fails joins the back, of the
    /// reports that the pipeline holds.
    pub proof fn lemma_step_keeps_reports(self, step: Step)
        requires
            self.wf(),
        ensures
            self.drains(step) + self.step(step).held() == self.held() + self.fails(step),
    {
    }

    /// At any time of a run no pod is occupied twice, the bound on
    /// occupied pods holds, and the channel is within its capacity.
    pub proof fn theorem_run_keeps_wf(self, steps: Seq<Step>)
        requires
            self.wf(),
        ensures
            self.run(steps).wf(),
        decreases steps.len(),
    {
        if steps.len() > 0 {
            self.theorem_run_keeps_wf(steps.drop_last());
            self.run(steps.drop_last()).lemma_step_keeps_wf(steps.last());
        }
    }

    /// The calls for one pod are started in the order in which their
    /// events arrived, none left out and none twice: in every run, what
    /// was started for the pod, followed by what still waits for it, is
    /// what waited at the beginning followed by what arrived.
    pub proof fn theorem_per_pod_order(self, steps: Seq<Step>, key: KeyView)
        requires
            self.wf(),
        ensures
            self.started(steps, key) + self.run(steps).dispatcher.pending(key)
                == self.dispatcher.pending(key) + self.arrived(steps, key),
        decreases steps.len(),
    {
        if steps.len() > 0 {
            let init = steps.drop_last();
            let before = self.run(init);
            self.theorem_per_pod_order(init, key);
            self.theorem_run_keeps_wf(init);
            before.lemma_step_keeps_order(steps.last(), key);
            lemma_chain(
                self.started(init, key),
                before.dispatcher.pending(key),
                before.starts(steps.last(), key),
                self.run(steps).dispatcher.pending(key),
                self.dispatcher.pending(key),
                self.arrived(init, key),
                before.arrives(steps.last(), key),
            );
        }
    }

    /// Every failure gives exactly one report, no report is dropped, and
    /// each is taken out to be written back once and in the order of the
    /// failures: in every run, what was drained, followed by what the
    /// pipeline holds, is what was held at the beginning followed by the
    /// reports of the failures.
    pub proof fn theorem_reports_conserved(self, steps: Seq<Step>)
        requires
            self.wf(),
        ensures
            self.drained(steps) + self.run(steps).held() == self.held() + self.failed(steps),
        decreases steps.len(),
    {
        if steps.len() > 0 {
            let init = steps.drop_last();
            let before = self.run(init);
            self.theorem_reports_conserved(init);
            self.theorem_run_keeps_wf(init);
            before.lemma_step_keeps_reports(steps.last());
            lemma_chain(
                self.drained(init),
                before.held(),
                before.drains(steps.last()),
                self.run(steps).held(),
                self.held(),
                self.failed(init),
                before.fails(steps.last()),
            );
        }
    }
}

} // verus!
