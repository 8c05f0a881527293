//! What holds of every run of the agent: of the provider calls it asks
//! for, and of the status patches.

use crate::pipeline::Step;
use crate::kubelet::{
    invokes, warning, ActionView, AgentState, ConfigView, InputView, KubeletView,
};
use crate::node::ReplyView;
use crate::pod::{EventView, InvocationView, KeyView};
use crate::queue::{of_key, DispatcherView};
use crate::reporter::ReportView;
use crate::sequence::{lemma_chain, lemma_filter_push};
use crate::status::PatchView;
use vstd::prelude::*;

verus! {

/// The provider calls for the pod `key` that `actions` ask for, in order.
pub open spec fn invoked(actions: Seq<ActionView>, key: KeyView) -> Seq<InvocationView>
    decreases actions.len(),
{
    if actions.len() == 0 {
        Seq::empty()
    } else {
        invoked(actions.drop_last(), key) + match actions.last() {
            ActionView::Invoke(call) if call.pod.key() == key => seq![call],
            _ => Seq::empty(),
        }
    }
}

/// The status patches that `actions` ask for, in order.
pub open spec fn patched(actions: Seq<ActionView>) -> Seq<PatchView>
    decreases actions.len(),
{
    if actions.len() == 0 {
        Seq::empty()
    } else {
        patched(actions.drop_last()) + match actions.last() {
            ActionView::Patch(patch) => seq![patch],
            _ => Seq::empty(),
        }
    }
}

/// The status patches that `reports` call for, in the same order.
pub open spec fn patches_of(reports: Seq<ReportView>) -> Seq<PatchView> {
    reports.map_values(|report: ReportView| report.status_patch())
}

/// The calls that a sequence of actions asks for are those of its parts.
pub proof fn lemma_invoked_add(a: Seq<ActionView>, b: Seq<ActionView>, key: KeyView)
    ensures
        invoked(a + b, key) == invoked(a, key) + invoked(b, key),
    decreases b.len(),
{
    if b.len() > 0 {
        assert((a + b).drop_last() =~= a + b.drop_last());
        lemma_invoked_add(a, b.drop_last(), key);
    }
}

/// The patches that a sequence of actions asks for are those of its parts.
pub proof fn lemma_patched_add(a: Seq<ActionView>, b: Seq<ActionView>)
    ensures
        patched(a + b) == patched(a) + patched(b),
    decreases b.len(),
{
    if b.len() > 0 {
        assert((a + b).drop_last() =~= a + b.drop_last());
        lemma_patched_add(a, b.drop_last());
    }
}

/// Actions that ask for calls ask for exactly those, and for no patch.
pub proof fn lemma_invokes_observed(calls: Seq<InvocationView>, key: KeyView)
    ensures
        invoked(invokes(calls), key) == calls.filter(of_key(key)),
        patched(invokes(calls)) == Seq::<PatchView>::empty(),
    decreases calls.len(),
{
    reveal(Seq::filter);
    if calls.len() > 0 {
        assert(invokes(calls).drop_last() =~= invokes(calls.drop_last()));
        lemma_invokes_observed(calls.drop_last(), key);
        lemma_filter_push(calls.drop_last(), calls.last(), of_key(key));
    }
}

/// A warning asks for no call and no patch.
pub proof fn lemma_warning_observed(cause: Option<Seq<char>>, key: KeyView)
    ensures
        invoked(warning(cause), key) == Seq::<InvocationView>::empty(),
        patched(warning(cause)) == Seq::<PatchView>::empty(),
{
    if cause is Some {
        lemma_other_action_observed(ActionView::Warn(cause.unwrap()), key);
    }
}

/// One action that asks for a patch asks for that patch and for no call.
pub proof fn lemma_patch_observed(patch: PatchView, key: KeyView)
    ensures
        invoked(seq![ActionView::Patch(patch)], key) == Seq::<InvocationView>::empty(),
        patched(seq![ActionView::Patch(patch)]) == seq![patch],
{
    let one = seq![ActionView::Patch(patch)];
    assert(invoked(one.drop_last(), key) + Seq::<InvocationView>::empty() =~= Seq::<
        InvocationView,
    >::empty());
    assert(patched(one.drop_last()) + seq![patch] =~= seq![patch]);
}

/// One action that is neither a call nor a patch asks for neither.
pub proof fn lemma_other_action_observed(action: ActionView, key: KeyView)
    requires
        !(action is Invoke),
        !(action is Patch),
    ensures
        invoked(seq![action], key) == Seq::<InvocationView>::empty(),
        patched(seq![action]) == Seq::<PatchView>::empty(),
{
    let one = seq![action];
    assert(invoked(one.drop_last(), key) + Seq::<InvocationView>::empty() =~= Seq::<
        InvocationView,
    >::empty());
    assert(patched(one.drop_last()) + Seq::<PatchView>::empty() =~= Seq::<PatchView>::empty());
}

impl DispatcherView {
    /// Starting every call that can start takes the calls off the heads of
    /// their pods' queues: for each pod, what started, followed by what
    /// still waits, is what waited before.
    pub proof fn lemma_start_ready_keeps_order(self, key: KeyView)
        requires
            self.wf(),
        ensures
            self.start_ready().1.filter(of_key(key)) + self.start_ready().0.pending(key)
                == self.pending(key),
            self.start_ready().0.running.len() == self.running.len()
                + self.start_ready().1.len(),
        decreases self.backlog.len(),
    {
        let none = Seq::<InvocationView>::empty();
        reveal(Seq::filter);
        match self.next_ready() {
            Some(i) if 0 <= i < self.backlog.len() => {
                let call = self.backlog[i];
                let rest = self.start(i).start_ready();
                self.lemma_start_takes_head(i, key);
                self.start(i).lemma_start_ready_keeps_order(key);
                Seq::filter_distributes_over_add(seq![call], rest.1, of_key(key));
                lemma_filter_push(none, call, of_key(key));
                if call.pod.key() == key {
                    assert((seq![call] + rest.1.filter(of_key(key))) + rest.0.pending(key)
                        =~= seq![call] + (rest.1.filter(of_key(key)) + rest.0.pending(key)));
                }
            },
            _ => {},
        }
    }
}

impl KubeletView {
    /// The reports that the agent holds: those in the channel, followed by
    /// those that wait for room in it.
    pub open spec fn held(self) -> Seq<ReportView> {
        self.pipeline().held()
    }

    /// The report that is taken out when the agent is brought to rest, if
    /// one is.
    pub open spec fn taken_out(self) -> Seq<ReportView> {
        let forwarded = self.pipeline().step(Step::Forward);
        if !self.patching && forwarded.held().len() > 0 {
            seq![forwarded.held()[0]]
        } else {
            Seq::empty()
        }
    }

    /// The agent as it is when `input` has been taken in and the agent is
    /// about to be brought to rest, for the inputs that call for this.
    pub open spec fn taking_in(self, input: InputView) -> Option<KubeletView> {
        match input {
            InputView::Watch(event) => Some(
                KubeletView { dispatcher: self.dispatcher.enqueue(event), ..self },
            ),
            InputView::HandlerDone(key, failure) => Some(
                match self.dispatcher.position(key) {
                    Some(j) => KubeletView {
                        dispatcher: self.dispatcher.finish(j, failure),
                        ..self
                    },
                    None => self,
                },
            ),
            InputView::PatchDone(_) => Some(KubeletView { patching: false, ..self }),
            _ => None,
        }
    }

    /// The call for `key` that arrives with `input`, if one does.
    pub open spec fn arrives(self, input: InputView, key: KeyView) -> Seq<InvocationView> {
        match input {
            InputView::Watch(event) if self.state == AgentState::Running
                => self.pipeline().arrives(Step::Offer(event), key),
            _ => Seq::empty(),
        }
    }

    /// The report that `input` produces, if it is the failure of a running
    /// handler.
    pub open spec fn fails(self, input: InputView) -> Seq<ReportView> {
        match input {
            InputView::HandlerDone(key, failure) if self.state == AgentState::Running
                => self.pipeline().fails(Step::Finish(key, failure)),
            _ => Seq::empty(),
        }
    }

    /// The report that is taken out in answer to `input`, if one is.
    pub open spec fn drains(self, input: InputView) -> Seq<ReportView> {
        match self.taking_in(input) {
            Some(next) if self.state == AgentState::Running => next.taken_out(),
            _ => Seq::empty(),
        }
    }

    /// The agent after `inputs`, taken in order.
    pub open spec fn run(self, inputs: Seq<InputView>) -> KubeletView
        decreases inputs.len(),
    {
        if inputs.len() == 0 {
            self
        } else {
            self.run(inputs.drop_last()).step(inputs.last()).0
        }
    }

    /// The actions that answer `inputs`, in order.
    pub open spec fn answers(self, inputs: Seq<InputView>) -> Seq<ActionView>
        decreases inputs.len(),
    {
        if inputs.len() == 0 {
            Seq::empty()
        } else {
            self.answers(inputs.drop_last()) + self.run(inputs.drop_last()).step(inputs.last()).1
        }
    }

    /// The calls for `key` that arrive in the course of `inputs`, in order.
    pub open spec fn arrived(self, inputs: Seq<InputView>, key: KeyView) -> Seq<InvocationView>
        decreases inputs.len(),
    {
        if inputs.len() == 0 {
            Seq::empty()
        } else {
            self.arrived(inputs.drop_last(), key) + self.run(inputs.drop_last()).arrives(
                inputs.last(),
                key,
            )
        }
    }

    /// The reports of the failures in the course of `inputs`, in order.
    pub open spec fn failed(self, inputs: Seq<InputView>) -> Seq<ReportView>
        decreases inputs.len(),
    {
        if inputs.len() == 0 {
            Seq::empty()
        } else {
            self.failed(inputs.drop_last()) + self.run(inputs.drop_last()).fails(inputs.last())
        }
    }

    /// The reports that are taken out in the course of `inputs`, in order.
    pub open spec fn drained(self, inputs: Seq<InputView>) -> Seq<ReportView>
        decreases inputs.len(),
    {
        if inputs.len() == 0 {
            Seq::empty()
        } else {
            self.drained(inputs.drop_last()) + self.run(inputs.drop_last()).drains(
                inputs.last(),
            )
        }
    }

    /// Bringing the agent to rest asks for one patch for the report it
    /// takes out and for no other, and loses no report.
    pub proof fn lemma_settle_keeps_reports(self)
        requires
            self.dispatcher.wf(),
            self.channel.wf(),
        ensures
            patched(self.settle().1) == patches_of(self.taken_out()),
            self.taken_out() + self.settle().0.held() == self.held(),
    {
        let key = KeyView { namespace: Seq::empty(), name: Seq::empty() };
        let start = self.pipeline();
        let forwarded = start.step(Step::Forward);
        let drains = !self.patching && forwarded.held().len() > 0;
        let taken = forwarded.step(Step::Drain);
        let drained = if drains {
            taken.step(Step::Forward)
        } else {
            forwarded
        };
        let patches = if drains {
            seq![ActionView::Patch(forwarded.held()[0].status_patch())]
        } else {
            Seq::<ActionView>::empty()
        };
        let calls = drained.dispatcher.start_ready().1;
        // Forwarding loses nothing, nor does taking one report out.
        start.lemma_step_keeps_wf(Step::Forward);
        start.lemma_step_keeps_reports(Step::Forward);
        if drains {
            forwarded.lemma_step_keeps_wf(Step::Drain);
            forwarded.lemma_step_keeps_reports(Step::Drain);
            taken.lemma_step_keeps_reports(Step::Forward);
            lemma_patch_observed(forwarded.held()[0].status_patch(), key);
        }
        // Starting calls touches no report and asks for no patch.
        drained.dispatcher.lemma_start_ready_keeps_running(key);
        lemma_invokes_observed(calls, key);
        lemma_patched_add(patches, invokes(calls));
    }

    /// The calls that are asked for when the agent is brought to rest come
    /// off the heads of their pods' queues.
    pub proof fn lemma_settle_keeps_order(self, key: KeyView)
        requires
            self.dispatcher.wf(),
            self.channel.wf(),
        ensures
            invoked(self.settle().1, key) + self.settle().0.dispatcher.pending(key)
                == self.dispatcher.pending(key),
    {
        let forwarded = self.pipeline().step(Step::Forward);
        let drains = !self.patching && forwarded.held().len() > 0;
        let drained = if drains {
            forwarded.step(Step::Drain).step(Step::Forward)
        } else {
            forwarded
        };
        let patches = if drains {
            seq![ActionView::Patch(forwarded.held()[0].status_patch())]
        } else {
            Seq::<ActionView>::empty()
        };
        let calls = drained.dispatcher.start_ready().1;
        self.pipeline().lemma_step_keeps_wf(Step::Forward);
        if drains {
            forwarded.lemma_step_keeps_wf(Step::Drain);
            forwarded.step(Step::Drain).lemma_step_keeps_wf(Step::Forward);
            lemma_patch_observed(forwarded.held()[0].status_patch(), key);
        }
        drained.dispatcher.lemma_start_ready_keeps_order(key);
        lemma_invokes_observed(calls, key);
        lemma_invoked_add(patches, invokes(calls), key);
    }

    /// One input to a running agent: the agent stays well formed; the
    /// patches asked for are those of the reports taken out; no report is
    /// lost or made twice; and what is asked to be called for a pod comes
    /// off the head of its queue, while what arrives joins the end.
    pub proof fn lemma_step_observed(self, input: InputView, key: KeyView)
        requires
            self.wf(),
        ensures
            self.step(input).0.wf(),
            self.state != AgentState::Running ==> self.step(input).0.state == self.state,
            patched(self.step(input).1) == patches_of(self.drains(input)),
            self.step(input).0.state == AgentState::Running ==> self.drains(input) + self.step(
                input,
            ).0.held() == self.held() + self.fails(input),
            self.step(input).0.state == AgentState::Running ==> invoked(self.step(input).1, key)
                + self.step(input).0.dispatcher.pending(key) == self.dispatcher.pending(key)
                + self.arrives(input, key),
    {
        let next = self.step(input).0;
        let actions = self.step(input).1;
        if self.state != AgentState::Running {
            if self.state != AgentState::NotStarted && input is Watch {
                lemma_other_action_observed(actions[0], key);
            }
        } else {
            match input {
                InputView::Watch(event) => {
                    let taken = self.taking_in(input).unwrap();
                    let cause = match event {
                        EventView::Error(cause) => Some(cause),
                        _ => None,
                    };
                    self.dispatcher.lemma_enqueue_extends_queue(event, key);
                    taken.lemma_settle_keeps_reports();
                    taken.lemma_settle_keeps_order(key);
                    taken.lemma_settle_rests();
                    lemma_warning_observed(cause, key);
                    lemma_invoked_add(warning(cause), taken.settle().1, key);
                    lemma_patched_add(warning(cause), taken.settle().1);
                },
                InputView::HandlerDone(of, failure) => {
                    let taken = self.taking_in(input).unwrap();
                    if self.dispatcher.position(of) is Some {
                        self.dispatcher.lemma_finish_keeps_queues(
                            self.dispatcher.position(of).unwrap(),
                            failure,
                            key,
                        );
                    }
                    taken.lemma_settle_keeps_reports();
                    taken.lemma_settle_keeps_order(key);
                    taken.lemma_settle_rests();
                },
                InputView::PatchDone(failure) => {
                    let taken = self.taking_in(input).unwrap();
                    taken.lemma_settle_keeps_reports();
                    taken.lemma_settle_keeps_order(key);
                    taken.lemma_settle_rests();
                    lemma_warning_observed(failure, key);
                    lemma_invoked_add(warning(failure), taken.settle().1, key);
                    lemma_patched_add(warning(failure), taken.settle().1);
                },
                InputView::WatchClosed(cause) => {
                    let open = seq![ActionView::OpenWatch(self.selector())];
                    lemma_warning_observed(cause, key);
                    lemma_other_action_observed(open[0], key);
                    lemma_invoked_add(warning(cause), open, key);
                    lemma_patched_add(warning(cause), open);
                },
                InputView::TimerFired => {
                    if self.lifecycle.due() {
                        lemma_other_action_observed(actions[0], key);
                    }
                },
                InputView::RefreshDone(failure) => {
                    let sleep = if self.lifecycle.refreshing {
                        seq![ActionView::Sleep(self.lifecycle.interval_secs)]
                    } else {
                        Seq::<ActionView>::empty()
                    };
                    lemma_warning_observed(failure, key);
                    if self.lifecycle.refreshing {
                        lemma_other_action_observed(sleep[0], key);
                    }
                    lemma_invoked_add(warning(failure), sleep, key);
                    lemma_patched_add(warning(failure), sleep);
                },
                InputView::TaskExited(task, failure) => {
                    next.dispatcher.lemma_empty_backlog_rests();
                    lemma_other_action_observed(actions[0], key);
                },
                InputView::Shutdown => {
                    next.dispatcher.lemma_empty_backlog_rests();
                    lemma_other_action_observed(actions[0], key);
                },
            }
        }
    }

    /// A new agent is well formed, and a start keeps it so.
    pub proof fn lemma_start_keeps_wf(config: ConfigView, reply: ReplyView)
        ensures
            KubeletView::fresh(config).wf(),
            KubeletView::fresh(config).start(reply).0.wf(),
    {
        let fresh = KubeletView::fresh(config);
        fresh.dispatcher.lemma_empty_backlog_rests();
        fresh.start(reply).0.dispatcher.lemma_empty_backlog_rests();
    }

    /// No pod waits for another: at any time, a pod with a call waiting is
    /// itself occupied, unless the bound on occupied pods is reached.
    /// However slow the handler of one pod is, the calls of a pod that is
    /// not occupied have all been started.
    pub proof fn lemma_no_pod_waits_for_another(self, key: KeyView)
        requires
            self.wf(),
            !self.dispatcher.at_limit(),
            self.dispatcher.pending(key).len() > 0,
        ensures
            self.dispatcher.busy(key),
    {
        self.dispatcher.lemma_waiting_pod_has_place(key);
        let place = choose|i: int|
            0 <= i < self.dispatcher.backlog.len() && (
            #[trigger] self.dispatcher.backlog[i]).pod.key() == key;
        if !self.dispatcher.busy(key) {
            self.dispatcher.lemma_oldest_ready_exists(place);
        }
    }

    /// A failure does not stall its pod: at any time when the channel has
    /// room, a pod with a call waiting has a handler running, whatever
    /// failed for it before. The bound on occupied pods must not be
    /// reached.
    pub proof fn lemma_failed_pod_goes_on(self, key: KeyView)
        requires
            self.wf(),
            !self.dispatcher.at_limit(),
            self.channel.has_room(),
            self.dispatcher.pending(key).len() > 0,
        ensures
            self.dispatcher.is_running(key),
    {
        self.lemma_no_pod_waits_for_another(key);
    }

    /// Backpressure and nothing more: at any time, a failure is kept
    /// waiting, and its pod occupied, only while the channel is saturated;
    /// and a patch is then under way, so that room will come.
    pub proof fn lemma_report_waits_only_for_room(self, key: KeyView)
        requires
            self.wf(),
            self.dispatcher.is_reporting(key),
        ensures
            self.channel.buffer.len() == self.channel.capacity,
            self.patching,
    {
    }

    /// Whatever comes in, the agent stays well formed; and an agent that
    /// runs at the end of a run has run all through it.
    pub proof fn theorem_run_keeps_wf(self, inputs: Seq<InputView>)
        requires
            self.wf(),
        ensures
            self.run(inputs).wf(),
            self.state != AgentState::Running ==> self.run(inputs).state == self.state,
            inputs.len() > 0 && self.run(inputs).state == AgentState::Running ==> self.run(
                inputs.drop_last(),
            ).state == AgentState::Running,
        decreases inputs.len(),
    {
        let key = KeyView { namespace: Seq::empty(), name: Seq::empty() };
        if inputs.len() > 0 {
            self.theorem_run_keeps_wf(inputs.drop_last());
            self.run(inputs.drop_last()).lemma_step_observed(inputs.last(), key);
        }
    }

    /// In every run that leaves the agent running, the provider calls that
    /// the agent asked for on behalf of one pod are the pod's events in
    /// the order of their arrival, none left out and none twice: what was
    /// asked for, followed by what still waits, is what waited at the
    /// beginning followed by what arrived.
    pub proof fn theorem_calls_keep_arrival_order(self, inputs: Seq<InputView>, key: KeyView)
        requires
            self.wf(),
            self.run(inputs).state == AgentState::Running,
        ensures
            invoked(self.answers(inputs), key) + self.run(inputs).dispatcher.pending(key)
                == self.dispatcher.pending(key) + self.arrived(inputs, key),
        decreases inputs.len(),
    {
        if inputs.len() > 0 {
            let init = inputs.drop_last();
            let before = self.run(init);
            let answer = before.step(inputs.last()).1;
            self.theorem_run_keeps_wf(inputs);
            self.theorem_run_keeps_wf(init);
            self.theorem_calls_keep_arrival_order(init, key);
            before.lemma_step_observed(inputs.last(), key);
            lemma_invoked_add(self.answers(init), answer, key);
            lemma_chain(
                invoked(self.answers(init), key),
                before.dispatcher.pending(key),
                invoked(answer, key),
                self.run(inputs).dispatcher.pending(key),
                self.dispatcher.pending(key),
                self.arrived(init, key),
                before.arrives(inputs.last(), key),
            );
        }
    }

    /// In every run, whether or not it leaves the agent running, the
    /// provider calls that the agent asked for on behalf of one pod are
    /// the first of the pod's events in the order of their arrival: calls
    /// may be left undone when the agent goes down, but none is made out
    /// of order, twice, or for an event that did not arrive.
    pub proof fn theorem_calls_are_first_arrivals(self, inputs: Seq<InputView>, key: KeyView)
        requires
            self.wf(),
        ensures
            invoked(self.answers(inputs), key).is_prefix_of(
                self.dispatcher.pending(key) + self.arrived(inputs, key),
            ),
        decreases inputs.len(),
    {
        let none = Seq::<InvocationView>::empty();
        if inputs.len() > 0 {
            let init = inputs.drop_last();
            let before = self.run(init);
            let answer = before.step(inputs.last()).1;
            self.theorem_run_keeps_wf(init);
            before.lemma_step_observed(inputs.last(), key);
            lemma_invoked_add(self.answers(init), answer, key);
            if self.run(inputs).state == AgentState::Running {
                self.theorem_calls_keep_arrival_order(inputs, key);
            } else if before.state == AgentState::Running {
                self.theorem_calls_keep_arrival_order(init, key);
                assert(invoked(answer, key) =~= none) by {
                    lemma_other_action_observed(ActionView::Halt, key);
                }
            } else {
                self.theorem_calls_are_first_arrivals(init, key);
                assert(invoked(answer, key) =~= none) by {
                    if answer.len() > 0 {
                        lemma_other_action_observed(answer[0], key);
                    }
                }
            }
        }
    }

    /// In every run that leaves the agent running, each report that is
    /// taken out gives exactly one status patch: the patches asked for are
    /// those of the reports taken out, in order.
    pub proof fn theorem_reports_are_patched_once(self, inputs: Seq<InputView>)
        requires
            self.wf(),
            self.run(inputs).state == AgentState::Running,
        ensures
            patched(self.answers(inputs)) == patches_of(self.drained(inputs)),
        decreases inputs.len(),
    {
        let key = KeyView { namespace: Seq::empty(), name: Seq::empty() };
        if inputs.len() > 0 {
            let init = inputs.drop_last();
            let before = self.run(init);
            self.theorem_run_keeps_wf(inputs);
            self.theorem_run_keeps_wf(init);
            self.theorem_reports_are_patched_once(init);
            before.lemma_step_observed(inputs.last(), key);
            lemma_patched_add(self.answers(init), before.step(inputs.last()).1);
            lemma_patches_of_add(self.drained(init), before.drains(inputs.last()));
        }
    }

    /// In every run that leaves the agent running, each failure of a
    /// handler gives exactly one report and no report is dropped: the
    /// reports taken out, followed by those that the agent still holds,
    /// are those held at the beginning followed by those of the failures,
    /// in order.
    pub proof fn theorem_failures_are_reported_once(self, inputs: Seq<InputView>)
        requires
            self.wf(),
            self.run(inputs).state == AgentState::Running,
        ensures
            self.drained(inputs) + self.run(inputs).held() == self.held() + self.failed(inputs),
        decreases inputs.len(),
    {
        let key = KeyView { namespace: Seq::empty(), name: Seq::empty() };
        if inputs.len() > 0 {
            let init = inputs.drop_last();
            let before = self.run(init);
            self.theorem_run_keeps_wf(inputs);
            self.theorem_run_keeps_wf(init);
            self.theorem_failures_are_reported_once(init);
            before.lemma_step_observed(inputs.last(), key);
            lemma_chain(
                self.drained(init),
                before.held(),
                before.drains(inputs.last()),
                self.run(inputs).held(),
                self.held(),
                self.failed(init),
                before.fails(inputs.last()),
            );
        }
    }
}

/// The patches of a sequence of reports are those of its parts.
pub proof fn lemma_patches_of_add(a: Seq<ReportView>, b: Seq<ReportView>)
    ensures
        patches_of(a + b) == patches_of(a) + patches_of(b),
{
}

} // verus!
