//! The dispatcher and the report channel as one system, and the steps it
//! can take.

use crate::pod::{EventView, InvocationView, KeyView};
use crate::queue::DispatcherView;
use crate::reporter::{ReportView, ReporterView};
use vstd::prelude::*;

verus! {

/// The dispatcher together with the report channel that it sends to.
pub ghost struct Pipeline {
    pub dispatcher: DispatcherView,
    pub channel: ReporterView,
}

/// What can happen to a [`Pipeline`].
pub ghost enum Step {
    /// An event is offered to the dispatcher.
    Offer(EventView),
    /// The oldest call that can start is started.
    Start,
    /// The handler for a pod ends, with the error's text if it failed.
    Finish(KeyView, Option<Seq<char>>),
    /// The waiting reports are sent as far as the channel has room.
    Forward,
    /// The oldest report that is held is taken out, to be written back as
    /// one status patch: out of the channel, or, where the channel holds
    /// none, straight out of the outbox.
    Drain,
}

impl Pipeline {
    /// The dispatcher and the channel are both well formed.
    pub open spec fn wf(self) -> bool {
        self.dispatcher.wf() && self.channel.wf()
    }

    /// The reports that the pipeline holds: those in the channel,
    /// followed by those that wait for room in it.
    pub open spec fn held(self) -> Seq<ReportView> {
        self.channel.buffer + self.dispatcher.outbox
    }

    /// The pipeline after `step`. A step that cannot take place (a start
    /// with nothing to start, the end of a handler that is not running, a
    /// drain where no report is held) changes nothing.
    pub open spec fn step(self, step: Step) -> Pipeline {
        match step {
            Step::Offer(event) => Pipeline { dispatcher: self.dispatcher.enqueue(event), ..self },
            Step::Start => match self.dispatcher.next_ready() {
                Some(i) => Pipeline { dispatcher: self.dispatcher.start(i), ..self },
                None => self,
            },
            Step::Finish(key, failure) => match self.dispatcher.position(key) {
                Some(j) => Pipeline { dispatcher: self.dispatcher.finish(j, failure), ..self },
                None => self,
            },
            Step::Forward => {
                let sent = self.dispatcher.sendable(self.channel);
                Pipeline {
                    dispatcher: self.dispatcher.release(sent),
                    channel: self.channel.accept_all(self.dispatcher.outbox.take(sent as int)),
                }
            },
            Step::Drain => if self.channel.buffer.len() > 0 {
                Pipeline { channel: self.channel.take(), ..self }
            } else if self.dispatcher.outbox.len() > 0 {
                Pipeline { dispatcher: self.dispatcher.release(1), ..self }
            } else {
                self
            },
        }
    }

    /// The pipeline after `steps`, taken in order.
    pub open spec fn run(self, steps: Seq<Step>) -> Pipeline
        decreases steps.len(),
    {
        if steps.len() == 0 {
            self
        } else {
            self.run(steps.drop_last()).step(steps.last())
        }
    }

    /// The call for `key` that arrives with `step`, if one does.
    pub open spec fn arrives(self, step: Step, key: KeyView) -> Seq<InvocationView> {
        match step {
            Step::Offer(event) if self.dispatcher.open && event.key() == Some(key) => seq![
                event.invocation().unwrap(),
            ],
            _ => Seq::empty(),
        }
    }

    /// The call for `key` that `step` starts, if it starts one.
    pub open spec fn starts(self, step: Step, key: KeyView) -> Seq<InvocationView> {
        match (step, self.dispatcher.next_ready()) {
            (Step::Start, Some(i)) if self.dispatcher.backlog[i].pod.key() == key => seq![
                self.dispatcher.backlog[i],
            ],
            _ => Seq::empty(),
        }
    }

    /// The report that `step` produces, if it is the failure of a running
    /// handler.
    pub open spec fn fails(self, step: Step) -> Seq<ReportView> {
        match step {
            Step::Finish(key, Some(cause)) => match self.dispatcher.position(key) {
                Some(j) => seq![ReportView { pod: self.dispatcher.running[j].pod, cause }],
                None => Seq::empty(),
            },
            _ => Seq::empty(),
        }
    }

    /// The report that `step` takes out to be written back, if it takes
    /// one.
    pub open spec fn drains(self, step: Step) -> Seq<ReportView> {
        match step {
            Step::Drain if self.held().len() > 0 => seq![self.held()[0]],
            _ => Seq::empty(),
        }
    }

    /// The calls for `key` that arrive in the course of `steps`, in order.
    pub open spec fn arrived(self, steps: Seq<Step>, key: KeyView) -> Seq<InvocationView>
        decreases steps.len(),
    {
        if steps.len() == 0 {
            Seq::empty()
        } else {
            self.arrived(steps.drop_last(), key) + self.run(steps.drop_last()).arrives(
                steps.last(),
                key,
            )
        }
    }

    /// The calls for `key` that are started in the course of `steps`, in
    /// order.
    pub open spec fn started(self, steps: Seq<Step>, key: KeyView) -> Seq<InvocationView>
        decreases steps.len(),
    {
        if steps.len() == 0 {
            Seq::empty()
        } else {
            self.started(steps.drop_last(), key) + self.run(steps.drop_last()).starts(
                steps.last(),
                key,
            )
        }
    }

    /// The reports of the failures in the course of `steps`, in order.
    pub open spec fn failed(self, steps: Seq<Step>) -> Seq<ReportView>
        decreases steps.len(),
    {
        if steps.len() == 0 {
            Seq::empty()
        } else {
            self.failed(steps.drop_last()) + self.run(steps.drop_last()).fails(steps.last())
        }
    }

    /// The reports that are taken out to be written back in the course of
    /// `steps`, in order.
    pub open spec fn drained(self, steps: Seq<Step>) -> Seq<ReportView>
        decreases steps.len(),
    {
        if steps.len() == 0 {
            Seq::empty()
        } else {
            self.drained(steps.drop_last()) + self.run(steps.drop_last()).drains(steps.last())
        }
    }
}

} // verus!
