//! Failure reports and the bounded channel that carries them from the
//! dispatcher to the loop that writes them back as pod status.

use crate::pod::{Pod, PodView};
use crate::status::{PatchView, Phase, StatusPatch};
use vstd::prelude::*;

verus! {

/// What an [`ErrorReport`] stands for.
pub ghost struct ReportView {
    pub pod: PodView,
    pub cause: Seq<char>,
}

impl ReportView {
    /// The status correction that the report calls for: the pod is marked
    /// failed, with the cause as the message.
    pub open spec fn status_patch(self) -> PatchView {
        PatchView {
            namespace: self.pod.key().namespace,
            name: self.pod.key().name,
            phase: Phase::Failed,
            message: self.cause,
        }
    }
}

/// A failed handler execution: the pod it ran for and the error's text.
#[derive(Debug, PartialEq, Eq)]
pub struct ErrorReport {
    pub pod: Pod,
    pub cause: String,
}

impl View for ErrorReport {
    type V = ReportView;

    open spec fn view(&self) -> ReportView {
        ReportView { pod: self.pod@, cause: self.cause@ }
    }
}

impl ErrorReport {
    /// The status correction that the report calls for.
    pub fn status_patch(&self) -> (patch: StatusPatch)
        ensures
            patch@ == self@.status_patch(),
    {
        let key = self.pod.key();
        StatusPatch {
            namespace: key.namespace,
            name: key.name,
            phase: Phase::Failed,
            message: self.cause.clone(),
        }
    }
}

/// The views of a sequence of reports, in the same order.
pub open spec fn report_views(reports: Seq<ErrorReport>) -> Seq<ReportView> {
    reports.map_values(|report: ErrorReport| report@)
}

/// What an [`ErrorReporter`] stands for: the reports it holds, oldest
/// first, and how many it can hold.
pub ghost struct ReporterView {
    pub capacity: nat,
    pub buffer: Seq<ReportView>,
}

impl ReporterView {
    /// The channel never holds more reports than its capacity.
    pub open spec fn wf(self) -> bool {
        self.buffer.len() <= self.capacity
    }

    /// Whether one more report fits.
    pub open spec fn has_room(self) -> bool {
        self.buffer.len() < self.capacity
    }

    /// The channel after `report` went in.
    pub open spec fn accept(self, report: ReportView) -> ReporterView {
        ReporterView { buffer: self.buffer.push(report), ..self }
    }

    /// The channel after `reports` went in, in their order.
    pub open spec fn accept_all(self, reports: Seq<ReportView>) -> ReporterView {
        ReporterView { buffer: self.buffer + reports, ..self }
    }

    /// The channel after its oldest report was taken out.
    pub open spec fn take(self) -> ReporterView {
        ReporterView { buffer: self.buffer.drop_first(), ..self }
    }
}

/// A bounded first-in, first-out channel of failure reports.
pub struct ErrorReporter {
    capacity: usize,
    buffer: Vec<ErrorReport>,
}

impl View for ErrorReporter {
    type V = ReporterView;

    closed spec fn view(&self) -> ReporterView {
        ReporterView { capacity: self.capacity as nat, buffer: report_views(self.buffer@) }
    }
}

impl ErrorReporter {
    /// The channel never holds more reports than its capacity.
    pub open spec fn wf(&self) -> bool {
        self@.wf()
    }

    /// An empty channel that holds up to `capacity` reports.
    pub fn new(capacity: usize) -> (reporter: ErrorReporter)
        ensures
            reporter.wf(),
            reporter@ == (ReporterView { capacity: capacity as nat, buffer: Seq::empty() }),
    {
        let reporter = ErrorReporter { capacity, buffer: Vec::new() };
        assert(reporter@.buffer =~= Seq::empty());
        reporter
    }

    /// How many reports the channel can hold.
    pub fn capacity(&self) -> (capacity: usize)
        ensures
            capacity == self@.capacity,
    {
        self.capacity
    }

    /// How many reports the channel holds.
    pub fn len(&self) -> (len: usize)
        ensures
            len == self@.buffer.len(),
    {
        self.buffer.len()
    }

    /// Whether the channel holds no report.
    pub fn is_empty(&self) -> (empty: bool)
        ensures
            empty == (self@.buffer.len() == 0),
    {
        self.buffer.len() == 0
    }

    /// Whether the channel is saturated: a sender has to wait.
    pub fn is_full(&self) -> (full: bool)
        requires
            self.wf(),
        ensures
            full == !self@.has_room(),
    {
        self.buffer.len() >= self.capacity
    }

    /// Offers `report` to the channel. With room left the report goes in
    /// behind those already there. A saturated channel stays as it is and
    /// hands the report back: nothing is dropped.
    pub fn try_send(&mut self, report: ErrorReport) -> (outcome: Result<(), ErrorReport>)
        requires
            old(self).wf(),
        ensures
            final(self).wf(),
            match outcome {
                Ok(()) => old(self)@.has_room() && final(self)@ == old(self)@.accept(report@),
                Err(back) => !old(self)@.has_room() && final(self)@ == old(self)@ && back
                    == report,
            },
    {
        if self.buffer.len() < self.capacity {
            self.buffer.push(report);
            assert(final(self)@.buffer =~= old(self)@.accept(report@).buffer);
            Ok(())
        } else {
            Err(report)
        }
    }

    /// Takes the oldest report out of the channel, if there is one.
    pub fn recv(&mut self) -> (received: Option<ErrorReport>)
        requires
            old(self).wf(),
        ensures
            final(self).wf(),
            match received {
                Some(report) => old(self)@.buffer.len() > 0 && report@ == old(self)@.buffer[0]
                    && final(self)@ == old(self)@.take(),
                None => old(self)@.buffer.len() == 0 && final(self)@ == old(self)@,
            },
    {
        if self.buffer.len() == 0 {
            None
        } else {
            let report = self.buffer.remove(0);
            assert(final(self)@.buffer =~= old(self)@.take().buffer);
            Some(report)
        }
    }
}

} // verus!
