//! The node's own record: registration at startup, and the loop that
//! keeps the node marked live.

use vstd::prelude::*;

verus! {

/// What the remote store answered to the request to create the node's
/// record, as text where it carries any.
pub ghost enum ReplyView {
    Created,
    AlreadyExists,
    Failed(Seq<char>),
}

/// What the remote store answered to the request to create the node's
/// record.
#[derive(Debug, PartialEq, Eq)]
pub enum CreateReply {
    /// The record did not exist and was created.
    Created,
    /// A record of that name exists already.
    AlreadyExists,
    /// The store could not be reached or refused the request.
    Failed(String),
}

impl View for CreateReply {
    type V = ReplyView;

    open spec fn view(&self) -> ReplyView {
        match self {
            CreateReply::Created => ReplyView::Created,
            CreateReply::AlreadyExists => ReplyView::AlreadyExists,
            CreateReply::Failed(cause) => ReplyView::Failed(cause@),
        }
    }
}

/// How the node came to its record.
#[derive(Debug, Clone, Copy, PartialEq, Eq, Structural)]
pub enum Registration {
    /// The agent created the record.
    Created,
    /// The record existed, and the agent took it over.
    Adopted,
}

/// Create-or-adopt: a record that exists already is taken over, which is
/// no error. Only a request that failed otherwise leaves the node without
/// a record, and gives the cause.
pub open spec fn registration_of(reply: ReplyView) -> Result<Registration, Seq<char>> {
    match reply {
        ReplyView::Created => Ok(Registration::Created),
        ReplyView::AlreadyExists => Ok(Registration::Adopted),
        ReplyView::Failed(cause) => Err(cause),
    }
}

/// The outcome of a registration as plain text and tags.
pub open spec fn registered_view(outcome: Result<Registration, String>) -> Result<
    Registration,
    Seq<char>,
> {
    match outcome {
        Ok(registration) => Ok(registration),
        Err(cause) => Err(cause@),
    }
}

/// A remote store of node records, as far as registration goes: the names
/// that have a record.
pub ghost struct NodeStore {
    pub names: Set<Seq<char>>,
}

impl NodeStore {
    /// The store's answer to a request to create a record for `name`, and
    /// the store afterwards.
    pub open spec fn create(self, name: Seq<char>) -> (NodeStore, ReplyView) {
        if self.names.contains(name) {
            (self, ReplyView::AlreadyExists)
        } else {
            (NodeStore { names: self.names.insert(name) }, ReplyView::Created)
        }
    }

    /// One registration of the node `name` against the store: the store
    /// afterwards, and the outcome.
    pub open spec fn create_or_adopt(self, name: Seq<char>) -> (
        NodeStore,
        Result<Registration, Seq<char>>,
    ) {
        (self.create(name).0, registration_of(self.create(name).1))
    }

    /// Registration is idempotent: whatever the store held, registering
    /// the same node twice succeeds both times, the second time by
    /// adoption, and the second registration leaves the store as the
    /// first left it, with a record for the node.
    pub proof fn lemma_registration_idempotent(self, name: Seq<char>)
        ensures
            self.create_or_adopt(name).1 is Ok,
            self.create_or_adopt(name).0.create_or_adopt(name).1 == Ok::<
                Registration,
                Seq<char>,
            >(Registration::Adopted),
            self.create_or_adopt(name).0.create_or_adopt(name).0 == self.create_or_adopt(name).0,
            self.create_or_adopt(name).0.names.contains(name),
    {
    }
}

/// What the liveness loop does next.
#[derive(Debug, Clone, Copy, PartialEq, Eq, Structural)]
pub enum Beat {
    /// Refresh the node's liveness marker now.
    Refresh,
    /// Wait for this many seconds, then come back.
    Sleep(u64),
    /// Nothing: the signal did not fit the state of the loop.
    Idle,
}

/// What a [`NodeLifecycle`] stands for.
pub ghost struct LifecycleView {
    pub node_name: Seq<char>,
    pub interval_secs: u64,
    pub registration: Option<Registration>,
    /// Whether a refresh has been issued and has not come back.
    pub refreshing: bool,
    /// How many refreshes were issued.
    pub attempts: nat,
    /// How many of them failed.
    pub failures: nat,
}

impl LifecycleView {
    /// A node that has no record yet.
    pub open spec fn fresh(node_name: Seq<char>, interval_secs: u64) -> LifecycleView {
        LifecycleView {
            node_name,
            interval_secs,
            registration: None,
            refreshing: false,
            attempts: 0,
            failures: 0,
        }
    }

    /// The lifecycle after the store's reply to the creation request.
    pub open spec fn register(self, reply: ReplyView) -> LifecycleView {
        match registration_of(reply) {
            Ok(registration) => LifecycleView { registration: Some(registration), ..self },
            Err(_) => self,
        }
    }

    /// Whether a refresh is due when the timer fires: the node has its
    /// record, and no refresh is under way.
    pub open spec fn due(self) -> bool {
        self.registration is Some && !self.refreshing
    }

    /// The lifecycle after the timer fired.
    pub open spec fn timer_fired(self) -> LifecycleView {
        if self.due() {
            LifecycleView { refreshing: true, attempts: count_up(self.attempts), ..self }
        } else {
            self
        }
    }

    /// The lifecycle after a refresh came back, failed or not.
    pub open spec fn refreshed(self, failed: bool) -> LifecycleView {
        if self.refreshing {
            LifecycleView {
                refreshing: false,
                failures: if failed {
                    count_up(self.failures)
                } else {
                    self.failures
                },
                ..self
            }
        } else {
            self
        }
    }
}

/// A counter's next value: one more, but never beyond what 64 bits hold.
pub open spec fn count_up(count: nat) -> nat {
    if count < u64::MAX {
        count + 1
    } else {
        count
    }
}

/// The node's registration and its liveness loop: refresh, sleep for the
/// interval, refresh again, without end.
pub struct NodeLifecycle {
    node_name: String,
    interval_secs: u64,
    registration: Option<Registration>,
    refreshing: bool,
    attempts: u64,
    failures: u64,
}

impl View for NodeLifecycle {
    type V = LifecycleView;

    closed spec fn view(&self) -> LifecycleView {
        LifecycleView {
            node_name: self.node_name@,
            interval_secs: self.interval_secs,
            registration: self.registration,
            refreshing: self.refreshing,
            attempts: self.attempts as nat,
            failures: self.failures as nat,
        }
    }
}

impl NodeLifecycle {
    /// The lifecycle of the node `node_name`, which has no record yet, with
    /// `interval_secs` seconds between two refreshes.
    pub fn new(node_name: &str, interval_secs: u64) -> (lifecycle: NodeLifecycle)
        ensures
            lifecycle@ == LifecycleView::fresh(node_name@, interval_secs),
    {
        NodeLifecycle {
            node_name: node_name.to_owned(),
            interval_secs,
            registration: None,
            refreshing: false,
            attempts: 0,
            failures: 0,
        }
    }

    /// The node's name.
    pub fn node_name(&self) -> (name: &str)
        ensures
            name@ == self@.node_name,
    {
        self.node_name.as_str()
    }

    /// The seconds between two refreshes.
    pub fn interval_secs(&self) -> (secs: u64)
        ensures
            secs == self@.interval_secs,
    {
        self.interval_secs
    }

    /// How the node came to its record, once it has one.
    pub fn registration(&self) -> (registration: Option<Registration>)
        ensures
            registration == self@.registration,
    {
        self.registration
    }

    /// How many refreshes were issued.
    pub fn attempts(&self) -> (attempts: u64)
        ensures
            attempts == self@.attempts,
    {
        self.attempts
    }

    /// How many refreshes failed.
    pub fn failures(&self) -> (failures: u64)
        ensures
            failures == self@.failures,
    {
        self.failures
    }

    /// Takes the store's reply to the request to create the node's record.
    /// A created record and one that existed already both register the
    /// node; any other reply gives its cause as the error and leaves the
    /// node without a record.
    pub fn register(&mut self, reply: CreateReply) -> (outcome: Result<Registration, String>)
        ensures
            registered_view(outcome) == registration_of(reply@),
            final(self)@ == old(self)@.register(reply@),
    {
        match reply {
            CreateReply::Created => {
                self.registration = Some(Registration::Created);
                Ok(Registration::Created)
            },
            CreateReply::AlreadyExists => {
                self.registration = Some(Registration::Adopted);
                Ok(Registration::Adopted)
            },
            CreateReply::Failed(cause) => Err(cause),
        }
    }

    /// The timer fired. With a record and no refresh under way, a refresh
    /// is issued and counted; else nothing happens.
    pub fn timer_fired(&mut self) -> (beat: Beat)
        ensures
            final(self)@ == old(self)@.timer_fired(),
            beat == if old(self)@.due() {
                Beat::Refresh
            } else {
                Beat::Idle
            },
    {
        if self.registration.is_some() && !self.refreshing {
            self.refreshing = true;
            if self.attempts < u64::MAX {
                self.attempts = self.attempts + 1;
            }
            Beat::Refresh
        } else {
            Beat::Idle
        }
    }

    /// The refresh that was under way came back. Failed or not, the loop
    /// goes on: it sleeps for the interval. A failure is counted.
    pub fn refreshed(&mut self, failed: bool) -> (beat: Beat)
        ensures
            final(self)@ == old(self)@.refreshed(failed),
            beat == if old(self)@.refreshing {
                Beat::Sleep(old(self)@.interval_secs)
            } else {
                Beat::Idle
            },
    {
        if self.refreshing {
            self.refreshing = false;
            if failed && self.failures < u64::MAX {
                self.failures = self.failures + 1;
            }
            Beat::Sleep(self.interval_secs)
        } else {
            Beat::Idle
        }
    }
}

} // verus!
