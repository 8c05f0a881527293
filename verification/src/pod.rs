//! Pods as the engine sees them, and the events a watch reports about them.

use vstd::prelude::*;

verus! {

/// What a [`PodKey`] stands for: a namespace and a name, as text.
pub ghost struct KeyView {
    pub namespace: Seq<char>,
    pub name: Seq<char>,
}

/// The identity of a pod within the watched scope.
#[derive(Debug, PartialEq, Eq)]
pub struct PodKey {
    pub namespace: String,
    pub name: String,
}

impl View for PodKey {
    type V = KeyView;

    open spec fn view(&self) -> KeyView {
        KeyView { namespace: self.namespace@, name: self.name@ }
    }
}

impl Clone for PodKey {
    fn clone(&self) -> (copy: Self)
        ensures
            copy == *self,
    {
        PodKey { namespace: self.namespace.clone(), name: self.name.clone() }
    }
}

impl PodKey {
    /// The key of the pod `name` in `namespace`.
    pub fn new(namespace: &str, name: &str) -> (key: PodKey)
        ensures
            key@ == (KeyView { namespace: namespace@, name: name@ }),
    {
        PodKey { namespace: namespace.to_owned(), name: name.to_owned() }
    }

    /// Whether both keys name the same pod.
    pub fn same(&self, other: &PodKey) -> (equal: bool)
        ensures
            equal == (self@ == other@),
    {
        self.namespace == other.namespace && self.name == other.name
    }
}

/// What a [`Pod`] stands for.
pub ghost struct PodView {
    pub namespace: Option<Seq<char>>,
    pub name: Seq<char>,
    pub manifest: Seq<char>,
}

impl PodView {
    /// The pod's identity. A pod without a namespace lives in the empty one.
    pub open spec fn key(self) -> KeyView {
        KeyView {
            namespace: match self.namespace {
                Some(namespace) => namespace,
                None => Seq::empty(),
            },
            name: self.name,
        }
    }
}

/// A snapshot of a pod at the time of an event. The engine reads the
/// namespace and the name; the manifest is the full object in serialized
/// form, which the engine carries to the provider unread.
#[derive(Debug, PartialEq, Eq)]
pub struct Pod {
    pub namespace: Option<String>,
    pub name: String,
    pub manifest: String,
}

impl View for Pod {
    type V = PodView;

    open spec fn view(&self) -> PodView {
        PodView {
            namespace: match self.namespace {
                Some(namespace) => Some(namespace@),
                None => None,
            },
            name: self.name@,
            manifest: self.manifest@,
        }
    }
}

impl Clone for Pod {
    fn clone(&self) -> (copy: Self)
        ensures
            copy == *self,
    {
        let namespace = match &self.namespace {
            Some(namespace) => Some(namespace.clone()),
            None => None,
        };
        Pod { namespace, name: self.name.clone(), manifest: self.manifest.clone() }
    }
}

impl Pod {
    /// A snapshot of the pod `name` with the given manifest.
    pub fn new(namespace: Option<&str>, name: &str, manifest: &str) -> (pod: Pod)
        ensures
            pod@ == (PodView {
                namespace: match namespace {
                    Some(text) => Some(text@),
                    None => None,
                },
                name: name@,
                manifest: manifest@,
            }),
    {
        let namespace = match namespace {
            Some(text) => Some(text.to_owned()),
            None => None,
        };
        Pod { namespace, name: name.to_owned(), manifest: manifest.to_owned() }
    }

    /// The pod's identity.
    pub fn key(&self) -> (key: PodKey)
        ensures
            key@ == self@.key(),
    {
        let namespace = match &self.namespace {
            Some(namespace) => namespace.clone(),
            None => String::new(),
        };
        PodKey { namespace, name: self.name.clone() }
    }

    /// Whether `key` is this pod's identity.
    pub fn has_key(&self, key: &PodKey) -> (matches: bool)
        ensures
            matches == (self@.key() == key@),
    {
        let same_namespace = match &self.namespace {
            Some(namespace) => *namespace == key.namespace,
            None => key.namespace.as_str().is_empty(),
        };
        proof {
            if self.namespace is None {
                assert(key.namespace@.len() == 0 <==> key.namespace@ =~= Seq::<char>::empty());
            }
        }
        same_namespace && self.name == key.name
    }
}

/// The provider capability that an event calls for.
#[derive(Debug, Clone, Copy, PartialEq, Eq, Structural)]
pub enum Operation {
    Add,
    Modify,
    Delete,
}

/// What an [`Invocation`] stands for.
pub ghost struct InvocationView {
    pub operation: Operation,
    pub pod: PodView,
}

/// One call of the provider: the capability and the pod snapshot it gets.
#[derive(Debug, PartialEq, Eq)]
pub struct Invocation {
    pub operation: Operation,
    pub pod: Pod,
}

impl View for Invocation {
    type V = InvocationView;

    open spec fn view(&self) -> InvocationView {
        InvocationView { operation: self.operation, pod: self.pod@ }
    }
}

impl Clone for Invocation {
    fn clone(&self) -> (copy: Self)
        ensures
            copy == *self,
    {
        Invocation { operation: self.operation, pod: self.pod.clone() }
    }
}

/// What a [`WatchEvent`] stands for.
pub ghost enum EventView {
    Added(PodView),
    Modified(PodView),
    Deleted(PodView),
    Error(Seq<char>),
}

impl EventView {
    /// The provider call that the event asks for. A stream error asks for
    /// none.
    pub open spec fn invocation(self) -> Option<InvocationView> {
        match self {
            EventView::Added(pod) => Some(InvocationView { operation: Operation::Add, pod }),
            EventView::Modified(pod) => Some(
                InvocationView { operation: Operation::Modify, pod },
            ),
            EventView::Deleted(pod) => Some(
                InvocationView { operation: Operation::Delete, pod },
            ),
            EventView::Error(_) => None,
        }
    }

    /// The pod that the event is about. A stream error is about none.
    pub open spec fn key(self) -> Option<KeyView> {
        match self.invocation() {
            Some(invocation) => Some(invocation.pod.key()),
            None => None,
        }
    }
}

/// A change that the watch reports: a full pod snapshot under one of three
/// tags, or an error of the stream itself with its cause.
#[derive(Debug, PartialEq, Eq)]
pub enum WatchEvent {
    Added(Pod),
    Modified(Pod),
    Deleted(Pod),
    Error(String),
}

impl View for WatchEvent {
    type V = EventView;

    open spec fn view(&self) -> EventView {
        match self {
            WatchEvent::Added(pod) => EventView::Added(pod@),
            WatchEvent::Modified(pod) => EventView::Modified(pod@),
            WatchEvent::Deleted(pod) => EventView::Deleted(pod@),
            WatchEvent::Error(cause) => EventView::Error(cause@),
        }
    }
}

impl WatchEvent {
    /// The pod that the event is about, if it is about one.
    pub fn key(&self) -> (key: Option<PodKey>)
        ensures
            match key {
                Some(key) => self@.key() == Some(key@),
                None => self@.key() is None,
            },
    {
        match self {
            WatchEvent::Added(pod) => Some(pod.key()),
            WatchEvent::Modified(pod) => Some(pod.key()),
            WatchEvent::Deleted(pod) => Some(pod.key()),
            WatchEvent::Error(_) => None,
        }
    }

    /// Turns the event into the provider call it asks for: `Added` into
    /// `Add`, `Modified` into `Modify`, `Deleted` into `Delete`, each with
    /// the event's snapshot. A stream error gives its cause back.
    pub fn into_invocation(self) -> (call: Result<Invocation, String>)
        ensures
            match call {
                Ok(invocation) => self@.invocation() == Some(invocation@),
                Err(cause) => self@ == EventView::Error(cause@),
            },
    {
        match self {
            WatchEvent::Added(pod) => Ok(Invocation { operation: Operation::Add, pod }),
            WatchEvent::Modified(pod) => Ok(Invocation { operation: Operation::Modify, pod }),
            WatchEvent::Deleted(pod) => Ok(Invocation { operation: Operation::Delete, pod }),
            WatchEvent::Error(cause) => Err(cause),
        }
    }
}

} // verus!
