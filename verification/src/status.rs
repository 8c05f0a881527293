//! The status correction that is sent for a pod whose handler failed.

use vstd::prelude::*;
use vstd::string::*;

verus! {

/// The text of a JSON document that consists of the one string `text`:
/// the text between double quotes, with the characters escaped that JSON
/// does not allow bare.
pub uninterp spec fn json_string(text: Seq<char>) -> Seq<char>;

/// Renders `text` as a JSON string through `serde_json`: it calls `to_string`
/// on a `serde_json::Value::String`, which writes the value in the compact
/// form. Trusted: the result is taken to be a function of the text alone.
#[verifier::external_body]
fn quote(text: &str) -> (quoted: String)
    ensures
        quoted@ == json_string(text@),
{
    serde_json::Value::String(text.to_owned()).to_string()
}

/// The phase of a pod's life, as its status reports it.
#[derive(Debug, Clone, Copy, PartialEq, Eq, Structural)]
pub enum Phase {
    Pending,
    Running,
    Succeeded,
    Failed,
    Unknown,
}

impl Phase {
    /// The word that stands for the phase in a status.
    pub open spec fn label(self) -> Seq<char> {
        match self {
            Phase::Pending => "Pending"@,
            Phase::Running => "Running"@,
            Phase::Succeeded => "Succeeded"@,
            Phase::Failed => "Failed"@,
            Phase::Unknown => "Unknown"@,
        }
    }

    /// The word that stands for the phase in a status.
    pub fn as_str(&self) -> (word: &'static str)
        ensures
            word@ == self.label(),
    {
        match self {
            Phase::Pending => "Pending",
            Phase::Running => "Running",
            Phase::Succeeded => "Succeeded",
            Phase::Failed => "Failed",
            Phase::Unknown => "Unknown",
        }
    }
}

/// What a [`StatusPatch`] stands for.
pub ghost struct PatchView {
    pub namespace: Seq<char>,
    pub name: Seq<char>,
    pub phase: Phase,
    pub message: Seq<char>,
}

/// The merge-patch document for a phase and a message that are given as
/// JSON text: an empty resource version, so that the patch applies
/// whatever version the object has, and under `status` the two values.
pub open spec fn merge_patch(phase: Seq<char>, message: Seq<char>) -> Seq<char> {
    "{\"metadata\":{\"resourceVersion\":\"\"},\"status\":{\"phase\":"@ + phase
        + ",\"message\":"@ + message + "}}"@
}

/// Writes the merge-patch document around a phase and a message that are
/// given as JSON text.
pub fn merge_patch_text(phase: &str, message: &str) -> (text: String)
    ensures
        text@ == merge_patch(phase@, message@),
{
    let mut text = "{\"metadata\":{\"resourceVersion\":\"\"},\"status\":{\"phase\":".to_owned();
    text.append(phase);
    text.append(",\"message\":");
    text.append(message);
    text.append("}}");
    text
}

impl PatchView {
    /// The merge-patch document that sets the phase and the message, each
    /// as a JSON string.
    pub open spec fn body(self) -> Seq<char> {
        merge_patch(json_string(self.phase.label()), json_string(self.message))
    }
}

/// A partial update of one pod's status: the pod it is for, and the phase
/// and message to set.
#[derive(Debug, PartialEq, Eq)]
pub struct StatusPatch {
    pub namespace: String,
    pub name: String,
    pub phase: Phase,
    pub message: String,
}

impl View for StatusPatch {
    type V = PatchView;

    open spec fn view(&self) -> PatchView {
        PatchView {
            namespace: self.namespace@,
            name: self.name@,
            phase: self.phase,
            message: self.message@,
        }
    }
}

impl StatusPatch {
    /// The body of the request that applies the patch, as JSON text.
    pub fn body(&self) -> (text: String)
        ensures
            text@ == self@.body(),
    {
        let phase = quote(self.phase.as_str());
        let message = quote(self.message.as_str());
        merge_patch_text(phase.as_str(), message.as_str())
    }
}

} // verus!
