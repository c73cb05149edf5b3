//! Payloads, and the failures that workflows and activities report.

use vstd::prelude::*;
use vstd::string::*;

verus! {

/// Encoding of a payload's bytes.
#[derive(Clone, Copy, Debug, PartialEq, Eq, Structural)]
pub enum ContentType {
    /// UTF-8 encoded JSON.
    Json,
}

/// Opaque data handed to and returned by workflows and activities.
#[derive(Debug, PartialEq, Eq)]
pub struct Payload {
    pub(crate) content_type: ContentType,
    pub(crate) bytes: Vec<u8>,
}

/// Mathematical value of a [`Payload`].
#[verifier::ext_equal]
pub struct PayloadView {
    /// Encoding of the bytes.
    pub content_type: ContentType,
    /// The encoded data.
    pub bytes: Seq<u8>,
}

impl View for Payload {
    type V = PayloadView;

    closed spec fn view(&self) -> PayloadView {
        PayloadView { content_type: self.content_type, bytes: self.bytes@ }
    }
}

/// Copies a byte vector.
pub fn clone_bytes(bytes: &Vec<u8>) -> (copy: Vec<u8>)
    ensures
        copy@ == bytes@,
{
    let copy = bytes.clone();
    assert(copy@ =~= bytes@);
    copy
}

impl Clone for Payload {
    fn clone(&self) -> (copy: Self)
        ensures
            copy@ == self@,
    {
        Payload { content_type: self.content_type, bytes: clone_bytes(&self.bytes) }
    }
}

/// The JSON text that `serde_json::to_vec` writes for an object with string fields.
pub uninterp spec fn json_object_bytes(fields: Seq<(Seq<char>, Seq<char>)>) -> Seq<u8>;

/// Names and values of string fields.
pub open spec fn field_texts(fields: Seq<(String, String)>) -> Seq<(Seq<char>, Seq<char>)> {
    fields.map_values(|field: (String, String)| (field.0@, field.1@))
}

/// The JSON text of an object without fields: an opening and a closing brace.
pub open spec fn empty_object() -> Seq<u8> {
    seq![123u8, 125u8]
}

/// Calls `serde_json::to_vec` on an object with string fields. It only fails for keys that are no
/// strings and for values that refuse to be written, so never here; what it writes depends on the
/// fields alone, and an object without fields is written as two braces.
#[verifier::external_body]
fn json_object(fields: &Vec<(String, String)>) -> (encoded: Result<Vec<u8>, String>)
    ensures
        encoded is Ok,
        encoded->Ok_0@ == json_object_bytes(field_texts(fields@)),
        fields@.len() == 0 ==> encoded->Ok_0@ == empty_object(),
{
    let object: serde_json::Map<String, serde_json::Value> = fields.iter().map(
        |field| (field.0.clone(), serde_json::Value::String(field.1.clone())),
    ).collect();
    serde_json::to_vec(&object).map_err(|error| error.to_string())
}

impl Payload {
    /// A payload of already encoded bytes.
    pub fn new(content_type: ContentType, bytes: Vec<u8>) -> (payload: Self)
        ensures
            payload@ == (PayloadView { content_type, bytes: bytes@ }),
    {
        Payload { content_type, bytes }
    }

    /// The payload that encodes an object with string fields as JSON. A refusal carries the text
    /// of the encoder's error.
    pub fn from_json(fields: &Vec<(String, String)>) -> (payload: Result<Self, String>)
        ensures
            payload matches Ok(p) && p@ == (PayloadView {
                content_type: ContentType::Json,
                bytes: json_object_bytes(field_texts(fields@)),
            }) && (fields@.len() == 0 ==> p@.bytes == empty_object()),
    {
        match json_object(fields) {
            Ok(bytes) => Ok(Payload { content_type: ContentType::Json, bytes }),
            Err(text) => Err(text),
        }
    }

    /// Encoding of the bytes.
    pub fn content_type(&self) -> (content_type: ContentType)
        ensures
            content_type == self@.content_type,
    {
        self.content_type
    }

    /// The encoded data.
    pub fn bytes(&self) -> (bytes: &Vec<u8>)
        ensures
            bytes@ == self@.bytes,
    {
        &self.bytes
    }

    /// Whether two payloads hold the same data.
    pub fn same(&self, other: &Self) -> (same: bool)
        ensures
            same == (self@ == other@),
    {
        if self.bytes.len() != other.bytes.len() {
            return false;
        }
        let mut i: usize = 0;
        while i < self.bytes.len()
            invariant
                i <= self.bytes.len(),
                self.bytes.len() == other.bytes.len(),
                forall|j: int| 0 <= j < i ==> self.bytes@[j] == other.bytes@[j],
            decreases self.bytes.len() - i,
        {
            if self.bytes[i] != other.bytes[i] {
                return false;
            }
            i += 1;
        }
        assert(self.bytes@ =~= other.bytes@);
        self.content_type == other.content_type
    }
}

/// The optional data held by an optional payload.
pub open spec fn optional_payload(payload: Option<Payload>) -> Option<PayloadView> {
    match payload {
        Some(p) => Some(p@),
        None => None,
    }
}

fn clone_optional(payload: &Option<Payload>) -> (copy: Option<Payload>)
    ensures
        optional_payload(copy) == optional_payload(*payload),
{
    match payload {
        Some(p) => Some(p.clone()),
        None => None,
    }
}

fn same_optional(left: &Option<Payload>, right: &Option<Payload>) -> (same: bool)
    ensures
        same == (optional_payload(*left) == optional_payload(*right)),
{
    match (left, right) {
        (Some(a), Some(b)) => a.same(b),
        (None, None) => true,
        _ => false,
    }
}

/// Terminal failure of a workflow.
#[derive(Debug, PartialEq, Eq)]
pub struct WorkflowError {
    /// Human-readable cause.
    pub message: String,
    /// Structured details, if any were reported.
    pub details: Option<Payload>,
}

/// Mathematical value of a [`WorkflowError`].
pub struct WorkflowErrorView {
    /// Human-readable cause.
    pub message: Seq<char>,
    /// Structured details.
    pub details: Option<PayloadView>,
}

impl View for WorkflowError {
    type V = WorkflowErrorView;

    open spec fn view(&self) -> WorkflowErrorView {
        WorkflowErrorView { message: self.message@, details: optional_payload(self.details) }
    }
}

impl Clone for WorkflowError {
    fn clone(&self) -> (copy: Self)
        ensures
            copy@ == self@,
    {
        WorkflowError { message: self.message.clone(), details: clone_optional(&self.details) }
    }
}

impl WorkflowError {
    /// Whether two failures report the same.
    pub fn same(&self, other: &Self) -> (same: bool)
        ensures
            same == (self@ == other@),
    {
        crate::text::same_text(self.message.as_str(), other.message.as_str()) && same_optional(
            &self.details,
            &other.details,
        )
    }
}

/// Whether a failed activity may be tried again.
#[derive(Clone, Copy, Debug, PartialEq, Eq, Structural)]
pub enum ActivityErrorKind {
    /// Another attempt may succeed.
    Retryable,
    /// Further attempts are pointless.
    Terminal,
}

/// Failure reported by an activity attempt.
#[derive(Debug, PartialEq, Eq)]
pub struct ActivityError {
    /// Retry classification.
    pub kind: ActivityErrorKind,
    /// Human-readable cause.
    pub message: String,
    /// Structured details, if any were reported.
    pub details: Option<Payload>,
}

/// Mathematical value of an [`ActivityError`].
pub struct ActivityErrorView {
    /// Retry classification.
    pub kind: ActivityErrorKind,
    /// Human-readable cause.
    pub message: Seq<char>,
    /// Structured details.
    pub details: Option<PayloadView>,
}

impl View for ActivityError {
    type V = ActivityErrorView;

    open spec fn view(&self) -> ActivityErrorView {
        ActivityErrorView {
            kind: self.kind,
            message: self.message@,
            details: optional_payload(self.details),
        }
    }
}

impl Clone for ActivityError {
    fn clone(&self) -> (copy: Self)
        ensures
            copy@ == self@,
    {
        ActivityError {
            kind: self.kind,
            message: self.message.clone(),
            details: clone_optional(&self.details),
        }
    }
}

impl ActivityError {
    /// Whether the attempt may be repeated.
    pub fn is_retryable(&self) -> (retryable: bool)
        ensures
            retryable == (self@.kind == ActivityErrorKind::Retryable),
    {
        match self.kind {
            ActivityErrorKind::Retryable => true,
            ActivityErrorKind::Terminal => false,
        }
    }

    /// Whether two failures report the same.
    pub fn same(&self, other: &Self) -> (same: bool)
        ensures
            same == (self@ == other@),
    {
        self.kind == other.kind && crate::text::same_text(
            self.message.as_str(),
            other.message.as_str(),
        ) && same_optional(&self.details, &other.details)
    }
}

} // verus!
