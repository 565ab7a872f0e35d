//! Typed failures produced by topology tracking operations.

use vstd::prelude::*;

use super::model::{
    compact_text, RefView, SemanticTopologyRef, TopologyKind, TrackingGeneration, TrackingId,
    TrackingSessionId,
};
use crate::decimal::{decimal, push_decimal};

verus! {

/// Typed failures produced by topology tracking operations.
#[derive(Clone, Debug, PartialEq, Eq)]
pub enum TrackingError {
    /// A textual identifier violates its validation rules.
    InvalidIdentifier {
        /// Kind of identifier being validated.
        kind: &'static str,
        /// Rejected value.
        value: String,
        /// Human-readable validation reason.
        reason: &'static str,
    },
    /// A compact [`TrackingId`] string is malformed.
    InvalidTrackingId {
        /// Rejected compact representation.
        value: String,
    },
    /// A runtime identifier belongs to another session.
    WrongSession {
        /// Required session.
        expected: TrackingSessionId,
        /// Identifier's actual session.
        actual: TrackingSessionId,
    },
    /// A runtime identifier belongs to an earlier or later replay generation.
    StaleGeneration {
        /// Current session generation.
        current: TrackingGeneration,
        /// Identifier's actual generation.
        actual: TrackingGeneration,
    },
    /// A runtime identifier was not allocated by the current generation.
    UnknownTrackingId(TrackingId),
    /// A semantic reference has no current-generation binding.
    UnknownSemanticReference(SemanticTopologyRef),
    /// A topological element has not been assigned a runtime identifier.
    UntrackedTopology(TopologyKind),
    /// A semantic reference addresses the wrong topology kind.
    TopologyKindMismatch {
        /// Required topology kind.
        expected: TopologyKind,
        /// Actual topology kind.
        actual: TopologyKind,
    },
    /// A semantic reference already points at a different runtime identifier.
    SemanticReferenceAlreadyBound {
        /// Conflicting semantic reference.
        reference: Box<SemanticTopologyRef>,
        /// Existing runtime identifier.
        existing: Box<TrackingId>,
        /// Requested runtime identifier.
        requested: Box<TrackingId>,
    },
    /// A runtime identifier already has another semantic reference.
    TrackingIdAlreadyBound {
        /// Conflicting runtime identifier.
        tracking_id: Box<TrackingId>,
        /// Existing semantic reference.
        existing: Box<SemanticTopologyRef>,
        /// Requested semantic reference.
        requested: Box<SemanticTopologyRef>,
    },
    /// A lineage event has no child.
    EmptyLineage,
    /// A lineage event repeats a child.
    DuplicateLineageChild,
    /// A deleted lineage event contains a child.
    DeletedLineageHasChildren,
    /// The replay-generation counter is exhausted.
    GenerationOverflow,
    /// The generation-local serial counter is exhausted.
    SerialOverflow,
    /// Serialized session state violates a runtime invariant.
    InvalidSessionState(&'static str),
}


/// The debug name of a topology kind.
pub open spec fn kind_name(k: TopologyKind) -> Seq<char> {
    match k {
        TopologyKind::Vertex => "Vertex"@,
        TopologyKind::Edge => "Edge"@,
        TopologyKind::Face => "Face"@,
    }
}

/// The debug name of a topology kind.
pub fn kind_text(k: TopologyKind) -> (r: &'static str)
    ensures
        r@ == kind_name(k),
{
    match k {
        TopologyKind::Vertex => "Vertex",
        TopologyKind::Edge => "Edge",
        TopologyKind::Face => "Face",
    }
}

/// The text `feature:Kind:label` of a semantic reference.
pub open spec fn ref_text(r: RefView) -> Seq<char> {
    r.feature + ":"@ + kind_name(r.kind) + ":"@ + r.label
}

/// Appends the text of a semantic reference.
fn push_ref(out: &mut String, r: &SemanticTopologyRef)
    ensures
        final(out)@ == old(out)@ + ref_text(r@),
{
    out.append(r.feature().as_str());
    out.append(":");
    out.append(kind_text(r.kind()));
    out.append(":");
    out.append(r.label().as_str());
    assert(final(out)@ =~= old(out)@ + ref_text(r@));
}

/// Appends the compact text of an identifier.
fn push_id(out: &mut String, t: &TrackingId)
    ensures
        final(out)@ == old(out)@ + compact_text(t@),
{
    let text = t.to_compact_string();
    out.append(text.as_str());
}

/// The human-readable message of an error.
pub open spec fn error_message(e: TrackingError) -> Seq<char> {
    match e {
        TrackingError::InvalidIdentifier { kind, value, reason } => "invalid "@ + kind@ + " `"@
            + value@ + "`: "@ + reason@,
        TrackingError::InvalidTrackingId { value } => "invalid tracking ID `"@ + value@ + "`"@,
        TrackingError::WrongSession { expected, actual } => "tracking ID belongs to session `"@
            + actual@ + "`, expected `"@ + expected@ + "`"@,
        TrackingError::StaleGeneration { current, actual } => "tracking ID belongs to generation `"@
            + decimal(actual@ as nat) + "`, current generation is `"@ + decimal(current@ as nat)
            + "`"@,
        TrackingError::UnknownTrackingId(t) => "unknown tracking ID `"@ + compact_text(t@) + "`"@,
        TrackingError::UnknownSemanticReference(r) => "unknown semantic topology reference `"@
            + ref_text(r@) + "`"@,
        TrackingError::UntrackedTopology(k) => "the "@ + kind_name(k) + " topology is not tracked"@,
        TrackingError::TopologyKindMismatch { expected, actual } => "topology kind `"@ + kind_name(
            actual,
        ) + "` does not match expected kind `"@ + kind_name(expected) + "`"@,
        TrackingError::SemanticReferenceAlreadyBound { reference, existing, requested } =>
            "semantic reference `"@ + ref_text(reference@) + "` is bound to `"@ + compact_text(
            existing@,
        ) + "`, not `"@ + compact_text(requested@) + "`"@,
        TrackingError::TrackingIdAlreadyBound { tracking_id, existing, requested } =>
            "tracking ID `"@ + compact_text(tracking_id@) + "` is bound to `"@ + ref_text(
            existing@,
        ) + "`, not `"@ + ref_text(requested@) + "`"@,
        TrackingError::EmptyLineage => "a lineage event must have a child"@,
        TrackingError::DuplicateLineageChild => "a lineage event contains a duplicate child"@,
        TrackingError::DeletedLineageHasChildren => "a deleted lineage event cannot contain a child"@,
        TrackingError::GenerationOverflow => "the tracking generation counter is exhausted"@,
        TrackingError::SerialOverflow => "the tracking serial counter is exhausted"@,
        TrackingError::InvalidSessionState(reason) => "invalid serialized tracking session: "@
            + reason@,
    }
}

impl TrackingError {
    /// The human-readable message of this error.
    pub fn message(&self) -> (r: String)
        ensures
            r@ == error_message(*self),
    {
        let mut out = String::new();
        match self {
            TrackingError::InvalidIdentifier { kind, value, reason } => {
                out.append("invalid ");
                out.append(kind);
                out.append(" `");
                out.append(value.as_str());
                out.append("`: ");
                out.append(reason);
            },
            TrackingError::InvalidTrackingId { value } => {
                out.append("invalid tracking ID `");
                out.append(value.as_str());
                out.append("`");
            },
            TrackingError::WrongSession { expected, actual } => {
                out.append("tracking ID belongs to session `");
                out.append(actual.as_str());
                out.append("`, expected `");
                out.append(expected.as_str());
                out.append("`");
            },
            TrackingError::StaleGeneration { current, actual } => {
                out.append("tracking ID belongs to generation `");
                push_decimal(&mut out, actual.raw());
                out.append("`, current generation is `");
                push_decimal(&mut out, current.raw());
                out.append("`");
            },
            TrackingError::UnknownTrackingId(t) => {
                out.append("unknown tracking ID `");
                push_id(&mut out, t);
                out.append("`");
            },
            TrackingError::UnknownSemanticReference(r) => {
                out.append("unknown semantic topology reference `");
                push_ref(&mut out, r);
                out.append("`");
            },
            TrackingError::UntrackedTopology(k) => {
                out.append("the ");
                out.append(kind_text(*k));
                out.append(" topology is not tracked");
            },
            TrackingError::TopologyKindMismatch { expected, actual } => {
                out.append("topology kind `");
                out.append(kind_text(*actual));
                out.append("` does not match expected kind `");
                out.append(kind_text(*expected));
                out.append("`");
            },
            TrackingError::SemanticReferenceAlreadyBound { reference, existing, requested } => {
                out.append("semantic reference `");
                push_ref(&mut out, reference);
                out.append("` is bound to `");
                push_id(&mut out, existing);
                out.append("`, not `");
                push_id(&mut out, requested);
                out.append("`");
            },
            TrackingError::TrackingIdAlreadyBound { tracking_id, existing, requested } => {
                out.append("tracking ID `");
                push_id(&mut out, tracking_id);
                out.append("` is bound to `");
                push_ref(&mut out, existing);
                out.append("`, not `");
                push_ref(&mut out, requested);
                out.append("`");
            },
            TrackingError::EmptyLineage => {
                out.append("a lineage event must have a child");
            },
            TrackingError::DuplicateLineageChild => {
                out.append("a lineage event contains a duplicate child");
            },
            TrackingError::DeletedLineageHasChildren => {
                out.append("a deleted lineage event cannot contain a child");
            },
            TrackingError::GenerationOverflow => {
                out.append("the tracking generation counter is exhausted");
            },
            TrackingError::SerialOverflow => {
                out.append("the tracking serial counter is exhausted");
            },
            TrackingError::InvalidSessionState(reason) => {
                out.append("invalid serialized tracking session: ");
                out.append(reason);
            },
        }
        assert(out@ =~= error_message(*self));
        out
    }
}

} // verus!
