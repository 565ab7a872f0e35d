//! Identifier and record types of topology tracking.

use vstd::prelude::*;
use vstd::string::*;

use super::error::TrackingError;
use crate::decimal::{
    all_digits, decimal, is_digit, lemma_decimal_spells, lemma_parse_decimal, parse_u64,
    parse_u64_spec, push_decimal,
};
use crate::text::{
    check_text, compare_text, contains_char, has_char, issue_reason, lemma_text_lt_irreflexive,
    lemma_text_lt_transitive, lemma_text_lt_trichotomy, reason_text, text_issue, text_lt,
    Precedence, TextIssue,
};

verus! {

// ---------------------------------------------------------------------------
// Validated text identifiers
// ---------------------------------------------------------------------------

/// Kind name reported for an invalid feature identifier.
pub const FEATURE_ID_KIND: &'static str = "feature identifier";

/// Kind name reported for an invalid semantic label.
pub const SEMANTIC_LABEL_KIND: &'static str = "semantic topology label";

/// Kind name reported for an invalid tracking-session identifier.
pub const SESSION_ID_KIND: &'static str = "tracking session identifier";

/// Reason reported for a session identifier holding `@` or `:`.
pub const RESERVED_SEPARATOR_REASON: &'static str = "`@` and `:` are reserved separators";

/// Whether `e` reports that `value` is not a valid identifier of `kind`
/// because of `reason`.
pub open spec fn is_invalid_identifier(
    e: TrackingError,
    kind: &str,
    value: Seq<char>,
    reason: &str,
) -> bool {
    match e {
        TrackingError::InvalidIdentifier { kind: k, value: v, reason: r } => {
            k@ == kind@ && v@ == value && r@ == reason@
        },
        _ => false,
    }
}

/// The error that plain identifier validation reports for `value`.
fn invalid_text(kind: &'static str, value: &str, issue: TextIssue) -> (e: TrackingError)
    ensures
        is_invalid_identifier(e, kind, value@, issue_reason(issue)),
{
    TrackingError::InvalidIdentifier { kind, value: value.to_owned(), reason: reason_text(issue) }
}

/// Validated feature identifier.
#[derive(Debug, Hash, PartialEq, Eq, PartialOrd, Ord)]
pub struct FeatureId(String);

impl FeatureId {
    #[verifier::type_invariant]
    spec fn valid(self) -> bool {
        text_issue(self.0@) is None
    }

    /// Creates a validated feature identifier.
    ///
    /// Fails with [`TrackingError::InvalidIdentifier`] when `value` is empty,
    /// contains control characters, or has leading or trailing whitespace.
    pub fn new(value: &str) -> (r: Result<Self, TrackingError>)
        ensures
            match text_issue(value@) {
                None => r is Ok && r->Ok_0@ == value@,
                Some(issue) => r is Err && is_invalid_identifier(
                    r->Err_0,
                    FEATURE_ID_KIND,
                    value@,
                    issue_reason(issue),
                ),
            },
    {
        match check_text(value) {
            Some(issue) => Err(invalid_text(FEATURE_ID_KIND, value, issue)),
            None => Ok(FeatureId(value.to_owned())),
        }
    }

    /// Returns this feature identifier as a string slice.
    pub fn as_str(&self) -> (s: &str)
        ensures
            s@ == self@,
            text_issue(self@) is None,
    {
        proof {
            use_type_invariant(self);
        }
        self.0.as_str()
    }

}

impl View for FeatureId {
    type V = Seq<char>;

    closed spec fn view(&self) -> Seq<char> {
        self.0@
    }
}

impl Clone for FeatureId {
    fn clone(&self) -> (r: Self)
        ensures
            r == *self,
    {
        proof {
            use_type_invariant(self);
        }
        FeatureId(self.0.clone())
    }
}

/// Validated semantic topology label.
#[derive(Debug, Hash, PartialEq, Eq, PartialOrd, Ord)]
pub struct SemanticLabel(String);

impl SemanticLabel {
    #[verifier::type_invariant]
    spec fn valid(self) -> bool {
        text_issue(self.0@) is None
    }

    /// Creates a validated semantic topology label.
    ///
    /// Fails with [`TrackingError::InvalidIdentifier`] when `value` is empty,
    /// contains control characters, or has leading or trailing whitespace.
    pub fn new(value: &str) -> (r: Result<Self, TrackingError>)
        ensures
            match text_issue(value@) {
                None => r is Ok && r->Ok_0@ == value@,
                Some(issue) => r is Err && is_invalid_identifier(
                    r->Err_0,
                    SEMANTIC_LABEL_KIND,
                    value@,
                    issue_reason(issue),
                ),
            },
    {
        match check_text(value) {
            Some(issue) => Err(invalid_text(SEMANTIC_LABEL_KIND, value, issue)),
            None => Ok(SemanticLabel(value.to_owned())),
        }
    }

    /// Returns this semantic label as a string slice.
    pub fn as_str(&self) -> (s: &str)
        ensures
            s@ == self@,
            text_issue(self@) is None,
    {
        proof {
            use_type_invariant(self);
        }
        self.0.as_str()
    }

}

impl View for SemanticLabel {
    type V = Seq<char>;

    closed spec fn view(&self) -> Seq<char> {
        self.0@
    }
}

impl Clone for SemanticLabel {
    fn clone(&self) -> (r: Self)
        ensures
            r == *self,
    {
        proof {
            use_type_invariant(self);
        }
        SemanticLabel(self.0.clone())
    }
}

/// Whether `s` is acceptable as a tracking-session identifier: a valid
/// identifier without the separators `@` and `:` of the compact form.
pub open spec fn valid_session_text(s: Seq<char>) -> bool {
    text_issue(s) is None && !has_char(s, '@') && !has_char(s, ':')
}

/// Whether `e` is the error that `TrackingSessionId::new` reports for `value`.
pub open spec fn session_id_error(e: TrackingError, value: Seq<char>) -> bool {
    match text_issue(value) {
        Some(issue) => is_invalid_identifier(e, SESSION_ID_KIND, value, issue_reason(issue)),
        None => is_invalid_identifier(e, SESSION_ID_KIND, value, RESERVED_SEPARATOR_REASON),
    }
}

/// Validated identifier for one live tracking session.
///
/// The characters `@` and `:` are reserved by [`TrackingId`]'s compact
/// representation.
#[derive(Debug, Hash, PartialEq, Eq, PartialOrd, Ord)]
pub struct TrackingSessionId(String);

impl TrackingSessionId {
    #[verifier::type_invariant]
    spec fn valid(self) -> bool {
        valid_session_text(self.0@)
    }

    /// Creates a validated tracking-session identifier.
    ///
    /// Fails with [`TrackingError::InvalidIdentifier`] when `value` is empty,
    /// contains reserved or control characters, or has leading or trailing
    /// whitespace.
    pub fn new(value: &str) -> (r: Result<Self, TrackingError>)
        ensures
            valid_session_text(value@) ==> r is Ok && r->Ok_0@ == value@,
            !valid_session_text(value@) ==> r is Err && session_id_error(r->Err_0, value@),
    {
        match check_text(value) {
            Some(issue) => Err(invalid_text(SESSION_ID_KIND, value, issue)),
            None => {
                if contains_char(value, '@') || contains_char(value, ':') {
                    Err(
                        TrackingError::InvalidIdentifier {
                            kind: SESSION_ID_KIND,
                            value: value.to_owned(),
                            reason: RESERVED_SEPARATOR_REASON,
                        },
                    )
                } else {
                    Ok(TrackingSessionId(value.to_owned()))
                }
            },
        }
    }

    /// Returns this tracking-session identifier as a string slice.
    pub fn as_str(&self) -> (s: &str)
        ensures
            s@ == self@,
            valid_session_text(self@),
    {
        proof {
            use_type_invariant(self);
        }
        self.0.as_str()
    }

}

impl View for TrackingSessionId {
    type V = Seq<char>;

    closed spec fn view(&self) -> Seq<char> {
        self.0@
    }
}

impl Clone for TrackingSessionId {
    fn clone(&self) -> (r: Self)
        ensures
            r == *self,
    {
        proof {
            use_type_invariant(self);
        }
        TrackingSessionId(self.0.clone())
    }
}

// ---------------------------------------------------------------------------
// Semantic references
// ---------------------------------------------------------------------------

/// Kind of topological element addressed by a [`SemanticTopologyRef`].
#[derive(Clone, Copy, Debug, Hash, PartialEq, Eq, PartialOrd, Ord, Structural)]
pub enum TopologyKind {
    /// A topological vertex.
    Vertex,
    /// A topological edge.
    Edge,
    /// A topological face.
    Face,
}

/// Position of a topology kind in declaration order.
pub open spec fn kind_rank(k: TopologyKind) -> int {
    match k {
        TopologyKind::Vertex => 0,
        TopologyKind::Edge => 1,
        TopologyKind::Face => 2,
    }
}

/// Position of a topology kind in declaration order.
pub fn kind_position(k: TopologyKind) -> (r: u8)
    ensures
        r == kind_rank(k),
{
    match k {
        TopologyKind::Vertex => 0,
        TopologyKind::Edge => 1,
        TopologyKind::Face => 2,
    }
}

/// Mathematical value of a [`SemanticTopologyRef`].
pub struct RefView {
    pub feature: Seq<char>,
    pub kind: TopologyKind,
    pub label: Seq<char>,
}

/// Persistent semantic address of a topology element in a feature result.
#[derive(Debug, Hash, PartialEq, Eq, PartialOrd, Ord)]
pub struct SemanticTopologyRef {
    pub(crate) feature: FeatureId,
    pub(crate) kind: TopologyKind,
    pub(crate) label: SemanticLabel,
}

impl View for SemanticTopologyRef {
    type V = RefView;

    closed spec fn view(&self) -> RefView {
        RefView { feature: self.feature@, kind: self.kind, label: self.label@ }
    }
}

impl Clone for SemanticTopologyRef {
    fn clone(&self) -> (r: Self)
        ensures
            r == *self,
    {
        SemanticTopologyRef {
            feature: self.feature.clone(),
            kind: self.kind,
            label: self.label.clone(),
        }
    }
}

impl SemanticTopologyRef {
    /// Creates a semantic topology reference.
    pub fn new(feature: FeatureId, kind: TopologyKind, label: SemanticLabel) -> (r: Self)
        ensures
            r@ == (RefView { feature: feature@, kind, label: label@ }),
    {
        Self { feature, kind, label }
    }

    /// Returns the feature that owns the topology result.
    pub fn feature(&self) -> (r: &FeatureId)
        ensures
            r@ == self@.feature,
    {
        &self.feature
    }

    /// Returns the addressed topology kind.
    pub fn kind(&self) -> (r: TopologyKind)
        ensures
            r == self@.kind,
    {
        self.kind
    }

    /// Returns the semantic label within the feature result.
    pub fn label(&self) -> (r: &SemanticLabel)
        ensures
            r@ == self@.label,
    {
        &self.label
    }
}

/// Canonical strict order of semantic references: feature, then kind, then
/// label, as the derived `Ord` orders them.
pub open spec fn ref_lt(a: RefView, b: RefView) -> bool {
    ||| text_lt(a.feature, b.feature)
    ||| a.feature == b.feature && kind_rank(a.kind) < kind_rank(b.kind)
    ||| a.feature == b.feature && a.kind == b.kind && text_lt(a.label, b.label)
}

/// The reference order is a strict total order.
pub proof fn lemma_ref_order(a: RefView, b: RefView, c: RefView)
    ensures
        !ref_lt(a, a),
        a != b ==> (ref_lt(a, b) || ref_lt(b, a)),
        !(ref_lt(a, b) && ref_lt(b, a)),
        ref_lt(a, b) && ref_lt(b, c) ==> ref_lt(a, c),
{
    lemma_text_lt_irreflexive(a.feature);
    lemma_text_lt_irreflexive(a.label);
    lemma_text_lt_trichotomy(a.feature, b.feature);
    lemma_text_lt_trichotomy(a.label, b.label);
    if ref_lt(a, b) && ref_lt(b, c) {
        if text_lt(a.feature, b.feature) && text_lt(b.feature, c.feature) {
            lemma_text_lt_transitive(a.feature, b.feature, c.feature);
        }
        if text_lt(a.label, b.label) && text_lt(b.label, c.label) {
            lemma_text_lt_transitive(a.label, b.label, c.label);
        }
    }
    if a != b && a.feature == b.feature && a.kind == b.kind && a.label == b.label {
        assert(a == b);
    }
}

/// Compares two semantic references in their canonical order.
pub fn compare_refs(a: &SemanticTopologyRef, b: &SemanticTopologyRef) -> (p: Precedence)
    ensures
        p == Precedence::Same <==> a@ == b@,
        p == Precedence::Before <==> ref_lt(a@, b@),
        p == Precedence::After <==> ref_lt(b@, a@),
{
    proof {
        lemma_ref_order(a@, b@, a@);
    }
    match compare_text(a.feature.as_str(), b.feature.as_str()) {
        Precedence::Same => {
            let ka = kind_position(a.kind);
            let kb = kind_position(b.kind);
            if ka < kb {
                Precedence::Before
            } else if ka > kb {
                Precedence::After
            } else {
                match compare_text(a.label.as_str(), b.label.as_str()) {
                    Precedence::Same => {
                        assert(a@ == b@);
                        Precedence::Same
                    },
                    p => p,
                }
            }
        },
        p => p,
    }
}

// ---------------------------------------------------------------------------
// Runtime identifiers
// ---------------------------------------------------------------------------

/// Replay generation within a tracking session.
#[derive(Clone, Copy, Debug, Default, Hash, PartialEq, Eq, PartialOrd, Ord, Structural)]
pub struct TrackingGeneration(pub(crate) u64);

impl View for TrackingGeneration {
    type V = u64;

    closed spec fn view(&self) -> u64 {
        self.0
    }
}

impl TrackingGeneration {
    /// The initial replay generation, zero.
    pub fn initial() -> (r: Self)
        ensures
            r@ == 0,
    {
        Self(0)
    }

    /// Creates a generation from its numeric value.
    pub fn new(value: u64) -> (r: Self)
        ensures
            r@ == value,
    {
        Self(value)
    }

    /// Returns the numeric generation.
    pub fn raw(self) -> (r: u64)
        ensures
            r == self@,
    {
        self.0
    }

    /// The following generation, or [`TrackingError::GenerationOverflow`]
    /// when the counter is exhausted.
    pub(crate) fn next(self) -> (r: Result<Self, TrackingError>)
        ensures
            self@ < u64::MAX ==> r is Ok && r->Ok_0@ == self@ + 1,
            self@ == u64::MAX ==> r matches Err(TrackingError::GenerationOverflow),
    {
        match self.0.checked_add(1) {
            Some(v) => Ok(TrackingGeneration(v)),
            None => Err(TrackingError::GenerationOverflow),
        }
    }
}

/// Mathematical value of a [`TrackingId`].
pub struct IdView {
    pub session: Seq<char>,
    pub generation: u64,
    pub serial: u64,
}

/// Immutable runtime topology identifier.
///
/// Identity is qualified by session, replay generation, and a session-wide
/// serial shared by vertices, edges, and faces.
#[derive(Debug, Hash, PartialEq, Eq, PartialOrd, Ord)]
pub struct TrackingId {
    pub(crate) session: TrackingSessionId,
    pub(crate) generation: TrackingGeneration,
    pub(crate) serial: u64,
}

impl View for TrackingId {
    type V = IdView;

    closed spec fn view(&self) -> IdView {
        IdView { session: self.session@, generation: self.generation@, serial: self.serial }
    }
}

impl Clone for TrackingId {
    fn clone(&self) -> (r: Self)
        ensures
            r == *self,
    {
        TrackingId {
            session: self.session.clone(),
            generation: self.generation,
            serial: self.serial,
        }
    }
}

/// The views of a sequence of identifiers.
pub open spec fn ids_view(s: Seq<TrackingId>) -> Seq<IdView> {
    s.map_values(|t: TrackingId| t@)
}

/// The compact text `session@generation:serial` of an identifier.
pub open spec fn compact_text(t: IdView) -> Seq<char> {
    t.session + seq!['@'] + decimal(t.generation as nat) + seq![':'] + decimal(t.serial as nat)
}

impl TrackingId {
    pub(crate) fn new(session: TrackingSessionId, generation: TrackingGeneration, serial: u64) -> (r:
        Self)
        ensures
            r@ == (IdView { session: session@, generation: generation@, serial }),
    {
        Self { session, generation, serial }
    }

    /// Returns the owning tracking session.
    pub fn session(&self) -> (r: &TrackingSessionId)
        ensures
            r@ == self@.session,
    {
        &self.session
    }

    /// Returns the replay generation in which this identifier was allocated.
    pub fn generation(&self) -> (r: TrackingGeneration)
        ensures
            r@ == self@.generation,
    {
        self.generation
    }

    /// Returns the generation-local monotonic serial.
    pub fn serial(&self) -> (r: u64)
        ensures
            r == self@.serial,
    {
        self.serial
    }

    /// Writes the compact text `session@generation:serial`, the form that
    /// identifiers take when serialized.
    pub fn to_compact_string(&self) -> (r: String)
        ensures
            r@ == compact_text(self@),
    {
        let mut out = String::new();
        out.append(self.session.as_str());
        out.append("@");
        push_decimal(&mut out, self.generation.0);
        out.append(":");
        push_decimal(&mut out, self.serial);
        proof {
            reveal_strlit("@");
            reveal_strlit(":");
            assert(out@ =~= compact_text(self@));
        }
        out
    }
}

/// The index of the first `c` in `s`.
pub open spec fn first_index_of(s: Seq<char>, c: char) -> int {
    choose|i: int| 0 <= i < s.len() && s[i] == c && forall|j: int| 0 <= j < i ==> #[trigger] s[j] != c
}

/// `s` split around its first `c`, as `str::split_once` splits it.
pub open spec fn split_once(s: Seq<char>, c: char) -> Option<(Seq<char>, Seq<char>)> {
    if has_char(s, c) {
        let i = first_index_of(s, c);
        Some((s.take(i), s.skip(i + 1)))
    } else {
        None
    }
}

/// The identifier that the compact text `s` describes: a valid session
/// identifier, `@`, a generation, `:` and a non-zero serial.
pub open spec fn parse_id_spec(s: Seq<char>) -> Option<IdView> {
    match split_once(s, '@') {
        None => None,
        Some((session, suffix)) => match split_once(suffix, ':') {
            None => None,
            Some((generation, serial)) => {
                if valid_session_text(session) && parse_u64_spec(generation) is Some
                    && parse_u64_spec(serial) is Some && parse_u64_spec(serial)->0 != 0 {
                    Some(
                        IdView {
                            session,
                            generation: parse_u64_spec(generation)->0,
                            serial: parse_u64_spec(serial)->0,
                        },
                    )
                } else {
                    None
                }
            },
        },
    }
}

/// Whether `e` is the error that reading the compact text `s` reports: an
/// invalid session part is reported as such, any other defect as an invalid
/// tracking identifier.
pub open spec fn parse_id_error(e: TrackingError, s: Seq<char>) -> bool {
    let invalid = e matches TrackingError::InvalidTrackingId { value } && value@ == s;
    match split_once(s, '@') {
        Some((session, suffix)) => if split_once(suffix, ':') is Some && !valid_session_text(
            session,
        ) {
            session_id_error(e, session)
        } else {
            invalid
        },
        None => invalid,
    }
}

/// The first `c` of `a + [c] + b` is at `a.len()` when `a` holds no `c`.
pub proof fn lemma_split_once_at(a: Seq<char>, c: char, b: Seq<char>)
    requires
        !has_char(a, c),
    ensures
        split_once(a + seq![c] + b, c) == Some((a, b)),
{
    let s = a + seq![c] + b;
    assert(s[a.len() as int] == c);
    assert(has_char(s, c));
    let i = first_index_of(s, c);
    assert forall|j: int| 0 <= j < a.len() implies #[trigger] s[j] != c by {
        assert(s[j] == a[j]);
    }
    assert(i == a.len()) by {
        if i < a.len() {
            assert(s[i] == a[i]);
        } else if i > a.len() {
            assert(s[a.len() as int] != c);
        }
    }
    assert(s.take(i) =~= a);
    assert(s.skip(i + 1) =~= b);
}

/// A digit string holds no separator.
proof fn lemma_digits_have_no(s: Seq<char>, c: char)
    requires
        all_digits(s),
        !is_digit(c),
    ensures
        !has_char(s, c),
{
    assert forall|i: int| 0 <= i < s.len() implies s[i] != c by {
        assert(is_digit(s[i]));
    }
}

/// Reading back the compact text of an identifier gives the identifier.
pub proof fn law_compact_text_round_trips(t: IdView)
    requires
        valid_session_text(t.session),
        t.serial != 0,
    ensures
        parse_id_spec(compact_text(t)) == Some(t),
{
    let g = decimal(t.generation as nat);
    let r = decimal(t.serial as nat);
    lemma_decimal_spells(t.generation as nat);
    lemma_decimal_spells(t.serial as nat);
    lemma_digits_have_no(g, ':');
    lemma_parse_decimal(t.generation);
    lemma_parse_decimal(t.serial);
    let suffix = g + seq![':'] + r;
    assert(compact_text(t) =~= t.session + seq!['@'] + suffix);
    lemma_split_once_at(t.session, '@', suffix);
    lemma_split_once_at(g, ':', r);
}

/// Reads `value` up to its first `c`, and the rest after it.
fn split_at_first<'a>(value: &'a str, c: char) -> (r: Option<(&'a str, &'a str)>)
    ensures
        match split_once(value@, c) {
            None => r is None,
            Some((a, b)) => r matches Some((x, y)) && x@ == a && y@ == b,
        },
{
    let n = value.unicode_len();
    let mut i: usize = 0;
    while i < n
        invariant
            n == value@.len(),
            i <= n,
            forall|j: int| 0 <= j < i ==> #[trigger] value@[j] != c,
        decreases n - i,
    {
        if value.get_char(i) == c {
            proof {
                let k = first_index_of(value@, c);
                assert(has_char(value@, c));
                assert(k == i) by {
                    if k < i {
                        assert(value@[k] != c);
                    } else if k > i {
                        assert(value@[i as int] != c);
                    }
                }
            }
            return Some((value.substring_char(0, i), value.substring_char(i + 1, n)));
        }
        i = i + 1;
    }
    None
}

impl TrackingId {
    /// Reads the compact text `session@generation:serial`.
    ///
    /// Fails with the session identifier's own error when the session part
    /// is invalid, and with [`TrackingError::InvalidTrackingId`] when a
    /// separator is missing, a number does not read as a `u64`, or the serial
    /// is zero.
    pub fn parse(value: &str) -> (r: Result<TrackingId, TrackingError>)
        ensures
            parse_id_spec(value@) is Some ==> r is Ok && r->Ok_0@ == parse_id_spec(value@)->0,
            parse_id_spec(value@) is None ==> r is Err && parse_id_error(r->Err_0, value@),
    {
        let (session, suffix) = match split_at_first(value, '@') {
            Some(parts) => parts,
            None => {
                return Err(TrackingError::InvalidTrackingId { value: value.to_owned() });
            },
        };
        let (generation, serial) = match split_at_first(suffix, ':') {
            Some(parts) => parts,
            None => {
                return Err(TrackingError::InvalidTrackingId { value: value.to_owned() });
            },
        };
        let session = TrackingSessionId::new(session)?;
        let generation = match parse_u64(generation) {
            Some(g) => g,
            None => {
                return Err(TrackingError::InvalidTrackingId { value: value.to_owned() });
            },
        };
        let serial = match parse_u64(serial) {
            Some(s) => s,
            None => {
                return Err(TrackingError::InvalidTrackingId { value: value.to_owned() });
            },
        };
        if serial == 0 {
            Err(TrackingError::InvalidTrackingId { value: value.to_owned() })
        } else {
            Ok(TrackingId::new(session, TrackingGeneration(generation), serial))
        }
    }
}

impl std::str::FromStr for TrackingId {
    type Err = TrackingError;

    /// Reads the compact text, as [`TrackingId::parse`] does.
    fn from_str(value: &str) -> (r: Result<TrackingId, TrackingError>)
        ensures
            parse_id_spec(value@) is Some ==> r is Ok && r->Ok_0@ == parse_id_spec(value@)->0,
            parse_id_spec(value@) is None ==> r is Err && parse_id_error(r->Err_0, value@),
    {
        TrackingId::parse(value)
    }
}

/// Whether two identifiers are equal.
pub fn same_id(a: &TrackingId, b: &TrackingId) -> (r: bool)
    ensures
        r == (a@ == b@),
{
    if a.serial != b.serial || a.generation.0 != b.generation.0 {
        return false;
    }
    match compare_text(a.session.as_str(), b.session.as_str()) {
        Precedence::Same => true,
        _ => false,
    }
}

/// Canonical strict order of identifiers: session, then generation, then
/// serial, as the derived `Ord` orders them.
pub open spec fn id_lt(a: IdView, b: IdView) -> bool {
    ||| text_lt(a.session, b.session)
    ||| a.session == b.session && a.generation < b.generation
    ||| a.session == b.session && a.generation == b.generation && a.serial < b.serial
}

/// The identifier order is a strict total order.
pub proof fn lemma_id_order(a: IdView, b: IdView, c: IdView)
    ensures
        !id_lt(a, a),
        a != b ==> (id_lt(a, b) || id_lt(b, a)),
        !(id_lt(a, b) && id_lt(b, a)),
        id_lt(a, b) && id_lt(b, c) ==> id_lt(a, c),
{
    lemma_text_lt_irreflexive(a.session);
    lemma_text_lt_trichotomy(a.session, b.session);
    if id_lt(a, b) && id_lt(b, c) {
        if text_lt(a.session, b.session) && text_lt(b.session, c.session) {
            lemma_text_lt_transitive(a.session, b.session, c.session);
        }
    }
}

/// Compares two identifiers in their canonical order.
pub fn compare_ids(a: &TrackingId, b: &TrackingId) -> (p: Precedence)
    ensures
        p == Precedence::Same <==> a@ == b@,
        p == Precedence::Before <==> id_lt(a@, b@),
        p == Precedence::After <==> id_lt(b@, a@),
{
    proof {
        lemma_id_order(a@, b@, a@);
    }
    match compare_text(a.session.as_str(), b.session.as_str()) {
        Precedence::Same => {
            if a.generation.0 < b.generation.0 {
                Precedence::Before
            } else if a.generation.0 > b.generation.0 {
                Precedence::After
            } else if a.serial < b.serial {
                Precedence::Before
            } else if a.serial > b.serial {
                Precedence::After
            } else {
                Precedence::Same
            }
        },
        p => p,
    }
}


// ---------------------------------------------------------------------------
// Lineage and bindings
// ---------------------------------------------------------------------------

/// Topology operation that created a lineage event.
#[derive(Clone, Copy, Debug, Hash, PartialEq, Eq, PartialOrd, Ord, Structural)]
pub enum OperationKind {
    /// A geometric mapping.
    Mapping,
    /// A rotation.
    Rotate,
    /// A generic sweep.
    Sweep,
    /// A linear extrusion.
    Extrude,
    /// A rotational sweep.
    Revolve,
    /// A cut operation.
    Cut,
    /// A topology split.
    Split,
    /// A topology clone.
    Clone,
    /// A translation.
    Translate,
    /// A non-uniform scale.
    Scale,
    /// A Boolean intersection.
    BooleanIntersection,
    /// A Boolean union.
    BooleanUnion,
    /// A Boolean difference.
    BooleanDifference,
    /// A Boolean symmetric difference.
    BooleanSymmetricDifference,
    /// An edge fillet.
    Fillet,
}

/// Relationship between a lineage parent and its children.
#[derive(Clone, Copy, Debug, Hash, PartialEq, Eq, PartialOrd, Ord, Structural)]
pub enum LineageRelation {
    /// The semantic element was preserved by the operation.
    Preserved,
    /// The operation generated the children from the parent.
    Generated,
    /// The operation split the parent into multiple children.
    Split,
    /// The operation removed the parent without a surviving descendant.
    Deleted,
}

/// Mathematical value of a [`LineageEvent`].
pub struct EventView {
    pub operation: OperationKind,
    pub relation: LineageRelation,
    pub parent: IdView,
    pub children: Seq<IdView>,
}

/// One parent-to-children topology lineage event.
#[derive(Debug, Hash, PartialEq, Eq)]
pub struct LineageEvent {
    pub(crate) operation: OperationKind,
    pub(crate) relation: LineageRelation,
    pub(crate) parent: TrackingId,
    pub(crate) children: Vec<TrackingId>,
}

impl View for LineageEvent {
    type V = EventView;

    closed spec fn view(&self) -> EventView {
        EventView {
            operation: self.operation,
            relation: self.relation,
            parent: self.parent@,
            children: ids_view(self.children@),
        }
    }
}

/// Copies a list of identifiers.
pub fn copy_ids(v: &Vec<TrackingId>) -> (r: Vec<TrackingId>)
    ensures
        r@ == v@,
{
    let mut r: Vec<TrackingId> = Vec::new();
    let mut i: usize = 0;
    while i < v.len()
        invariant
            i <= v.len(),
            r@ == v@.take(i as int),
        decreases v.len() - i,
    {
        r.push(v[i].clone());
        assert(r@ =~= v@.take(i + 1));
        i = i + 1;
    }
    assert(v@.take(v.len() as int) =~= v@);
    r
}

impl Clone for LineageEvent {
    fn clone(&self) -> (r: Self)
        ensures
            r@ == self@,
    {
        let children = copy_ids(&self.children);
        assert(children@ =~= self.children@);
        LineageEvent {
            operation: self.operation,
            relation: self.relation,
            parent: self.parent.clone(),
            children,
        }
    }
}

impl LineageEvent {
    /// Builds a lineage event, as a restored session holds it;
    /// [`TrackingSession::from_parts`](crate::tracking::session::TrackingSession::from_parts)
    /// checks it against its session.
    pub fn new(
        operation: OperationKind,
        relation: LineageRelation,
        parent: TrackingId,
        children: Vec<TrackingId>,
    ) -> (r: Self)
        ensures
            r@ == (EventView {
                operation,
                relation,
                parent: parent@,
                children: ids_view(children@),
            }),
    {
        Self { operation, relation, parent, children }
    }

    /// Returns the operation that produced this event.
    pub fn operation(&self) -> (r: OperationKind)
        ensures
            r == self@.operation,
    {
        self.operation
    }

    /// Returns the parent-to-child relationship.
    pub fn relation(&self) -> (r: LineageRelation)
        ensures
            r == self@.relation,
    {
        self.relation
    }

    /// Returns the parent identifier.
    pub fn parent(&self) -> (r: &TrackingId)
        ensures
            r@ == self@.parent,
    {
        &self.parent
    }

    /// Returns the child identifiers in deterministic operation order.
    pub fn children(&self) -> (r: &[TrackingId])
        ensures
            ids_view(r@) == self@.children,
    {
        self.children.as_slice()
    }
}

/// Mathematical value of a [`SemanticBinding`].
pub struct BindingView {
    pub reference: RefView,
    pub tracking_id: IdView,
}

/// Current-generation binding from a semantic reference to a runtime identifier.
#[derive(Debug, Hash, PartialEq, Eq)]
pub struct SemanticBinding {
    pub(crate) reference: SemanticTopologyRef,
    pub(crate) tracking_id: TrackingId,
}

impl View for SemanticBinding {
    type V = BindingView;

    closed spec fn view(&self) -> BindingView {
        BindingView { reference: self.reference@, tracking_id: self.tracking_id@ }
    }
}

impl Clone for SemanticBinding {
    fn clone(&self) -> (r: Self)
        ensures
            r == *self,
    {
        SemanticBinding { reference: self.reference.clone(), tracking_id: self.tracking_id.clone() }
    }
}

impl SemanticBinding {
    /// Builds a binding, as a restored session holds it;
    /// [`TrackingSession::from_parts`](crate::tracking::session::TrackingSession::from_parts)
    /// checks it against its session.
    pub fn new(reference: SemanticTopologyRef, tracking_id: TrackingId) -> (r: Self)
        ensures
            r@ == (BindingView { reference: reference@, tracking_id: tracking_id@ }),
    {
        Self { reference, tracking_id }
    }

    /// Returns the persistent semantic reference.
    pub fn reference(&self) -> (r: &SemanticTopologyRef)
        ensures
            r@ == self@.reference,
    {
        &self.reference
    }

    /// Returns the current runtime identifier.
    pub fn tracking_id(&self) -> (r: &TrackingId)
        ensures
            r@ == self@.tracking_id,
    {
        &self.tracking_id
    }
}

} // verus!
