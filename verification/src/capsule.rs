//! The compact form in which a composed message is shown in navigation.

use vstd::prelude::*;

use crate::json::{item_models, lemma_json_model, JsonModel, JsonValue, NumberModel};
use crate::text::{bounded_display_text, first_chars, same_text};
use crate::turn::{copy_text_option, same_text_option, text_option, DialogTurnData};

verus! {

pub const TURN_RAIL_CAPSULE_MAX_SEGMENTS: usize = 64;

pub const TURN_RAIL_CAPSULE_TEXT_LIMIT: usize = 320;

pub const TURN_RAIL_CAPSULE_LABEL_LIMIT: usize = 160;

pub const TURN_RAIL_CAPSULE_TITLE_LIMIT: usize = 320;

pub const TURN_RAIL_CAPSULE_TYPE_LIMIT: usize = 40;

/// One piece of a capsule preview.
#[derive(Debug)]
pub enum TurnRailCapsuleSegment {
    Text { text: String },
    Context { context_type: String, label: String, title: Option<String> },
    InlineToken { token_type: String, label: String },
}

/// What is shown of a composed message.
#[derive(Debug)]
pub struct TurnRailCapsulePreview {
    pub segments: Vec<TurnRailCapsuleSegment>,
}

/// What a [`TurnRailCapsuleSegment`] holds.
pub enum SegmentModel {
    Text { text: Seq<char> },
    Context { context_type: Seq<char>, label: Seq<char>, title: Option<Seq<char>> },
    InlineToken { token_type: Seq<char>, label: Seq<char> },
}

impl View for TurnRailCapsuleSegment {
    type V = SegmentModel;

    open spec fn view(&self) -> SegmentModel {
        match self {
            TurnRailCapsuleSegment::Text { text } => SegmentModel::Text { text: text@ },
            TurnRailCapsuleSegment::Context {
                context_type,
                label,
                title,
            } => SegmentModel::Context {
                context_type: context_type@,
                label: label@,
                title: text_option(*title),
            },
            TurnRailCapsuleSegment::InlineToken { token_type, label } => SegmentModel::InlineToken {
                token_type: token_type@,
                label: label@,
            },
        }
    }
}

impl View for TurnRailCapsulePreview {
    type V = Seq<SegmentModel>;

    open spec fn view(&self) -> Seq<SegmentModel> {
        Seq::new(self.segments@.len(), |i: int| self.segments@[i]@)
    }
}

/// The model of an optional capsule preview.
pub open spec fn capsule_option(o: Option<TurnRailCapsulePreview>) -> Option<Seq<SegmentModel>> {
    match o {
        Some(p) => Some(p@),
        None => None,
    }
}

/// The text member of an object.
pub open spec fn text_member(v: JsonModel, key: Seq<char>) -> Option<Seq<char>> {
    match JsonValue::member_model(v, key) {
        Some(m) => JsonValue::text_model(m),
        None => None,
    }
}

/// How one recorded segment is shown.
pub enum SegmentReading {
    /// The segment is not understood.
    Malformed,
    /// The segment is understood and shows nothing.
    Nothing,
    /// The segment is shown.
    Shown(SegmentModel),
}

/// How a recorded segment is shown.
pub open spec fn segment_reading(raw: JsonModel) -> SegmentReading {
    let kind = text_member(raw, "kind"@);
    if kind == Some("text"@) {
        match text_member(raw, "text"@) {
            None => SegmentReading::Malformed,
            Some(text) => if text.len() == 0 {
                SegmentReading::Nothing
            } else {
                SegmentReading::Shown(
                    SegmentModel::Text {
                        text: first_chars(text, TURN_RAIL_CAPSULE_TEXT_LIMIT as nat),
                    },
                )
            },
        }
    } else if kind == Some("context"@) {
        let context_type = match JsonValue::member_model(raw, "context"@) {
            Some(context) => text_member(context, "type"@),
            None => None,
        };
        match (context_type, text_member(raw, "label"@)) {
            (Some(context_type), Some(label)) => SegmentReading::Shown(
                SegmentModel::Context {
                    context_type: first_chars(context_type, TURN_RAIL_CAPSULE_TYPE_LIMIT as nat),
                    label: first_chars(label, TURN_RAIL_CAPSULE_LABEL_LIMIT as nat),
                    title: match text_member(raw, "title"@) {
                        Some(title) => Some(
                            first_chars(title, TURN_RAIL_CAPSULE_TITLE_LIMIT as nat),
                        ),
                        None => None,
                    },
                },
            ),
            _ => SegmentReading::Malformed,
        }
    } else if kind == Some("inline-token"@) {
        match (text_member(raw, "tokenType"@), text_member(raw, "label"@)) {
            (Some(token_type), Some(label)) => SegmentReading::Shown(
                SegmentModel::InlineToken {
                    token_type: first_chars(token_type, TURN_RAIL_CAPSULE_TYPE_LIMIT as nat),
                    label: first_chars(label, TURN_RAIL_CAPSULE_LABEL_LIMIT as nat),
                },
            ),
            _ => SegmentReading::Malformed,
        }
    } else {
        SegmentReading::Malformed
    }
}

/// The segments shown for the first `n` recorded ones; nothing when one of them
/// is malformed.
pub open spec fn shown_segments(raw: Seq<JsonModel>, n: nat) -> Option<Seq<SegmentModel>>
    decreases n,
{
    if n == 0 || n > raw.len() {
        Some(Seq::empty())
    } else {
        match (shown_segments(raw, (n - 1) as nat), segment_reading(raw[n - 1])) {
            (Some(shown), SegmentReading::Nothing) => Some(shown),
            (Some(shown), SegmentReading::Shown(segment)) => Some(shown.push(segment)),
            _ => None,
        }
    }
}

/// The number of recorded segments that are looked at.
pub open spec fn segments_read(raw: Seq<JsonModel>) -> nat {
    if raw.len() <= TURN_RAIL_CAPSULE_MAX_SEGMENTS {
        raw.len()
    } else {
        TURN_RAIL_CAPSULE_MAX_SEGMENTS as nat
    }
}

/// The segments recorded with a message, in the one version that is understood.
pub open spec fn recorded_segments(metadata: Option<JsonModel>) -> Option<Seq<JsonModel>> {
    match metadata {
        Some(metadata) => match JsonValue::member_model(metadata, "composerPresentation"@) {
            Some(presentation) => if JsonValue::member_model(presentation, "version"@) == Some(
                JsonModel::Number(NumberModel::Unsigned(1)),
            ) {
                match JsonValue::member_model(presentation, "segments"@) {
                    Some(JsonModel::Array(raw)) => Some(raw),
                    _ => None,
                }
            } else {
                None
            },
            None => None,
        },
        None => None,
    }
}

/// The capsule preview of a message.
pub open spec fn capsule_model(metadata: Option<JsonModel>) -> Option<Seq<SegmentModel>> {
    match recorded_segments(metadata) {
        Some(raw) => match shown_segments(raw, segments_read(raw)) {
            Some(shown) => if shown.len() > 0 {
                Some(shown)
            } else {
                None
            },
            None => None,
        },
        None => None,
    }
}

/// The model of optional metadata.
pub open spec fn metadata_model(metadata: Option<JsonValue>) -> Option<JsonModel> {
    match metadata {
        Some(v) => Some(v@),
        None => None,
    }
}

/// Reads a text member.
fn read_text_member<'a>(value: &'a JsonValue, key: &str) -> (r: Option<&'a str>)
    ensures
        r is Some == text_member(value@, key@) is Some,
        r matches Some(s) ==> text_member(value@, key@) == Some(s@),
{
    match value.get(key) {
        Some(member) => member.as_str(),
        None => None,
    }
}

/// Reads one recorded segment: outer `None` when it is malformed, inner `None`
/// when it shows nothing.
fn read_segment(raw: &JsonValue) -> (r: Option<Option<TurnRailCapsuleSegment>>)
    ensures
        match segment_reading(raw@) {
            SegmentReading::Malformed => r is None,
            SegmentReading::Nothing => r matches Some(inner) && inner is None,
            SegmentReading::Shown(model) => r matches Some(inner) && inner matches Some(segment)
                && segment@ == model,
        },
{
    proof {
        reveal_strlit("text");
        reveal_strlit("context");
        reveal_strlit("inline-token");
    }
    let kind = match read_text_member(raw, "kind") {
        Some(kind) => kind,
        None => {
            return None;
        },
    };
    if same_text(kind, "text") {
        match read_text_member(raw, "text") {
            None => None,
            Some(text) => if text.is_empty() {
                Some(None)
            } else {
                Some(
                    Some(
                        TurnRailCapsuleSegment::Text {
                            text: bounded_display_text(text, TURN_RAIL_CAPSULE_TEXT_LIMIT),
                        },
                    ),
                )
            },
        }
    } else if same_text(kind, "context") {
        let context = match raw.get("context") {
            Some(context) => context,
            None => {
                return None;
            },
        };
        match (read_text_member(context, "type"), read_text_member(raw, "label")) {
            (Some(context_type), Some(label)) => {
                let title = match read_text_member(raw, "title") {
                    Some(title) => Some(bounded_display_text(title, TURN_RAIL_CAPSULE_TITLE_LIMIT)),
                    None => None,
                };
                Some(
                    Some(
                        TurnRailCapsuleSegment::Context {
                            context_type: bounded_display_text(
                                context_type,
                                TURN_RAIL_CAPSULE_TYPE_LIMIT,
                            ),
                            label: bounded_display_text(label, TURN_RAIL_CAPSULE_LABEL_LIMIT),
                            title,
                        },
                    ),
                )
            },
            _ => None,
        }
    } else if same_text(kind, "inline-token") {
        match (read_text_member(raw, "tokenType"), read_text_member(raw, "label")) {
            (Some(token_type), Some(label)) => Some(
                Some(
                    TurnRailCapsuleSegment::InlineToken {
                        token_type: bounded_display_text(token_type, TURN_RAIL_CAPSULE_TYPE_LIMIT),
                        label: bounded_display_text(label, TURN_RAIL_CAPSULE_LABEL_LIMIT),
                    },
                ),
            ),
            _ => None,
        }
    } else {
        None
    }
}

/// The recorded segments of a message.
fn read_recorded_segments(metadata: &Option<JsonValue>) -> (r: Option<&Vec<JsonValue>>)
    ensures
        r is Some == recorded_segments(metadata_model(*metadata)) is Some,
        r matches Some(raw) ==> recorded_segments(metadata_model(*metadata)) == Some(
            item_models(raw@),
        ),
{
    match metadata {
        Some(metadata) => match metadata.get("composerPresentation") {
            Some(presentation) => {
                let version = match presentation.get("version") {
                    Some(version) => version,
                    None => {
                        return None;
                    },
                };
                if version.as_u64() != Some(1) {
                    return None;
                }
                match presentation.get("segments") {
                    Some(segments) => {
                        proof {
                            lemma_json_model(*segments);
                        }
                        match segments {
                            JsonValue::Array(raw) => Some(raw),
                            _ => None,
                        }
                    },
                    None => None,
                }
            },
            None => None,
        },
        None => None,
    }
}

proof fn lemma_shown_segments_fail(raw: Seq<JsonModel>, n: nat, m: nat)
    requires
        n <= m <= raw.len(),
        shown_segments(raw, n) is None,
    ensures
        shown_segments(raw, m) is None,
    decreases m,
{
    if n < m {
        lemma_shown_segments_fail(raw, n, (m - 1) as nat);
    }
}

/// The capsule preview of a turn's message: at most the first
/// [`TURN_RAIL_CAPSULE_MAX_SEGMENTS`] segments, shortened for display. A message
/// with a malformed segment has none, and neither has one that shows nothing.
pub fn turn_rail_capsule_preview(turn: &DialogTurnData) -> (r: Option<TurnRailCapsulePreview>)
    ensures
        capsule_option(r) == capsule_model(metadata_model(turn.user_message.metadata)),
{
    let raw = match read_recorded_segments(&turn.user_message.metadata) {
        Some(raw) => raw,
        None => {
            return None;
        },
    };
    let ghost models = item_models(raw@);
    let n: usize = if raw.len() <= TURN_RAIL_CAPSULE_MAX_SEGMENTS {
        raw.len()
    } else {
        TURN_RAIL_CAPSULE_MAX_SEGMENTS
    };
    let mut segments: Vec<TurnRailCapsuleSegment> = Vec::new();
    let mut i: usize = 0;
    assert(Seq::new(segments@.len(), |j: int| segments@[j]@) =~= Seq::<SegmentModel>::empty());
    while i < n
        invariant
            i <= n <= raw@.len(),
            models == item_models(raw@),
            n == segments_read(models),
            recorded_segments(metadata_model(turn.user_message.metadata)) == Some(models),
            shown_segments(models, i as nat) == Some(
                Seq::new(segments@.len(), |j: int| segments@[j]@),
            ),
        decreases n - i,
    {
        let ghost before = Seq::new(segments@.len(), |j: int| segments@[j]@);
        assert(models[i as int] == raw@[i as int]@);
        match read_segment(&raw[i]) {
            None => {
                proof {
                    assert(shown_segments(models, (i + 1) as nat) is None);
                    lemma_shown_segments_fail(models, (i + 1) as nat, n as nat);
                }
                return None;
            },
            Some(None) => {},
            Some(Some(segment)) => {
                segments.push(segment);
                assert(Seq::new(segments@.len(), |j: int| segments@[j]@) =~= before.push(segment@));
            },
        }
        i += 1;
    }
    if segments.len() > 0 {
        let preview = TurnRailCapsulePreview { segments };
        assert(preview@ =~= Seq::new(segments@.len(), |j: int| segments@[j]@));
        Some(preview)
    } else {
        None
    }
}

impl TurnRailCapsuleSegment {
    /// A copy of this segment.
    pub fn duplicate(&self) -> (r: TurnRailCapsuleSegment)
        ensures
            r@ == self@,
    {
        match self {
            TurnRailCapsuleSegment::Text { text } => TurnRailCapsuleSegment::Text {
                text: text.clone(),
            },
            TurnRailCapsuleSegment::Context {
                context_type,
                label,
                title,
            } => TurnRailCapsuleSegment::Context {
                context_type: context_type.clone(),
                label: label.clone(),
                title: copy_text_option(title),
            },
            TurnRailCapsuleSegment::InlineToken {
                token_type,
                label,
            } => TurnRailCapsuleSegment::InlineToken {
                token_type: token_type.clone(),
                label: label.clone(),
            },
        }
    }

    /// Whether both segments show the same.
    pub fn same(&self, other: &TurnRailCapsuleSegment) -> (r: bool)
        ensures
            r == (self@ == other@),
    {
        match (self, other) {
            (
                TurnRailCapsuleSegment::Text { text: a },
                TurnRailCapsuleSegment::Text { text: b },
            ) => same_text(a.as_str(), b.as_str()),
            (
                TurnRailCapsuleSegment::Context { context_type: a, label: b, title: c },
                TurnRailCapsuleSegment::Context { context_type: x, label: y, title: z },
            ) => same_text(a.as_str(), x.as_str()) && same_text(b.as_str(), y.as_str())
                && same_text_option(c, z),
            (
                TurnRailCapsuleSegment::InlineToken { token_type: a, label: b },
                TurnRailCapsuleSegment::InlineToken { token_type: x, label: y },
            ) => same_text(a.as_str(), x.as_str()) && same_text(b.as_str(), y.as_str()),
            _ => false,
        }
    }
}

impl TurnRailCapsulePreview {
    /// A copy of this preview.
    pub fn duplicate(&self) -> (r: TurnRailCapsulePreview)
        ensures
            r@ == self@,
    {
        let mut segments: Vec<TurnRailCapsuleSegment> = Vec::new();
        let mut i: usize = 0;
        while i < self.segments.len()
            invariant
                i <= self.segments@.len(),
                segments@.len() == i,
                forall|j: int| 0 <= j < i ==> (#[trigger] segments@[j])@ == self.segments@[j]@,
            decreases self.segments@.len() - i,
        {
            segments.push(self.segments[i].duplicate());
            i += 1;
        }
        let r = TurnRailCapsulePreview { segments };
        assert(r@ =~= self@);
        r
    }

    /// Whether both previews show the same.
    pub fn same(&self, other: &TurnRailCapsulePreview) -> (r: bool)
        ensures
            r == (self@ == other@),
    {
        if self.segments.len() != other.segments.len() {
            assert(self@.len() != other@.len());
            return false;
        }
        let mut i: usize = 0;
        while i < self.segments.len()
            invariant
                self.segments@.len() == other.segments@.len(),
                i <= self.segments@.len(),
                forall|j: int|
                    0 <= j < i ==> (#[trigger] self.segments@[j])@ == other.segments@[j]@,
            decreases self.segments@.len() - i,
        {
            if !self.segments[i].same(&other.segments[i]) {
                assert(self@[i as int] != other@[i as int]);
                return false;
            }
            i += 1;
        }
        assert(self@ =~= other@);
        true
    }
}

/// A copy of an optional preview.
pub fn copy_capsule_option(o: &Option<TurnRailCapsulePreview>) -> (r: Option<
    TurnRailCapsulePreview,
>)
    ensures
        capsule_option(r) == capsule_option(*o),
{
    match o {
        Some(p) => Some(p.duplicate()),
        None => None,
    }
}

/// Whether two optional previews show the same.
pub fn same_capsule_option(
    a: &Option<TurnRailCapsulePreview>,
    b: &Option<TurnRailCapsulePreview>,
) -> (r: bool)
    ensures
        r == (capsule_option(*a) == capsule_option(*b)),
{
    match (a, b) {
        (Some(x), Some(y)) => x.same(y),
        (None, None) => true,
        _ => false,
    }
}

/// Whether a shown segment is as short as display needs it.
pub open spec fn is_bounded_segment(segment: SegmentModel) -> bool {
    match segment {
        SegmentModel::Text { text } => 0 < text.len() <= TURN_RAIL_CAPSULE_TEXT_LIMIT,
        SegmentModel::Context { context_type, label, title } => {
            &&& context_type.len() <= TURN_RAIL_CAPSULE_TYPE_LIMIT
            &&& label.len() <= TURN_RAIL_CAPSULE_LABEL_LIMIT
            &&& title matches Some(t) ==> t.len() <= TURN_RAIL_CAPSULE_TITLE_LIMIT
        },
        SegmentModel::InlineToken { token_type, label } => {
            &&& token_type.len() <= TURN_RAIL_CAPSULE_TYPE_LIMIT
            &&& label.len() <= TURN_RAIL_CAPSULE_LABEL_LIMIT
        },
    }
}

proof fn lemma_shown_bounded(raw: Seq<JsonModel>, n: nat)
    ensures
        shown_segments(raw, n) matches Some(shown) ==> shown.len() <= n && forall|i: int|
            0 <= i < shown.len() ==> is_bounded_segment(#[trigger] shown[i]),
    decreases n,
{
    if 0 < n <= raw.len() {
        lemma_shown_bounded(raw, (n - 1) as nat);
    }
}

/// A capsule preview shows something, and never more than the fixed number of
/// segments and characters, whatever was recorded with the message.
pub proof fn capsule_previews_are_bounded(metadata: Option<JsonModel>)
    ensures
        capsule_model(metadata) matches Some(shown) ==> 0 < shown.len()
            <= TURN_RAIL_CAPSULE_MAX_SEGMENTS && forall|i: int|
            0 <= i < shown.len() ==> is_bounded_segment(#[trigger] shown[i]),
{
    if let Some(raw) = recorded_segments(metadata) {
        lemma_shown_bounded(raw, segments_read(raw));
    }
}

/// What is shown of a recorded segment comes of its own members: a text as its
/// first 320 characters, a context and a token with the first 40 characters of
/// their type and the first 160 of their label. A segment that is not of one of
/// these kinds, or lacks what its kind needs, is malformed.
pub proof fn a_segment_shows_its_own_members(raw: JsonModel)
    ensures
        ({
            let kind = text_member(raw, "kind"@);
            let shown = |whole: Seq<char>, part: Seq<char>, limit: int|
                part == (if whole.len() > limit {
                    whole.subrange(0, limit)
                } else {
                    whole
                });
            match segment_reading(raw) {
                SegmentReading::Shown(SegmentModel::Text { text }) => {
                    &&& kind == Some("text"@)
                    &&& text_member(raw, "text"@) matches Some(whole)
                    &&& whole.len() > 0
                    &&& shown(whole, text, 320)
                },
                SegmentReading::Shown(SegmentModel::Context { context_type, label, title }) => {
                    &&& kind == Some("context"@)
                    &&& JsonValue::member_model(raw, "context"@) matches Some(context)
                    &&& text_member(context, "type"@) matches Some(whole_type)
                    &&& text_member(raw, "label"@) matches Some(whole_label)
                    &&& shown(whole_type, context_type, 40)
                    &&& shown(whole_label, label, 160)
                    &&& title is Some == text_member(raw, "title"@) is Some
                    &&& title is Some ==> shown(text_member(raw, "title"@)->0, title->0, 320)
                },
                SegmentReading::Shown(SegmentModel::InlineToken { token_type, label }) => {
                    &&& kind == Some("inline-token"@)
                    &&& text_member(raw, "tokenType"@) matches Some(whole_type)
                    &&& text_member(raw, "label"@) matches Some(whole_label)
                    &&& shown(whole_type, token_type, 40)
                    &&& shown(whole_label, label, 160)
                },
                SegmentReading::Nothing => kind == Some("text"@) && text_member(raw, "text"@)
                    == Some(Seq::<char>::empty()),
                SegmentReading::Malformed => {
                    ||| kind is None
                    ||| kind != Some("text"@) && kind != Some("context"@) && kind != Some(
                        "inline-token"@,
                    )
                    ||| kind == Some("text"@) && text_member(raw, "text"@) is None
                    ||| kind == Some("context"@) && (text_member(raw, "label"@) is None
                        || JsonValue::member_model(raw, "context"@) is None || text_member(
                        JsonValue::member_model(raw, "context"@)->0,
                        "type"@,
                    ) is None)
                    ||| kind == Some("inline-token"@) && (text_member(raw, "label"@) is None
                        || text_member(raw, "tokenType"@) is None)
                },
            }
        }),
{
    reveal_strlit("text");
    reveal_strlit("context");
    reveal_strlit("inline-token");
    assert("text"@.len() == 4 && "context"@.len() == 7 && "inline-token"@.len() == 12);
    match text_member(raw, "text"@) {
        Some(text) => {
            if text.len() == 0 {
                assert(text =~= Seq::<char>::empty());
            }
        },
        None => {},
    }
}

/// Every recorded segment counts by itself: one more that is shown comes last,
/// one that shows nothing changes nothing, and one that is malformed hides all.
pub proof fn segments_are_shown_in_their_order(raw: Seq<JsonModel>, next: JsonModel)
    ensures
        ({
            let before = shown_segments(raw, raw.len());
            let after = shown_segments(raw.push(next), raw.len() + 1);
            match segment_reading(next) {
                SegmentReading::Malformed => after is None,
                SegmentReading::Nothing => after == before,
                SegmentReading::Shown(segment) => match before {
                    Some(shown) => after == Some(shown.push(segment)),
                    None => after is None,
                },
            }
        }),
        shown_segments(Seq::empty(), 0) == Some(Seq::<SegmentModel>::empty()),
{
    lemma_shown_prefix(raw, raw.push(next), raw.len());
    assert(raw.push(next)[raw.len() as int] == next);
}

proof fn lemma_shown_prefix(a: Seq<JsonModel>, b: Seq<JsonModel>, n: nat)
    requires
        n <= a.len(),
        n <= b.len(),
        forall|i: int| 0 <= i < n ==> a[i] == b[i],
    ensures
        shown_segments(a, n) == shown_segments(b, n),
    decreases n,
{
    if n > 0 {
        lemma_shown_prefix(a, b, (n - 1) as nat);
    }
}

/// A message has a capsule exactly when its recorded presentation is of version 1
/// and lists segments of which the first 64 are all well formed and show
/// something; the capsule is what these show.
pub proof fn a_capsule_is_what_the_first_segments_show(metadata: Option<JsonModel>)
    ensures
        ({
            let presentation = match metadata {
                Some(m) => JsonValue::member_model(m, "composerPresentation"@),
                None => None,
            };
            let listed = match presentation {
                Some(p) => if JsonValue::member_model(p, "version"@) == Some(
                    JsonModel::Number(NumberModel::Unsigned(1)),
                ) {
                    JsonValue::member_model(p, "segments"@)
                } else {
                    None
                },
                None => None,
            };
            match listed {
                Some(JsonModel::Array(raw)) => {
                    let read = if raw.len() > 64 {
                        raw.subrange(0, 64)
                    } else {
                        raw
                    };
                    match shown_segments(read, read.len()) {
                        Some(shown) => if shown.len() == 0 {
                            capsule_model(metadata) is None
                        } else {
                            capsule_model(metadata) == Some(shown)
                        },
                        None => capsule_model(metadata) is None,
                    }
                },
                _ => capsule_model(metadata) is None,
            }
        }),
{
    match recorded_segments(metadata) {
        Some(raw) => {
            if raw.len() > 64 {
                lemma_shown_prefix(raw, raw.subrange(0, 64), 64);
            }
        },
        None => {},
    }
}

} // verus!
