//! The events section: line-level timeline entries and storyboard objects.
//!
//! Every version-sensitive rule of the section grammar is collected in the
//! policy functions here, consulted by both the parser and the serializer
//! so that the two stay symmetric by construction.

use vstd::prelude::*;
use crate::{Integer, Position, Version};

pub mod storyboard;

verus! {

/// Whether `version` lies in the old-format range that offsets time fields
/// by [`crate::helper::OLD_VERSION_TIME_OFFSET`].
pub open spec fn spec_version_offsets_times(v: int) -> bool {
    3 <= v <= 4
}

/// Whether `version` always materializes an event position, printing the
/// `0,0` default instead of omitting the coordinate pair.
pub open spec fn spec_version_position_always(v: int) -> bool {
    v >= 14
}

/// Whether `version` can carry a colour transformation event at all.
pub open spec fn spec_version_has_colour_event(v: int) -> bool {
    v < 14
}

/// Whether `version` spells storyboard layers and origins with the legacy
/// numeric codes instead of the named identifiers.
pub open spec fn spec_version_legacy_enums(v: int) -> bool {
    v < 6
}

/// The version-sensitive rules of the events grammar, resolved once per
/// parse or render.
#[derive(Clone, Copy, Debug, PartialEq, Eq, Structural)]
pub struct VersionPolicy {
    /// Add the legacy offset to times on parse, subtract it on render.
    pub offsets_times: bool,
    /// A position is always materialized, `0,0` when absent.
    pub position_always: bool,
    /// Colour transformation events exist at this version.
    pub has_colour_event: bool,
    /// Layers and origins are spelt with numeric codes.
    pub legacy_enums: bool,
}

/// The policy for one format version.
pub fn version_policy(version: Version) -> (r: VersionPolicy)
    ensures
        r.offsets_times == spec_version_offsets_times(version as int),
        r.position_always == spec_version_position_always(version as int),
        r.has_colour_event == spec_version_has_colour_event(version as int),
        r.legacy_enums == spec_version_legacy_enums(version as int),
{
    VersionPolicy {
        offsets_times: 3 <= version && version <= 4,
        position_always: version >= 14,
        has_colour_event: version < 14,
        legacy_enums: version < 6,
    }
}

} // verus!

verus! {

/// Error of reading a normal (non-storyboard) event line.
#[derive(Clone, Copy, Debug, PartialEq, Eq, Structural)]
pub enum EventParamsParseError {
    /// The header token names no known event kind; the line is rejected as
    /// a whole.
    UnknownEventType,
    MissingStartTime,
    InvalidStartTime,
    MissingFileName,
    MissingXOffset,
    InvalidXOffset,
    MissingYOffset,
    InvalidYOffset,
    MissingEndTime,
    InvalidEndTime,
    MissingRed,
    InvalidRed,
    MissingGreen,
    InvalidGreen,
    MissingBlue,
    InvalidBlue,
}

/// Error of reading the events section.
#[derive(Clone, Copy, Debug, PartialEq, Eq, Structural)]
pub enum ParseError {
    /// An indented command line with no storyboard object directly before
    /// it to own it.
    StoryboardCmdWithNoSprite,
    /// A storyboard object line whose fields failed, other than by an
    /// unknown leading token.
    StoryboardObjectParseError(storyboard::error::ObjectParseError),
    /// A command line whose fields failed.
    CommandParseError(storyboard::error::CommandParseError),
    /// A command line at an indentation depth the tree cannot accept.
    CommandPushError(storyboard::error::CommandPushError),
    /// A line that is neither storyboard object nor well-formed normal
    /// event; the normal-event error is the one reported.
    EventParamsParseError(EventParamsParseError),
}

/// A background image event.
#[derive(Debug, Hash, PartialEq, Eq)]
pub struct Background {
    pub filename: String,
    pub position: Option<Position>,
}

impl Background {
    /// A background event with the given file name and position.
    pub fn new(filename: &str, position: Option<Position>) -> (r: Background)
        ensures
            r.filename@ == filename@ && r.position == position,
    {
        Background { filename: filename.to_owned(), position }
    }
}

/// A video event; `short_hand` records whether the line was written `1` or
/// `Video`, so that it prints back unchanged.
#[derive(Debug, Hash, PartialEq, Eq)]
pub struct Video {
    pub filename: String,
    pub position: Option<Position>,
    pub short_hand: bool,
}

impl Video {
    /// A video event in the shorthand spelling.
    pub fn new(filename: String, position: Option<Position>) -> (r: Video)
        ensures
            r.filename@ == filename@ && r.position == position && r.short_hand,
    {
        Video { filename, position, short_hand: true }
    }
}

/// A break period event; `short_hand` records whether the line was written
/// `2` or `Break`.
#[derive(Clone, Copy, Debug, Hash, PartialEq, Eq, Structural)]
pub struct Break {
    pub end_time: Integer,
    pub short_hand: bool,
}

impl Break {
    /// A break event in the shorthand spelling.
    pub fn new(end_time: Integer) -> (r: Break)
        ensures
            r.end_time == end_time && r.short_hand,
    {
        Break { end_time, short_hand: true }
    }
}

/// A colour transformation event; only format versions below the colour
/// cutoff can carry one.
#[derive(Clone, Copy, Debug, Hash, PartialEq, Eq, Structural)]
pub struct ColourTransformation {
    pub red: u8,
    pub green: u8,
    pub blue: u8,
}

/// The payload of a normal event line.
#[derive(Debug, Hash, PartialEq, Eq)]
pub enum EventParams {
    Background(Background),
    Video(Video),
    Break(Break),
    ColourTransformation(ColourTransformation),
}

/// One line-level entry of the events section.
#[derive(Debug, Hash, PartialEq, Eq)]
pub enum Event {
    Comment(String),
    NormalEvent { start_time: Integer, event_params: EventParams },
    Storyboard(storyboard::sprites::Object),
}

/// The whole events section, in source line order.
#[derive(Debug, Hash, PartialEq, Eq)]
pub struct Events(pub Vec<Event>);

/// The mathematical model of a background event.
pub struct BackgroundV {
    pub filename: Seq<char>,
    pub position: Option<Position>,
}

/// The mathematical model of a video event.
pub struct VideoV {
    pub filename: Seq<char>,
    pub position: Option<Position>,
    pub short_hand: bool,
}

/// The mathematical model of a normal event payload.
pub enum EventParamsV {
    Background(BackgroundV),
    Video(VideoV),
    Break(Break),
    ColourTransformation(ColourTransformation),
}

/// The mathematical model of one event.
pub enum EventV {
    Comment(Seq<char>),
    NormalEvent { start_time: Integer, event_params: EventParamsV },
    Storyboard(storyboard::sprites::ObjectV),
}

/// The model of a normal event payload.
pub open spec fn params_view(p: EventParams) -> EventParamsV {
    match p {
        EventParams::Background(b) => EventParamsV::Background(
            BackgroundV { filename: b.filename@, position: b.position },
        ),
        EventParams::Video(v) => EventParamsV::Video(
            VideoV { filename: v.filename@, position: v.position, short_hand: v.short_hand },
        ),
        EventParams::Break(b) => EventParamsV::Break(b),
        EventParams::ColourTransformation(c) => EventParamsV::ColourTransformation(c),
    }
}

/// The model of one event.
pub open spec fn event_view(e: Event) -> EventV {
    match e {
        Event::Comment(s) => EventV::Comment(s@),
        Event::NormalEvent { start_time, event_params } => EventV::NormalEvent {
            start_time,
            event_params: params_view(event_params),
        },
        Event::Storyboard(o) => EventV::Storyboard(storyboard::sprites::object_view(o)),
    }
}

/// The models of a sequence of events, in order.
pub open spec fn events_view(es: Seq<Event>) -> Seq<EventV>
    decreases es,
{
    if es.len() == 0 {
        Seq::<EventV>::empty()
    } else {
        seq![event_view(es[0])] + events_view(es.drop_first())
    }
}

/// Indexing lemma for [`events_view`].
pub proof fn lemma_events_view_index(es: Seq<Event>)
    ensures
        events_view(es).len() == es.len(),
        forall|i: int| 0 <= i < es.len() ==> events_view(es)[i] == event_view(#[trigger] es[i]),
    decreases es,
{
    if es.len() > 0 {
        lemma_events_view_index(es.drop_first());
        assert forall|i: int| 0 <= i < es.len() implies events_view(es)[i] == event_view(es[i]) by {
            if i > 0 {
                assert(events_view(es)[i] == events_view(es.drop_first())[i - 1]);
                assert(es.drop_first()[i - 1] == es[i]);
            }
        }
    }
}

/// [`events_view`] distributes over push.
pub proof fn lemma_events_view_push(es: Seq<Event>, e: Event)
    ensures
        events_view(es.push(e)) == events_view(es).push(event_view(e)),
    decreases es,
{
    if es.len() == 0 {
        assert(es.push(e)[0] == e);
        assert(es.push(e).drop_first() =~= Seq::<Event>::empty());
        assert(events_view(Seq::<Event>::empty()) == Seq::<EventV>::empty());
        assert(events_view(es.push(e)) == seq![event_view(e)] + Seq::<EventV>::empty());
        assert(seq![event_view(e)] + Seq::<EventV>::empty() =~= Seq::<EventV>::empty().push(
            event_view(e),
        ));
        assert(events_view(es) == Seq::<EventV>::empty());
    } else {
        assert(es.push(e)[0] == es[0]);
        assert(es.push(e).drop_first() =~= es.drop_first().push(e));
        lemma_events_view_push(es.drop_first(), e);
        assert(events_view(es.push(e)) == seq![event_view(es[0])] + events_view(
            es.drop_first(),
        ).push(event_view(e)));
        assert(events_view(es) == seq![event_view(es[0])] + events_view(es.drop_first()));
        assert(seq![event_view(es[0])] + events_view(es.drop_first()).push(event_view(e)) =~= (
        seq![event_view(es[0])] + events_view(es.drop_first())).push(event_view(e)));
    }
}

} // verus!

verus! {

/// A time as stored after parsing: the legacy offset added at old
/// versions, or nothing when that would overflow the field type.
pub open spec fn spec_offset_time(t: Integer, v: int) -> Option<Integer> {
    if spec_version_offsets_times(v) {
        if t + 24 <= i32::MAX {
            Some((t + 24) as Integer)
        } else {
            None
        }
    } else {
        Some(t)
    }
}

/// A stored time as rendered: the legacy offset subtracted at old
/// versions, or nothing when that would underflow the field type.
pub open spec fn spec_unoffset_time(t: Integer, v: int) -> Option<Integer> {
    if spec_version_offsets_times(v) {
        if t - 24 >= i32::MIN {
            Some((t - 24) as Integer)
        } else {
            None
        }
    } else {
        Some(t)
    }
}

/// Reading of the optional trailing coordinate pair of a background or
/// video line, fields 3 and on.
pub open spec fn spec_parse_event_pos(fields: Seq<Seq<char>>, v: int) -> Result<
    Option<Position>,
    EventParamsParseError,
> {
    if fields.len() == 3 {
        Ok(
            if spec_version_position_always(v) {
                Some(Position { x: 0, y: 0 })
            } else {
                None
            },
        )
    } else if fields.len() == 4 {
        Err(EventParamsParseError::MissingYOffset)
    } else if fields.len() == 5 {
        match crate::numbers::spec_parse_i32(fields[3]) {
            None => Err(EventParamsParseError::InvalidXOffset),
            Some(x) => match crate::numbers::spec_parse_i32(fields[4]) {
                None => Err(EventParamsParseError::InvalidYOffset),
                Some(y) => Ok(Some(Position { x, y })),
            },
        }
    } else {
        Err(EventParamsParseError::InvalidYOffset)
    }
}

/// Reading of one normal event line: the adjusted start time and the
/// typed payload.
pub open spec fn spec_parse_normal_event(s: Seq<char>, v: int) -> Result<
    (Integer, EventParamsV),
    EventParamsParseError,
> {
    let fields = crate::text::spec_split(s, ',');
    let f0 = fields[0];
    if f0 == "0"@ {
        if fields.len() < 2 {
            Err(EventParamsParseError::MissingStartTime)
        } else {
            match crate::numbers::spec_parse_i32(fields[1]) {
                None => Err(EventParamsParseError::InvalidStartTime),
                Some(st) => if fields.len() < 3 {
                    Err(EventParamsParseError::MissingFileName)
                } else {
                    match spec_parse_event_pos(fields, v) {
                        Err(e) => Err(e),
                        Ok(position) => Ok(
                            (
                                st,
                                EventParamsV::Background(
                                    BackgroundV { filename: fields[2], position },
                                ),
                            ),
                        ),
                    }
                },
            }
        }
    } else if f0 == "1"@ || f0 == "Video"@ {
        if fields.len() < 2 {
            Err(EventParamsParseError::MissingStartTime)
        } else {
            match crate::numbers::spec_parse_i32(fields[1]) {
                None => Err(EventParamsParseError::InvalidStartTime),
                Some(raw) => match spec_offset_time(raw, v) {
                    None => Err(EventParamsParseError::InvalidStartTime),
                    Some(st) => if fields.len() < 3 {
                        Err(EventParamsParseError::MissingFileName)
                    } else {
                        match spec_parse_event_pos(fields, v) {
                            Err(e) => Err(e),
                            Ok(position) => Ok(
                                (
                                    st,
                                    EventParamsV::Video(
                                        VideoV {
                                            filename: fields[2],
                                            position,
                                            short_hand: f0 == "1"@,
                                        },
                                    ),
                                ),
                            ),
                        }
                    },
                },
            }
        }
    } else if f0 == "2"@ || f0 == "Break"@ {
        if fields.len() < 2 {
            Err(EventParamsParseError::MissingStartTime)
        } else {
            match crate::numbers::spec_parse_i32(fields[1]) {
                None => Err(EventParamsParseError::InvalidStartTime),
                Some(raw) => match spec_offset_time(raw, v) {
                    None => Err(EventParamsParseError::InvalidStartTime),
                    Some(st) => if fields.len() < 3 {
                        Err(EventParamsParseError::MissingEndTime)
                    } else if fields.len() > 3 {
                        Err(EventParamsParseError::InvalidEndTime)
                    } else {
                        match crate::numbers::spec_parse_i32(fields[2]) {
                            None => Err(EventParamsParseError::InvalidEndTime),
                            Some(rawe) => match spec_offset_time(rawe, v) {
                                None => Err(EventParamsParseError::InvalidEndTime),
                                Some(et) => Ok(
                                    (
                                        st,
                                        EventParamsV::Break(
                                            Break {
                                                end_time: et,
                                                short_hand: f0 == "2"@,
                                            },
                                        ),
                                    ),
                                ),
                            },
                        }
                    },
                },
            }
        }
    } else if f0 == "3"@ {
        if fields.len() < 2 {
            Err(EventParamsParseError::MissingStartTime)
        } else {
            match crate::numbers::spec_parse_i32(fields[1]) {
                None => Err(EventParamsParseError::InvalidStartTime),
                Some(raw) => match spec_offset_time(raw, v) {
                    None => Err(EventParamsParseError::InvalidStartTime),
                    Some(st) => if fields.len() < 3 {
                        Err(EventParamsParseError::MissingRed)
                    } else {
                        match crate::numbers::spec_parse_u8(fields[2]) {
                            None => Err(EventParamsParseError::InvalidRed),
                            Some(red) => if fields.len() < 4 {
                                Err(EventParamsParseError::MissingGreen)
                            } else {
                                match crate::numbers::spec_parse_u8(fields[3]) {
                                    None => Err(EventParamsParseError::InvalidGreen),
                                    Some(green) => if fields.len() < 5 {
                                        Err(EventParamsParseError::MissingBlue)
                                    } else if fields.len() > 5 {
                                        Err(EventParamsParseError::InvalidBlue)
                                    } else {
                                        match crate::numbers::spec_parse_u8(fields[4]) {
                                            None => Err(EventParamsParseError::InvalidBlue),
                                            Some(blue) => Ok(
                                                (
                                                    st,
                                                    EventParamsV::ColourTransformation(
                                                        ColourTransformation { red, green, blue },
                                                    ),
                                                ),
                                            ),
                                        }
                                    },
                                }
                            },
                        }
                    },
                },
            }
        }
    } else {
        Err(EventParamsParseError::UnknownEventType)
    }
}

/// The text of an optional coordinate pair at a version: printed when
/// present, printed as the `0,0` default when the version always
/// materializes one, absent otherwise.
pub open spec fn spec_render_pos(pos: Option<Position>, v: int) -> Seq<char> {
    match pos {
        Some(p) => seq![','] + crate::numbers::spec_int_chars(p.x as int) + seq![',']
            + crate::numbers::spec_int_chars(p.y as int),
        None => if spec_version_position_always(v) {
            seq![','] + crate::numbers::spec_int_chars(0) + seq![','] + crate::numbers::spec_int_chars(
                0,
            )
        } else {
            Seq::<char>::empty()
        },
    }
}

/// The text of a normal event at a version, or nothing when the event has
/// no form there: a colour event at or past the colour cutoff, or a time
/// the legacy offset cannot shift back.
pub open spec fn spec_render_normal_event(st: Integer, p: EventParamsV, v: int) -> Option<
    Seq<char>,
> {
    match p {
        EventParamsV::Background(b) => Some(
            "0"@ + seq![','] + crate::numbers::spec_int_chars(st as int) + seq![','] + b.filename
                + spec_render_pos(b.position, v),
        ),
        EventParamsV::Video(vd) => match spec_unoffset_time(st, v) {
            None => None,
            Some(t) => Some(
                (if vd.short_hand {
                    "1"@
                } else {
                    "Video"@
                }) + seq![','] + crate::numbers::spec_int_chars(t as int) + seq![','] + vd.filename
                    + spec_render_pos(vd.position, v),
            ),
        },
        EventParamsV::Break(bk) => match (spec_unoffset_time(st, v), spec_unoffset_time(
            bk.end_time,
            v,
        )) {
            (Some(t), Some(e)) => Some(
                (if bk.short_hand {
                    "2"@
                } else {
                    "Break"@
                }) + seq![','] + crate::numbers::spec_int_chars(t as int) + seq![',']
                    + crate::numbers::spec_int_chars(e as int),
            ),
            _ => None,
        },
        EventParamsV::ColourTransformation(c) => if !spec_version_has_colour_event(v) {
            None
        } else {
            match spec_unoffset_time(st, v) {
                None => None,
                Some(t) => Some(
                    "3"@ + seq![','] + crate::numbers::spec_int_chars(t as int) + seq![',']
                        + crate::numbers::spec_nat_chars(c.red as nat) + seq![',']
                        + crate::numbers::spec_nat_chars(c.green as nat) + seq![',']
                        + crate::numbers::spec_nat_chars(c.blue as nat),
                ),
            }
        },
    }
}

/// The text of one event at a version: a comment with its `//` prefix, a
/// normal event line, or a whole storyboard object block.
pub open spec fn spec_render_event(e: EventV, v: int) -> Option<Seq<char>> {
    match e {
        EventV::Comment(s) => Some("//"@ + s),
        EventV::NormalEvent { start_time, event_params } => spec_render_normal_event(
            start_time,
            event_params,
            v,
        ),
        EventV::Storyboard(o) => if storyboard::sprites::spec_object_wf(o) {
            Some(storyboard::sprites::spec_render_object(o, spec_version_legacy_enums(v)))
        } else {
            None
        },
    }
}

} // verus!

verus! {

/// Adds the legacy offset to a parsed time, exactly as
/// [`spec_offset_time`] says.
fn offset_time(t: Integer, version: Version) -> (r: Option<Integer>)
    ensures
        r == spec_offset_time(t, version as int),
{
    if version_policy(version).offsets_times {
        if t <= i32::MAX - 24 {
            Some(t + 24)
        } else {
            None
        }
    } else {
        Some(t)
    }
}

/// Subtracts the legacy offset from a stored time, exactly as
/// [`spec_unoffset_time`] says.
fn unoffset_time(t: Integer, version: Version) -> (r: Option<Integer>)
    ensures
        r == spec_unoffset_time(t, version as int),
{
    if version_policy(version).offsets_times {
        if t >= i32::MIN + 24 {
            Some(t - 24)
        } else {
            None
        }
    } else {
        Some(t)
    }
}

/// Reads the optional coordinate pair, exactly as
/// [`spec_parse_event_pos`] says.
fn parse_event_pos(fields: &Vec<Vec<char>>, version: Version) -> (r: Result<
    Option<Position>,
    EventParamsParseError,
>)
    ensures
        r == spec_parse_event_pos(crate::text::field_views(fields@), version as int),
{
    let ghost fsv = crate::text::field_views(fields@);
    let len = fields.len();
    proof {
        assert(fsv.len() == len);
    }
    if len == 3 {
        if version_policy(version).position_always {
            Ok(Some(Position { x: 0, y: 0 }))
        } else {
            Ok(None)
        }
    } else if len == 4 {
        Err(EventParamsParseError::MissingYOffset)
    } else if len == 5 {
        proof {
            assert(fsv[3] == fields@[3]@);
            assert(fsv[4] == fields@[4]@);
        }
        match crate::numbers::parse_i32_chars(fields[3].as_slice()) {
            None => Err(EventParamsParseError::InvalidXOffset),
            Some(x) => match crate::numbers::parse_i32_chars(fields[4].as_slice()) {
                None => Err(EventParamsParseError::InvalidYOffset),
                Some(y) => Ok(Some(Position { x, y })),
            },
        }
    } else {
        Err(EventParamsParseError::InvalidYOffset)
    }
}

/// Reads one normal event line, exactly as [`spec_parse_normal_event`]
/// says.
#[verifier::rlimit(100)]
pub fn parse_normal_event(line: &[char], version: Version) -> (r: Result<
    (Integer, EventParams),
    EventParamsParseError,
>)
    ensures
        ({
            let spec = spec_parse_normal_event(line@, version as int);
            match r {
                Ok(p) => spec == Ok::<_, EventParamsParseError>((p.0, params_view(p.1))),
                Err(e) => spec == Err::<(Integer, EventParamsV), _>(e),
            }
        }),
{
    let fields = crate::text::split_chars(line, ',');
    let ghost fsv = crate::text::spec_split(line@, ',');
    let len = fields.len();
    proof {
        assert(crate::text::field_views(fields@) == fsv);
        assert(fsv.len() == len);
        assert(fsv[0] == fields@[0]@);
    }
    let is_bg = crate::text::chars_eq(fields[0].as_slice(), "0");
    if is_bg {
        if len < 2 {
            return Err(EventParamsParseError::MissingStartTime);
        }
        proof {
            assert(fsv[1] == fields@[1]@);
        }
        let st = match crate::numbers::parse_i32_chars(fields[1].as_slice()) {
            None => {
                return Err(EventParamsParseError::InvalidStartTime);
            },
            Some(v) => v,
        };
        if len < 3 {
            return Err(EventParamsParseError::MissingFileName);
        }
        proof {
            assert(fsv[2] == fields@[2]@);
        }
        let filename = crate::text::chars_to_string(&fields[2]);
        match parse_event_pos(&fields, version) {
            Err(e) => Err(e),
            Ok(position) => Ok(
                (st, EventParams::Background(Background { filename, position })),
            ),
        }
    } else {
        let is_v1 = crate::text::chars_eq(fields[0].as_slice(), "1");
        let is_video = if is_v1 {
            false
        } else {
            crate::text::chars_eq(fields[0].as_slice(), "Video")
        };
        if is_v1 || is_video {
            if len < 2 {
                return Err(EventParamsParseError::MissingStartTime);
            }
            proof {
                assert(fsv[1] == fields@[1]@);
            }
            let raw = match crate::numbers::parse_i32_chars(fields[1].as_slice()) {
                None => {
                    return Err(EventParamsParseError::InvalidStartTime);
                },
                Some(v) => v,
            };
            let st = match offset_time(raw, version) {
                None => {
                    return Err(EventParamsParseError::InvalidStartTime);
                },
                Some(v) => v,
            };
            if len < 3 {
                return Err(EventParamsParseError::MissingFileName);
            }
            proof {
                assert(fsv[2] == fields@[2]@);
            }
            let filename = crate::text::chars_to_string(&fields[2]);
            match parse_event_pos(&fields, version) {
                Err(e) => Err(e),
                Ok(position) => Ok(
                    (st, EventParams::Video(Video { filename, position, short_hand: is_v1 })),
                ),
            }
        } else {
            let is_b2 = crate::text::chars_eq(fields[0].as_slice(), "2");
            let is_break = if is_b2 {
                false
            } else {
                crate::text::chars_eq(fields[0].as_slice(), "Break")
            };
            if is_b2 || is_break {
                if len < 2 {
                    return Err(EventParamsParseError::MissingStartTime);
                }
                proof {
                    assert(fsv[1] == fields@[1]@);
                }
                let raw = match crate::numbers::parse_i32_chars(fields[1].as_slice()) {
                    None => {
                        return Err(EventParamsParseError::InvalidStartTime);
                    },
                    Some(v) => v,
                };
                let st = match offset_time(raw, version) {
                    None => {
                        return Err(EventParamsParseError::InvalidStartTime);
                    },
                    Some(v) => v,
                };
                if len < 3 {
                    return Err(EventParamsParseError::MissingEndTime);
                }
                if len > 3 {
                    return Err(EventParamsParseError::InvalidEndTime);
                }
                proof {
                    assert(fsv[2] == fields@[2]@);
                }
                let rawe = match crate::numbers::parse_i32_chars(fields[2].as_slice()) {
                    None => {
                        return Err(EventParamsParseError::InvalidEndTime);
                    },
                    Some(v) => v,
                };
                let et = match offset_time(rawe, version) {
                    None => {
                        return Err(EventParamsParseError::InvalidEndTime);
                    },
                    Some(v) => v,
                };
                Ok((st, EventParams::Break(Break { end_time: et, short_hand: is_b2 })))
            } else {
                let is_colour = crate::text::chars_eq(fields[0].as_slice(), "3");
                if !is_colour {
                    return Err(EventParamsParseError::UnknownEventType);
                }
                if len < 2 {
                    return Err(EventParamsParseError::MissingStartTime);
                }
                proof {
                    assert(fsv[1] == fields@[1]@);
                }
                let raw = match crate::numbers::parse_i32_chars(fields[1].as_slice()) {
                    None => {
                        return Err(EventParamsParseError::InvalidStartTime);
                    },
                    Some(v) => v,
                };
                let st = match offset_time(raw, version) {
                    None => {
                        return Err(EventParamsParseError::InvalidStartTime);
                    },
                    Some(v) => v,
                };
                if len < 3 {
                    return Err(EventParamsParseError::MissingRed);
                }
                proof {
                    assert(fsv[2] == fields@[2]@);
                }
                let red = match crate::numbers::parse_u8_chars(fields[2].as_slice()) {
                    None => {
                        return Err(EventParamsParseError::InvalidRed);
                    },
                    Some(v) => v,
                };
                if len < 4 {
                    return Err(EventParamsParseError::MissingGreen);
                }
                proof {
                    assert(fsv[3] == fields@[3]@);
                }
                let green = match crate::numbers::parse_u8_chars(fields[3].as_slice()) {
                    None => {
                        return Err(EventParamsParseError::InvalidGreen);
                    },
                    Some(v) => v,
                };
                if len < 5 {
                    return Err(EventParamsParseError::MissingBlue);
                }
                if len > 5 {
                    return Err(EventParamsParseError::InvalidBlue);
                }
                proof {
                    assert(fsv[4] == fields@[4]@);
                }
                let blue = match crate::numbers::parse_u8_chars(fields[4].as_slice()) {
                    None => {
                        return Err(EventParamsParseError::InvalidBlue);
                    },
                    Some(v) => v,
                };
                Ok(
                    (
                        st,
                        EventParams::ColourTransformation(
                            ColourTransformation { red, green, blue },
                        ),
                    ),
                )
            }
        }
    }
}

/// Appends the optional coordinate pair to `out`.
fn push_pos_chars(pos: &Option<Position>, version: Version, out: &mut Vec<char>)
    ensures
        final(out)@ == old(out)@ + spec_render_pos(*pos, version as int),
{
    match pos {
        Some(p) => {
            out.push(',');
            crate::numbers::push_i32_chars(p.x, out);
            out.push(',');
            crate::numbers::push_i32_chars(p.y, out);
            proof {
                assert(final(out)@ =~= old(out)@ + spec_render_pos(*pos, version as int));
            }
        },
        None => {
            if version_policy(version).position_always {
                out.push(',');
                crate::numbers::push_i32_chars(0, out);
                out.push(',');
                crate::numbers::push_i32_chars(0, out);
                proof {
                    assert(final(out)@ =~= old(out)@ + spec_render_pos(*pos, version as int));
                }
            } else {
                proof {
                    assert(out@ =~= out@ + spec_render_pos(*pos, version as int));
                }
            }
        },
    }
}

/// The text of one normal event at a version, or nothing when it has no
/// form there, exactly as [`spec_render_normal_event`] says.
#[verifier::rlimit(100)]
pub fn render_normal_event(st: Integer, p: &EventParams, version: Version) -> (r: Option<
    Vec<char>,
>)
    ensures
        ({
            let spec = spec_render_normal_event(st, params_view(*p), version as int);
            match r {
                Some(v) => spec == Some(v@),
                None => spec is None,
            }
        }),
{
    let mut out: Vec<char> = Vec::new();
    match p {
        EventParams::Background(b) => {
            let w = crate::text::str_to_chars("0");
            crate::text::push_all(w.as_slice(), &mut out);
            out.push(',');
            crate::numbers::push_i32_chars(st, &mut out);
            out.push(',');
            let f = crate::text::str_to_chars(b.filename.as_str());
            crate::text::push_all(f.as_slice(), &mut out);
            push_pos_chars(&b.position, version, &mut out);
            proof {
                assert(out@ =~= spec_render_normal_event(st, params_view(*p), version as int)->Some_0);
            }
            Some(out)
        },
        EventParams::Video(vd) => {
            let t = match unoffset_time(st, version) {
                None => {
                    return None;
                },
                Some(v) => v,
            };
            let w = crate::text::str_to_chars(
                if vd.short_hand {
                    "1"
                } else {
                    "Video"
                },
            );
            crate::text::push_all(w.as_slice(), &mut out);
            out.push(',');
            crate::numbers::push_i32_chars(t, &mut out);
            out.push(',');
            let f = crate::text::str_to_chars(vd.filename.as_str());
            crate::text::push_all(f.as_slice(), &mut out);
            push_pos_chars(&vd.position, version, &mut out);
            proof {
                assert(out@ =~= spec_render_normal_event(st, params_view(*p), version as int)->Some_0);
            }
            Some(out)
        },
        EventParams::Break(bk) => {
            let t = match unoffset_time(st, version) {
                None => {
                    return None;
                },
                Some(v) => v,
            };
            let e = match unoffset_time(bk.end_time, version) {
                None => {
                    return None;
                },
                Some(v) => v,
            };
            let w = crate::text::str_to_chars(
                if bk.short_hand {
                    "2"
                } else {
                    "Break"
                },
            );
            crate::text::push_all(w.as_slice(), &mut out);
            out.push(',');
            crate::numbers::push_i32_chars(t, &mut out);
            out.push(',');
            crate::numbers::push_i32_chars(e, &mut out);
            proof {
                assert(out@ =~= spec_render_normal_event(st, params_view(*p), version as int)->Some_0);
            }
            Some(out)
        },
        EventParams::ColourTransformation(c) => {
            if !version_policy(version).has_colour_event {
                return None;
            }
            let t = match unoffset_time(st, version) {
                None => {
                    return None;
                },
                Some(v) => v,
            };
            let w = crate::text::str_to_chars("3");
            crate::text::push_all(w.as_slice(), &mut out);
            out.push(',');
            crate::numbers::push_i32_chars(t, &mut out);
            out.push(',');
            crate::numbers::push_u8_chars(c.red, &mut out);
            out.push(',');
            crate::numbers::push_u8_chars(c.green, &mut out);
            out.push(',');
            crate::numbers::push_u8_chars(c.blue, &mut out);
            proof {
                assert(out@ =~= spec_render_normal_event(st, params_view(*p), version as int)->Some_0);
            }
            Some(out)
        },
    }
}

/// The text of one event at a version, or nothing when it has no form
/// there, exactly as [`spec_render_event`] says.
pub fn render_event(e: &Event, version: Version) -> (r: Option<Vec<char>>)
    ensures
        ({
            let spec = spec_render_event(event_view(*e), version as int);
            match r {
                Some(v) => spec == Some(v@),
                None => spec is None,
            }
        }),
{
    match e {
        Event::Comment(s) => {
            let mut out: Vec<char> = Vec::new();
            let w = crate::text::str_to_chars("//");
            crate::text::push_all(w.as_slice(), &mut out);
            let c = crate::text::str_to_chars(s.as_str());
            crate::text::push_all(c.as_slice(), &mut out);
            Some(out)
        },
        Event::NormalEvent { start_time, event_params } => {
            render_normal_event(*start_time, event_params, version)
        },
        Event::Storyboard(o) => {
            let mut out: Vec<char> = Vec::new();
            let legacy = version_policy(version).legacy_enums;
            if o.push_chars(legacy, &mut out) {
                Some(out)
            } else {
                None
            }
        },
    }
}

} // verus!

verus! {

/// A line with one trailing carriage return removed.
pub open spec fn spec_strip_cr(line: Seq<char>) -> Seq<char> {
    if line.len() > 0 && line.last() == '\r' {
        line.drop_last()
    } else {
        line
    }
}

/// A line of nothing but spaces and tabs, invisible to the parser.
pub open spec fn spec_is_blank(line: Seq<char>) -> bool {
    forall|i: int| 0 <= i < line.len() ==> #[trigger] line[i] == ' ' || line[i] == '\t'
}

/// The indentation of a line: its leading run of spaces and underscores.
pub open spec fn spec_indent_len(line: Seq<char>) -> int
    decreases line.len(),
{
    if line.len() > 0 && (line[0] == ' ' || line[0] == '_') {
        1 + spec_indent_len(line.drop_first())
    } else {
        0
    }
}

/// Reading of one non-blank line into the events read so far. A comment
/// line becomes a comment event; an indented line attaches as a command
/// to the storyboard object directly before it; any other line is read as
/// a storyboard object header and, if its leading token is unknown,
/// re-read as a normal event, whose error wins if both fail.
pub open spec fn spec_process_line(line: Seq<char>, idx: int, v: int, acc: Seq<EventV>) -> Result<
    Seq<EventV>,
    crate::Error<ParseError>,
> {
    if spec_is_blank(line) {
        Ok(acc)
    } else if crate::text::spec_starts_with(line, "//"@) {
        Ok(acc.push(EventV::Comment(line.skip(2))))
    } else {
        let ind = spec_indent_len(line);
        if ind > 0 {
            if acc.len() == 0 || !(acc.last() matches EventV::Storyboard(_)) {
                Err(
                    crate::Error {
                        line_index: idx as usize,
                        error: ParseError::StoryboardCmdWithNoSprite,
                    },
                )
            } else {
                match storyboard::cmds::spec_parse_command(line.skip(ind)) {
                    Err(e) => Err(
                        crate::Error {
                            line_index: idx as usize,
                            error: ParseError::CommandParseError(e),
                        },
                    ),
                    Ok(cv) => {
                        let o = acc.last()->Storyboard_0;
                        let maxd = storyboard::sprites::spec_max_open_depth(o.commands);
                        if ind <= maxd {
                            Ok(
                                acc.update(
                                    acc.len() - 1,
                                    EventV::Storyboard(
                                        storyboard::sprites::ObjectV {
                                            commands: storyboard::sprites::spec_push_at(
                                                o.commands,
                                                cv,
                                                ind as nat,
                                            ),
                                            ..o
                                        },
                                    ),
                                ),
                            )
                        } else {
                            Err(
                                crate::Error {
                                    line_index: idx as usize,
                                    error: ParseError::CommandPushError(
                                        storyboard::error::CommandPushError::InvalidIndentation(
                                            maxd as usize,
                                            ind as usize,
                                        ),
                                    ),
                                },
                            )
                        }
                    },
                }
            }
        } else {
            match storyboard::sprites::spec_parse_object(line, spec_version_legacy_enums(v)) {
                Ok(o) => Ok(acc.push(EventV::Storyboard(o))),
                Err(storyboard::error::ObjectParseError::UnknownObjectType) => {
                    match spec_parse_normal_event(line, v) {
                        Ok(p) => Ok(
                            acc.push(EventV::NormalEvent { start_time: p.0, event_params: p.1 }),
                        ),
                        Err(e) => Err(
                            crate::Error {
                                line_index: idx as usize,
                                error: ParseError::EventParamsParseError(e),
                            },
                        ),
                    }
                },
                Err(e) => Err(
                    crate::Error {
                        line_index: idx as usize,
                        error: ParseError::StoryboardObjectParseError(e),
                    },
                ),
            }
        }
    }
}

/// Reading of the section, one line at a time from `lines[0]`, with `idx`
/// the physical line number of that line and `acc` the events read so
/// far.
pub open spec fn spec_parse_events_loop(
    lines: Seq<Seq<char>>,
    idx: int,
    v: int,
    acc: Seq<EventV>,
) -> Result<Seq<EventV>, crate::Error<ParseError>>
    decreases lines.len(),
{
    if lines.len() == 0 {
        Ok(acc)
    } else {
        match spec_process_line(spec_strip_cr(lines[0]), idx, v, acc) {
            Ok(a2) => spec_parse_events_loop(lines.drop_first(), idx + 1, v, a2),
            Err(e) => Err(e),
        }
    }
}

/// Reading of a whole section text at a version.
pub open spec fn spec_parse_events(s: Seq<char>, v: int) -> Result<
    Seq<EventV>,
    crate::Error<ParseError>,
> {
    spec_parse_events_loop(crate::text::spec_split(s, '\n'), 0, v, Seq::<EventV>::empty())
}

/// The text of each event at a version, or nothing when one of them has
/// no form there.
pub open spec fn spec_render_each(evs: Seq<EventV>, v: int) -> Option<Seq<Seq<char>>>
    decreases evs.len(),
{
    if evs.len() == 0 {
        Some(Seq::<Seq<char>>::empty())
    } else {
        match (spec_render_event(evs[0], v), spec_render_each(evs.drop_first(), v)) {
            (Some(h), Some(t)) => Some(seq![h] + t),
            _ => None,
        }
    }
}

/// The whole section text at a version: every event's text joined with
/// line breaks, or nothing when some event has no form at this version.
pub open spec fn spec_render_events(evs: Seq<EventV>, v: int) -> Option<Seq<char>> {
    match spec_render_each(evs, v) {
        Some(l) => Some(crate::text::spec_join(l, '\n')),
        None => None,
    }
}

/// Exec test for [`spec_is_blank`].
fn is_blank(s: &[char]) -> (b: bool)
    ensures
        b == spec_is_blank(s@),
{
    let n = s.len();
    let mut i: usize = 0;
    while i < n
        invariant
            i <= n,
            n == s@.len(),
            forall|j: int| 0 <= j < i ==> #[trigger] s@[j] == ' ' || s@[j] == '\t',
        decreases n - i,
    {
        let c = s[i];
        if c != ' ' && c != '\t' {
            return false;
        }
        i += 1;
    }
    true
}

/// Exec mirror of [`spec_indent_len`].
fn count_indent(s: &[char]) -> (r: usize)
    ensures
        r == spec_indent_len(s@),
        r <= s@.len(),
{
    let n = s.len();
    let mut i: usize = 0;
    proof {
        assert(s@.skip(0) =~= s@);
    }
    while i < n
        invariant
            i <= n,
            n == s@.len(),
            spec_indent_len(s@) == i + spec_indent_len(s@.skip(i as int)),
        decreases n - i,
    {
        let c = s[i];
        if c != ' ' && c != '_' {
            proof {
                assert(s@.skip(i as int)[0] == s@[i as int]);
            }
            return i;
        }
        proof {
            assert(s@.skip(i as int)[0] == s@[i as int]);
            assert(s@.skip(i as int).drop_first() =~= s@.skip(i + 1));
        }
        i += 1;
    }
    proof {
        assert(s@.skip(n as int).len() == 0);
    }
    n
}

} // verus!

verus! {

/// Processes one line (carriage return already stripped), exactly as
/// [`spec_process_line`] says, growing `events` on success.
#[verifier::rlimit(100)]
fn process_line(events: &mut Vec<Event>, line: &[char], idx: usize, version: Version) -> (r: Result<
    (),
    crate::Error<ParseError>,
>)
    ensures
        ({
            let spec = spec_process_line(line@, idx as int, version as int, events_view(
                old(events)@,
            ));
            match r {
                Ok(()) => spec == Ok::<_, crate::Error<ParseError>>(events_view(final(events)@)),
                Err(e) => spec == Err::<Seq<EventV>, _>(e),
            }
        }),
{
    let ghost accv = events_view(events@);
    if is_blank(line) {
        return Ok(());
    }
    proof {
        assert(line@.skip(0) =~= line@);
    }
    if crate::text::has_prefix(line, 0, "//") {
        let n2 = line.len();
        proof {
            reveal_strlit("//");
        }
        let body = vstd::slice::slice_subrange(line, 2, n2);
        let text = crate::text::chars_to_string(&vstd::slice::slice_to_vec(body));
        let ev = Event::Comment(text);
        proof {
            lemma_events_view_push(events@, ev);
            assert(event_view(ev)->Comment_0 =~= line@.skip(2));
        }
        events.push(ev);
        return Ok(());
    }
    let ind = count_indent(line);
    if ind > 0 {
        let nev = events.len();
        proof {
            lemma_events_view_index(events@);
        }
        if nev == 0 {
            return Err(
                crate::Error { line_index: idx, error: ParseError::StoryboardCmdWithNoSprite },
            );
        }
        let last_is_sb = match &events[nev - 1] {
            Event::Storyboard(_) => true,
            _ => false,
        };
        if !last_is_sb {
            proof {
                assert(accv.last() == event_view(events@[nev - 1]));
            }
            return Err(
                crate::Error { line_index: idx, error: ParseError::StoryboardCmdWithNoSprite },
            );
        }
        let n2 = line.len();
        let body = vstd::slice::slice_subrange(line, ind, n2);
        proof {
            assert(body@ =~= line@.skip(ind as int));
        }
        let cmd = match storyboard::cmds::Command::parse(body) {
            Err(e) => {
                return Err(crate::Error { line_index: idx, error: ParseError::CommandParseError(e) });
            },
            Ok(c) => c,
        };
        let ghost cmdv = storyboard::cmds::cmd_view(cmd);
        let ghost pre_vec = events@;
        let last = events.pop().unwrap();
        proof {
            lemma_events_view_index(pre_vec);
            lemma_events_view_index(events@);
            assert forall|k: int| 0 <= k < events@.len() implies events_view(events@)[k]
                == accv[k] by {
                assert(events@[k] == pre_vec[k]);
            }
        }
        match last {
            Event::Storyboard(mut o) => {
                let ghost ov = storyboard::sprites::object_view(o);
                proof {
                    assert(accv.last() == event_view(Event::Storyboard(o)));
                }
                match o.try_push_cmd(cmd, ind) {
                    Err(e) => {
                        return Err(
                            crate::Error { line_index: idx, error: ParseError::CommandPushError(e) },
                        );
                    },
                    Ok(()) => {
                        let ev = Event::Storyboard(o);
                        proof {
                            lemma_events_view_push(events@, ev);
                            assert(events@.push(ev).len() == nev);
                            assert(events_view(events@.push(ev)) =~= accv.update(
                                nev - 1,
                                event_view(ev),
                            ));
                            assert(event_view(ev) == EventV::Storyboard(
                                storyboard::sprites::ObjectV {
                                    commands: storyboard::sprites::spec_push_at(
                                        ov.commands,
                                        cmdv,
                                        ind as nat,
                                    ),
                                    ..ov
                                },
                            ));
                        }
                        events.push(ev);
                        return Ok(());
                    },
                }
            },
            other => {
                proof {
                    assert(false);
                }
                events.push(other);
                return Err(
                    crate::Error { line_index: idx, error: ParseError::StoryboardCmdWithNoSprite },
                );
            },
        }
    }
    let legacy = version_policy(version).legacy_enums;
    match storyboard::sprites::Object::parse(line, legacy) {
        Ok(o) => {
            let ev = Event::Storyboard(o);
            proof {
                lemma_events_view_push(events@, ev);
            }
            events.push(ev);
            Ok(())
        },
        Err(storyboard::error::ObjectParseError::UnknownObjectType) => {
            match parse_normal_event(line, version) {
                Ok(p) => {
                    let ev = Event::NormalEvent { start_time: p.0, event_params: p.1 };
                    proof {
                        lemma_events_view_push(events@, ev);
                    }
                    events.push(ev);
                    Ok(())
                },
                Err(e) => Err(
                    crate::Error { line_index: idx, error: ParseError::EventParamsParseError(e) },
                ),
            }
        },
        Err(e) => Err(
            crate::Error { line_index: idx, error: ParseError::StoryboardObjectParseError(e) },
        ),
    }
}

impl Events {
    /// Reads a whole events section at a version, exactly as
    /// [`spec_parse_events`] says. A single malformed line fails the whole
    /// section with that line's number.
    pub fn from_str(s: &str, version: Version) -> (r: Result<
        Option<Events>,
        crate::Error<ParseError>,
    >)
        ensures
            ({
                let spec = spec_parse_events(s@, version as int);
                match r {
                    Ok(es_opt) => es_opt matches Some(es) && spec == Ok::<_, crate::Error<ParseError>>(
                        events_view(es.0@),
                    ),
                    Err(e) => spec == Err::<Seq<EventV>, _>(e),
                }
            }),
    {
        let chars = crate::text::str_to_chars(s);
        let lines = crate::text::split_chars(chars.as_slice(), '\n');
        let ghost linesv = crate::text::spec_split(s@, '\n');
        let nlines = lines.len();
        proof {
            assert(crate::text::field_views(lines@) == linesv);
            assert(linesv.len() == nlines);
        }
        let ghost goal = spec_parse_events(s@, version as int);
        let mut events: Vec<Event> = Vec::new();
        let mut i: usize = 0;
        proof {
            assert(linesv.skip(0) =~= linesv);
            assert(events_view(events@) == Seq::<EventV>::empty());
        }
        while i < nlines
            invariant
                i <= nlines,
                nlines == lines@.len(),
                linesv == crate::text::field_views(lines@),
                linesv.len() == nlines,
                goal == spec_parse_events_loop(
                    linesv.skip(i as int),
                    i as int,
                    version as int,
                    events_view(events@),
                ),
                goal == spec_parse_events(s@, version as int),
            decreases nlines - i,
        {
            proof {
                assert(linesv.skip(i as int)[0] == linesv[i as int]);
                assert(linesv[i as int] == lines@[i as int]@);
                assert(linesv.skip(i as int).drop_first() =~= linesv.skip(i + 1));
            }
            let rawline = &lines[i];
            let rawlen = rawline.len();
            let stripped: &[char] = if rawlen > 0 && rawline[rawlen - 1] == '\r' {
                let sl = vstd::slice::slice_subrange(rawline.as_slice(), 0, rawlen - 1);
                proof {
                    assert(sl@ =~= spec_strip_cr(lines@[i as int]@));
                }
                sl
            } else {
                let sl = rawline.as_slice();
                proof {
                    assert(sl@ =~= spec_strip_cr(lines@[i as int]@));
                }
                sl
            };
            match process_line(&mut events, stripped, i, version) {
                Err(e) => {
                    return Err(e);
                },
                Ok(()) => {},
            }
            i += 1;
        }
        proof {
            assert(linesv.skip(nlines as int).len() == 0);
        }
        Ok(Some(Events(events)))
    }

    /// The whole section text at a version, or nothing when some event has
    /// no form there, exactly as [`spec_render_events`] says.
    pub fn to_string(&self, version: Version) -> (r: Option<String>)
        ensures
            ({
                let spec = spec_render_events(events_view(self.0@), version as int);
                match r {
                    Some(t) => spec == Some(t@),
                    None => spec is None,
                }
            }),
    {
        let ghost evs = events_view(self.0@);
        let n = self.0.len();
        let mut parts: Vec<Vec<char>> = Vec::new();
        let mut i: usize = 0;
        proof {
            lemma_events_view_index(self.0@);
            assert(evs.skip(0) =~= evs);
            assert(crate::text::field_views(parts@) =~= Seq::<Seq<char>>::empty());
        }
        while i < n
            invariant
                i <= n,
                n == self.0@.len(),
                evs == events_view(self.0@),
                evs.len() == n,
                forall|k: int| 0 <= k < n ==> evs[k] == event_view(#[trigger] self.0@[k]),
                spec_render_each(evs, version as int) == match spec_render_each(
                    evs.skip(i as int),
                    version as int,
                ) {
                    Some(t) => Some(crate::text::field_views(parts@) + t),
                    None => None::<Seq<Seq<char>>>,
                },
            decreases n - i,
        {
            proof {
                assert(evs.skip(i as int)[0] == evs[i as int]);
                assert(evs.skip(i as int).drop_first() =~= evs.skip(i + 1));
            }
            match render_event(&self.0[i], version) {
                None => {
                    return None;
                },
                Some(part) => {
                    proof {
                        let ghost pv = crate::text::field_views(parts@);
                        assert(crate::text::field_views(parts@.push(part)) =~= pv.push(part@));
                        match spec_render_each(evs.skip(i + 1), version as int) {
                            Some(t) => {
                                assert(pv + (seq![part@] + t) =~= pv.push(part@) + t);
                            },
                            None => {},
                        }
                    }
                    parts.push(part);
                },
            }
            i += 1;
        }
        proof {
            assert(evs.skip(n as int).len() == 0);
            assert(spec_render_each(evs.skip(n as int), version as int)
                == Some(Seq::<Seq<char>>::empty()));
            assert(crate::text::field_views(parts@) + Seq::<Seq<char>>::empty() =~= crate::text::field_views(
                parts@,
            ));
        }
        let mut out: Vec<char> = Vec::new();
        crate::text::push_joined(parts.as_slice(), '\n', &mut out);
        Some(crate::text::chars_to_string(&out))
    }

    /// The empty section a fresh file starts with.
    pub fn default(_version: Version) -> (r: Option<Events>)
        ensures
            r matches Some(e) && e.0@.len() == 0,
    {
        Some(Events(Vec::new()))
    }
}

} // verus!

verus! {

/// The conditions under which an event's rendered text reads back as
/// exactly the event: the event is a comment or normal event whose text
/// fields hold no field or line separators, whose trailing field does not
/// end in a carriage return, and whose position obeys the version's
/// materialization rule. Every event the parser itself produces from
/// serializer output satisfies them.
pub open spec fn spec_event_round_trippable(e: EventV, v: int) -> bool {
    match e {
        EventV::Comment(s) => crate::text::has_no_char(s, '\n') && (s.len() > 0 ==> s.last()
            != '\r'),
        EventV::NormalEvent { start_time, event_params } => match event_params {
            EventParamsV::Background(b) => crate::text::has_no_char(b.filename, ',')
                && crate::text::has_no_char(b.filename, '\n') && (spec_version_position_always(v)
                ==> b.position is Some) && (b.position is None ==> (b.filename.len() > 0
                ==> b.filename.last() != '\r')),
            EventParamsV::Video(vd) => crate::text::has_no_char(vd.filename, ',')
                && crate::text::has_no_char(vd.filename, '\n') && (spec_version_position_always(v)
                ==> vd.position is Some) && (vd.position is None ==> (vd.filename.len() > 0
                ==> vd.filename.last() != '\r')),
            EventParamsV::Break(_) => true,
            EventParamsV::ColourTransformation(_) => true,
        },
        EventV::Storyboard(_) => false,
    }
}

/// A rendered signed number holds no separator and no carriage return.
proof fn lemma_int_chars_clean(i: int)
    ensures
        crate::text::has_no_char(crate::numbers::spec_int_chars(i), ','),
        crate::text::has_no_char(crate::numbers::spec_int_chars(i), '\n'),
        crate::numbers::spec_int_chars(i).len() > 0,
        crate::numbers::spec_int_chars(i).last() != '\r',
{
    crate::numbers::lemma_int_chars_shape(i);
    let s = crate::numbers::spec_int_chars(i);
    assert forall|k: int| 0 <= k < s.len() implies #[trigger] s[k] != ',' by {
        assert(crate::numbers::is_digit(s[k]) || s[k] == '-');
    }
    assert forall|k: int| 0 <= k < s.len() implies #[trigger] s[k] != '\n' by {
        assert(crate::numbers::is_digit(s[k]) || s[k] == '-');
    }
    assert(crate::numbers::is_digit(s[s.len() - 1]) || s[s.len() - 1] == '-');
}

/// A rendered unsigned number holds no separator and no carriage return.
proof fn lemma_nat_chars_clean(n: nat)
    ensures
        crate::text::has_no_char(crate::numbers::spec_nat_chars(n), ','),
        crate::text::has_no_char(crate::numbers::spec_nat_chars(n), '\n'),
        crate::numbers::spec_nat_chars(n).len() > 0,
        crate::numbers::spec_nat_chars(n).last() != '\r',
{
    crate::numbers::lemma_nat_chars_val(n);
    let s = crate::numbers::spec_nat_chars(n);
    assert forall|k: int| 0 <= k < s.len() implies #[trigger] s[k] != ',' by {
        assert(crate::numbers::is_digit(s[k]));
    }
    assert forall|k: int| 0 <= k < s.len() implies #[trigger] s[k] != '\n' by {
        assert(crate::numbers::is_digit(s[k]));
    }
    assert(crate::numbers::is_digit(s[s.len() - 1]));
}


/// Three fields joined, written out.
proof fn lemma_join3(a: Seq<char>, b: Seq<char>, c: Seq<char>, sep: char)
    ensures
        crate::text::spec_join(seq![a, b, c], sep) =~= a + seq![sep] + b + seq![sep] + c,
{
    let fs = seq![a, b, c];
    assert(fs.drop_first() =~= seq![b, c]);
    assert(seq![b, c].drop_first() =~= seq![c]);
    assert(crate::text::spec_join(seq![c], sep) == c);
    assert(crate::text::spec_join(seq![b, c], sep) == b + seq![sep] + c);
    assert(crate::text::spec_join(fs, sep) == a + seq![sep] + (b + seq![sep] + c));
}

/// Five fields joined, written out.
proof fn lemma_join5(a: Seq<char>, b: Seq<char>, c: Seq<char>, d: Seq<char>, e: Seq<char>, sep: char)
    ensures
        crate::text::spec_join(seq![a, b, c, d, e], sep) =~= a + seq![sep] + b + seq![sep] + c
            + seq![sep] + d + seq![sep] + e,
{
    let fs = seq![a, b, c, d, e];
    assert(fs.drop_first() =~= seq![b, c, d, e]);
    assert(seq![b, c, d, e].drop_first() =~= seq![c, d, e]);
    assert(seq![c, d, e].drop_first() =~= seq![d, e]);
    assert(seq![d, e].drop_first() =~= seq![e]);
    assert(crate::text::spec_join(seq![e], sep) == e);
    assert(crate::text::spec_join(seq![d, e], sep) == d + seq![sep] + e);
    assert(crate::text::spec_join(seq![c, d, e], sep) == c + seq![sep] + (d + seq![sep] + e));
    assert(crate::text::spec_join(seq![b, c, d, e], sep) == b + seq![sep] + (c + seq![sep] + (d
        + seq![sep] + e)));
    assert(crate::text::spec_join(fs, sep) == a + seq![sep] + (b + seq![sep] + (c + seq![sep] + (d
        + seq![sep] + e))));
}

/// What a round-trippable normal event's line reads back as, and the line
/// shape facts the stream level needs.
#[verifier::rlimit(100)]
proof fn lemma_rt_normal_event(st: Integer, p: EventParamsV, v: int)
    requires
        spec_event_round_trippable(EventV::NormalEvent { start_time: st, event_params: p }, v),
        spec_render_normal_event(st, p, v) is Some,
    ensures
        ({
            let line = spec_render_normal_event(st, p, v)->Some_0;
            &&& spec_parse_normal_event(line, v) == Ok::<_, EventParamsParseError>((st, p))
            &&& crate::text::has_no_char(line, '\n')
            &&& spec_strip_cr(line) == line
            &&& !spec_is_blank(line)
            &&& !crate::text::spec_starts_with(line, "//"@)
            &&& spec_indent_len(line) == 0
            &&& storyboard::sprites::spec_parse_object(line, spec_version_legacy_enums(v)) == Err::<
                storyboard::sprites::ObjectV,
                _,
            >(storyboard::error::ObjectParseError::UnknownObjectType)
        }),
{
    reveal_strlit("0");
    reveal_strlit("1");
    reveal_strlit("Video");
    reveal_strlit("2");
    reveal_strlit("Break");
    reveal_strlit("3");
    reveal_strlit("//");
    reveal_strlit("Sprite");
    reveal_strlit("Animation");
    let line = spec_render_normal_event(st, p, v)->Some_0;
    let fields = match p {
        EventParamsV::Background(b) => {
            let head = seq!["0"@, crate::numbers::spec_int_chars(st as int), b.filename];
            match b.position {
                Some(pos) => head + seq![
                    crate::numbers::spec_int_chars(pos.x as int),
                    crate::numbers::spec_int_chars(pos.y as int),
                ],
                None => head,
            }
        },
        EventParamsV::Video(vd) => {
            let t = spec_unoffset_time(st, v)->Some_0;
            let head = seq![
                if vd.short_hand {
                    "1"@
                } else {
                    "Video"@
                },
                crate::numbers::spec_int_chars(t as int),
                vd.filename,
            ];
            match vd.position {
                Some(pos) => head + seq![
                    crate::numbers::spec_int_chars(pos.x as int),
                    crate::numbers::spec_int_chars(pos.y as int),
                ],
                None => head,
            }
        },
        EventParamsV::Break(bk) => seq![
            if bk.short_hand {
                "2"@
            } else {
                "Break"@
            },
            crate::numbers::spec_int_chars(spec_unoffset_time(st, v)->Some_0 as int),
            crate::numbers::spec_int_chars(spec_unoffset_time(bk.end_time, v)->Some_0 as int),
        ],
        EventParamsV::ColourTransformation(c) => seq![
            "3"@,
            crate::numbers::spec_int_chars(spec_unoffset_time(st, v)->Some_0 as int),
            crate::numbers::spec_nat_chars(c.red as nat),
            crate::numbers::spec_nat_chars(c.green as nat),
            crate::numbers::spec_nat_chars(c.blue as nat),
        ],
    };
    // the rendered line is the fields joined with commas
    assert(fields.len() == 3 || fields.len() == 5);
    if fields.len() == 3 {
        lemma_join3(fields[0], fields[1], fields[2], ',');
        assert(fields =~= seq![fields[0], fields[1], fields[2]]);
    } else {
        lemma_join5(fields[0], fields[1], fields[2], fields[3], fields[4], ',');
        assert(fields =~= seq![fields[0], fields[1], fields[2], fields[3], fields[4]]);
    }
    assert(line =~= crate::text::spec_join(fields, ','));
    // no field holds a comma or a line break
    assert forall|k: int| 0 <= k < fields.len() implies crate::text::has_no_char(
        #[trigger] fields[k],
        ',',
    ) by {
        lemma_int_chars_clean(0);
        match p {
            EventParamsV::Background(b) => {
                lemma_int_chars_clean(st as int);
                if b.position is Some {
                    lemma_int_chars_clean(b.position->Some_0.x as int);
                    lemma_int_chars_clean(b.position->Some_0.y as int);
                }
            },
            EventParamsV::Video(vd) => {
                lemma_int_chars_clean(spec_unoffset_time(st, v)->Some_0 as int);
                if vd.position is Some {
                    lemma_int_chars_clean(vd.position->Some_0.x as int);
                    lemma_int_chars_clean(vd.position->Some_0.y as int);
                }
            },
            EventParamsV::Break(bk) => {
                lemma_int_chars_clean(spec_unoffset_time(st, v)->Some_0 as int);
                lemma_int_chars_clean(spec_unoffset_time(bk.end_time, v)->Some_0 as int);
            },
            EventParamsV::ColourTransformation(c) => {
                lemma_int_chars_clean(spec_unoffset_time(st, v)->Some_0 as int);
                lemma_nat_chars_clean(c.red as nat);
                lemma_nat_chars_clean(c.green as nat);
                lemma_nat_chars_clean(c.blue as nat);
            },
        }
    }
    assert forall|k: int| 0 <= k < fields.len() implies crate::text::has_no_char(
        #[trigger] fields[k],
        '\n',
    ) by {
        lemma_int_chars_clean(0);
        match p {
            EventParamsV::Background(b) => {
                lemma_int_chars_clean(st as int);
                if b.position is Some {
                    lemma_int_chars_clean(b.position->Some_0.x as int);
                    lemma_int_chars_clean(b.position->Some_0.y as int);
                }
            },
            EventParamsV::Video(vd) => {
                lemma_int_chars_clean(spec_unoffset_time(st, v)->Some_0 as int);
                if vd.position is Some {
                    lemma_int_chars_clean(vd.position->Some_0.x as int);
                    lemma_int_chars_clean(vd.position->Some_0.y as int);
                }
            },
            EventParamsV::Break(bk) => {
                lemma_int_chars_clean(spec_unoffset_time(st, v)->Some_0 as int);
                lemma_int_chars_clean(spec_unoffset_time(bk.end_time, v)->Some_0 as int);
            },
            EventParamsV::ColourTransformation(c) => {
                lemma_int_chars_clean(spec_unoffset_time(st, v)->Some_0 as int);
                lemma_nat_chars_clean(c.red as nat);
                lemma_nat_chars_clean(c.green as nat);
                lemma_nat_chars_clean(c.blue as nat);
            },
        }
    }
    crate::text::lemma_join_split(fields, ',');
    assert(crate::text::spec_split(line, ',') == fields);
    // the parse walks back to the same event
    match p {
        EventParamsV::Background(b) => {
            crate::numbers::lemma_int_chars_parse(st as int);
            if b.position is Some {
                crate::numbers::lemma_int_chars_parse(b.position->Some_0.x as int);
                crate::numbers::lemma_int_chars_parse(b.position->Some_0.y as int);
            }
            assert(spec_parse_normal_event(line, v) == Ok::<_, EventParamsParseError>((st, p)));
        },
        EventParamsV::Video(vd) => {
            let t = spec_unoffset_time(st, v)->Some_0;
            crate::numbers::lemma_int_chars_parse(t as int);
            assert(fields[0] != "0"@);
            assert(spec_offset_time(t, v) == Some(st));
            if vd.position is Some {
                crate::numbers::lemma_int_chars_parse(vd.position->Some_0.x as int);
                crate::numbers::lemma_int_chars_parse(vd.position->Some_0.y as int);
            }
            assert(spec_parse_normal_event(line, v) == Ok::<_, EventParamsParseError>((st, p)));
        },
        EventParamsV::Break(bk) => {
            let t = spec_unoffset_time(st, v)->Some_0;
            let e = spec_unoffset_time(bk.end_time, v)->Some_0;
            crate::numbers::lemma_int_chars_parse(t as int);
            crate::numbers::lemma_int_chars_parse(e as int);
            assert(fields[0] != "0"@);
            assert(fields[0] != "1"@ && fields[0] != "Video"@);
            assert(spec_offset_time(t, v) == Some(st));
            assert(spec_offset_time(e, v) == Some(bk.end_time));
            assert(spec_parse_normal_event(line, v) == Ok::<_, EventParamsParseError>((st, p)));
        },
        EventParamsV::ColourTransformation(c) => {
            let t = spec_unoffset_time(st, v)->Some_0;
            crate::numbers::lemma_int_chars_parse(t as int);
            crate::numbers::lemma_nat_chars_parse(c.red as nat);
            crate::numbers::lemma_nat_chars_parse(c.green as nat);
            crate::numbers::lemma_nat_chars_parse(c.blue as nat);
            assert(fields[0] != "0"@);
            assert(fields[0] != "1"@ && fields[0] != "Video"@);
            assert(fields[0] != "2"@ && fields[0] != "Break"@);
            assert(spec_offset_time(t, v) == Some(st));
            assert(spec_parse_normal_event(line, v) == Ok::<_, EventParamsParseError>((st, p)));
        },
    }
    // line shape facts
    assert(fields[0].len() > 0);
    assert(line[0] == fields[0][0]) by {
        assert(line == crate::text::spec_join(fields, ','));
        assert(fields.len() > 1);
        assert(line =~= fields[0] + seq![','] + crate::text::spec_join(fields.drop_first(), ','));
    }
    assert(line[0] == '0' || line[0] == '1' || line[0] == 'V' || line[0] == '2' || line[0] == 'B'
        || line[0] == '3');
    assert(!spec_is_blank(line));
    assert(!crate::text::spec_starts_with(line, "//"@)) by {
        if crate::text::spec_starts_with(line, "//"@) {
            assert(line.take(2)[0] == line[0]);
        }
    }
    assert(spec_indent_len(line) == 0);
    assert(crate::text::has_no_char(line, '\n')) by {
        lemma_join_no_char(fields, ',', '\n');
    }
    assert(spec_strip_cr(line) == line) by {
        let lastf = fields[fields.len() - 1];
        lemma_join_last(fields, ',');
        if lastf.len() > 0 {
            assert(line.last() == lastf.last());
            assert(lastf.last() != '\r') by {
                match p {
                    EventParamsV::Background(b) => {
                        if b.position is Some {
                            lemma_int_chars_clean(b.position->Some_0.y as int);
                        }
                    },
                    EventParamsV::Video(vd) => {
                        if vd.position is Some {
                            lemma_int_chars_clean(vd.position->Some_0.y as int);
                        }
                    },
                    EventParamsV::Break(bk) => {
                        lemma_int_chars_clean(spec_unoffset_time(bk.end_time, v)->Some_0 as int);
                    },
                    EventParamsV::ColourTransformation(c) => {
                        lemma_nat_chars_clean(c.blue as nat);
                    },
                }
            }
        } else {
            assert(line.last() == ',');
        }
    }
    assert(storyboard::sprites::spec_parse_object(line, spec_version_legacy_enums(v)) == Err::<
        storyboard::sprites::ObjectV,
        _,
    >(storyboard::error::ObjectParseError::UnknownObjectType)) by {
        assert(fields[0] != "Sprite"@);
        assert(fields[0] != "Animation"@);
    }
}

/// Joining fields free of some character yields text free of it, when the
/// separator itself differs from it.
proof fn lemma_join_no_char(fields: Seq<Seq<char>>, sep: char, c: char)
    requires
        sep != c,
        forall|k: int| 0 <= k < fields.len() ==> crate::text::has_no_char(#[trigger] fields[k], c),
    ensures
        crate::text::has_no_char(crate::text::spec_join(fields, sep), c),
    decreases fields.len(),
{
    if fields.len() > 1 {
        lemma_join_no_char(fields.drop_first(), sep, c);
        let j = crate::text::spec_join(fields, sep);
        let rest = crate::text::spec_join(fields.drop_first(), sep);
        assert(j == fields[0] + seq![sep] + rest);
        assert forall|k: int| 0 <= k < j.len() implies #[trigger] j[k] != c by {
            if k < fields[0].len() {
                assert(j[k] == fields[0][k]);
            } else if k == fields[0].len() {
                assert(j[k] == sep);
            } else {
                assert(j[k] == rest[k - fields[0].len() - 1]);
            }
        }
    }
}

/// The last character of joined fields: the last field's last character,
/// or the separator when the last field is empty (with at least two
/// fields).
proof fn lemma_join_last(fields: Seq<Seq<char>>, sep: char)
    requires
        fields.len() >= 1,
    ensures
        ({
            let j = crate::text::spec_join(fields, sep);
            let lastf = fields[fields.len() - 1];
            if lastf.len() > 0 {
                j.len() > 0 && j.last() == lastf.last()
            } else {
                fields.len() == 1 ==> j.len() == 0
            }
        }),
        fields.len() > 1 && fields[fields.len() - 1].len() == 0 ==> crate::text::spec_join(
            fields,
            sep,
        ).len() > 0 && crate::text::spec_join(fields, sep).last() == sep,
    decreases fields.len(),
{
    if fields.len() > 1 {
        lemma_join_last(fields.drop_first(), sep);
        let j = crate::text::spec_join(fields, sep);
        let rest = crate::text::spec_join(fields.drop_first(), sep);
        assert(j == fields[0] + seq![sep] + rest);
        assert(fields.drop_first()[fields.drop_first().len() - 1] == fields[fields.len() - 1]);
        if rest.len() > 0 {
            assert(j.last() == rest.last());
        } else {
            assert(j.last() == sep);
        }
    }
}

} // verus!

verus! {

/// What one round-trippable event's text does when processed as a line.
proof fn lemma_rt_process_line(e: EventV, v: int, idx: int, acc: Seq<EventV>)
    requires
        spec_event_round_trippable(e, v),
        spec_render_event(e, v) is Some,
    ensures
        ({
            let line = spec_render_event(e, v)->Some_0;
            &&& crate::text::has_no_char(line, '\n')
            &&& spec_process_line(spec_strip_cr(line), idx, v, acc) == Ok::<
                _,
                crate::Error<ParseError>,
            >(acc.push(e))
        }),
{
    reveal_strlit("//");
    reveal_strlit("Sprite");
    reveal_strlit("Animation");
    let line = spec_render_event(e, v)->Some_0;
    match e {
        EventV::Comment(s) => {
            assert(line == "//"@ + s);
            assert(line.len() >= 2);
            assert(line[0] == '/');
            assert(line[1] == '/');
            assert(spec_strip_cr(line) == line) by {
                if s.len() > 0 {
                    assert(line.last() == s.last());
                } else {
                    assert(line.last() == '/');
                }
            }
            assert(!spec_is_blank(line));
            assert(crate::text::spec_starts_with(line, "//"@)) by {
                assert(line.take(2) =~= "//"@);
            }
            assert(line.skip(2) =~= s);
            assert(crate::text::has_no_char(line, '\n')) by {
                assert forall|k: int| 0 <= k < line.len() implies #[trigger] line[k] != '\n' by {
                    if k >= 2 {
                        assert(line[k] == s[k - 2]);
                    }
                }
            }
        },
        EventV::NormalEvent { start_time, event_params } => {
            lemma_rt_normal_event(start_time, event_params, v);
        },
        EventV::Storyboard(_) => {
            assert(false);
        },
    }
}

/// The loop of the stream parser, fed the rendered lines of round-trippable
/// events, appends exactly those events.
#[verifier::rlimit(100)]
proof fn lemma_rt_loop(evs: Seq<EventV>, v: int, idx: int, acc: Seq<EventV>)
    requires
        forall|i: int| 0 <= i < evs.len() ==> spec_event_round_trippable(#[trigger] evs[i], v),
        spec_render_each(evs, v) is Some,
    ensures
        spec_parse_events_loop(spec_render_each(evs, v)->Some_0, idx, v, acc) == Ok::<
            _,
            crate::Error<ParseError>,
        >(acc + evs),
    decreases evs.len(),
{
    let parts = spec_render_each(evs, v)->Some_0;
    if evs.len() == 0 {
        assert(parts.len() == 0);
        assert(acc + evs =~= acc);
    } else {
        assert(spec_render_event(evs[0], v) is Some);
        let line = spec_render_event(evs[0], v)->Some_0;
        let rest = spec_render_each(evs.drop_first(), v)->Some_0;
        assert(parts == seq![line] + rest);
        assert(parts[0] == line);
        assert(parts.drop_first() =~= rest);
        lemma_rt_process_line(evs[0], v, idx, acc);
        lemma_rt_loop(evs.drop_first(), v, idx + 1, acc.push(evs[0]));
        assert(acc.push(evs[0]) + evs.drop_first() =~= acc + evs);
    }
}

/// Round trip of the engine's own output: a section text produced by the
/// serializer from comment and shorthand events reads back, at the same
/// version, as exactly the events it was produced from. The requirements
/// name the representational conditions every parser-produced event
/// satisfies: text fields free of separators, no trailing carriage
/// return, and a position materialized whenever the version demands one.
pub proof fn lemma_events_round_trip(evs: Seq<EventV>, v: int)
    requires
        forall|i: int| 0 <= i < evs.len() ==> spec_event_round_trippable(#[trigger] evs[i], v),
        spec_render_events(evs, v) is Some,
    ensures
        spec_parse_events(spec_render_events(evs, v)->Some_0, v) == Ok::<
            _,
            crate::Error<ParseError>,
        >(evs),
{
    let parts = spec_render_each(evs, v)->Some_0;
    let text = spec_render_events(evs, v)->Some_0;
    assert(text == crate::text::spec_join(parts, '\n'));
    if evs.len() == 0 {
        assert(evs =~= Seq::<EventV>::empty());
        assert(parts.len() == 0);
        assert(text =~= Seq::<char>::empty());
        let lines = crate::text::spec_split(text, '\n');
        assert(lines =~~= seq![Seq::<char>::empty()]);
        assert(spec_strip_cr(lines[0]) =~= Seq::<char>::empty());
        assert(spec_is_blank(Seq::<char>::empty()));
        assert(lines.drop_first() =~= Seq::<Seq<char>>::empty());
        assert(spec_process_line(spec_strip_cr(lines[0]), 0, v, Seq::<EventV>::empty()) == Ok::<
            _,
            crate::Error<ParseError>,
        >(Seq::<EventV>::empty()));
        assert(spec_parse_events_loop(lines.drop_first(), 1, v, Seq::<EventV>::empty()) == Ok::<
            _,
            crate::Error<ParseError>,
        >(Seq::<EventV>::empty()));
        assert(spec_parse_events(text, v) == Ok::<_, crate::Error<ParseError>>(
            Seq::<EventV>::empty(),
        ));
    } else {
        assert forall|k: int| 0 <= k < parts.len() implies crate::text::has_no_char(
            #[trigger] parts[k],
            '\n',
        ) by {
            lemma_rt_each_no_newline(evs, v, k);
        }
        assert(parts.len() == evs.len()) by {
            lemma_rt_each_len(evs, v);
        }
        crate::text::lemma_join_split(parts, '\n');
        assert(crate::text::spec_split(text, '\n') == parts);
        lemma_rt_loop(evs, v, 0, Seq::<EventV>::empty());
        assert(Seq::<EventV>::empty() + evs =~= evs);
        assert(spec_parse_events_loop(parts, 0, v, Seq::<EventV>::empty()) == Ok::<
            _,
            crate::Error<ParseError>,
        >(evs));
        assert(spec_parse_events(text, v) == spec_parse_events_loop(
            crate::text::spec_split(text, '\n'),
            0,
            v,
            Seq::<EventV>::empty(),
        ));
    }
}

/// The rendered parts are as many as the events.
proof fn lemma_rt_each_len(evs: Seq<EventV>, v: int)
    requires
        spec_render_each(evs, v) is Some,
    ensures
        spec_render_each(evs, v)->Some_0.len() == evs.len(),
    decreases evs.len(),
{
    if evs.len() > 0 {
        lemma_rt_each_len(evs.drop_first(), v);
    }
}

/// Each rendered part of round-trippable events holds no line break.
proof fn lemma_rt_each_no_newline(evs: Seq<EventV>, v: int, k: int)
    requires
        forall|i: int| 0 <= i < evs.len() ==> spec_event_round_trippable(#[trigger] evs[i], v),
        spec_render_each(evs, v) is Some,
        0 <= k < spec_render_each(evs, v)->Some_0.len(),
    ensures
        crate::text::has_no_char(spec_render_each(evs, v)->Some_0[k], '\n'),
    decreases evs.len(),
{
    let parts = spec_render_each(evs, v)->Some_0;
    assert(evs.len() > 0);
    let line = spec_render_event(evs[0], v)->Some_0;
    let rest = spec_render_each(evs.drop_first(), v)->Some_0;
    assert(parts == seq![line] + rest);
    if k == 0 {
        lemma_rt_process_line(evs[0], v, 0, Seq::<EventV>::empty());
        assert(parts[0] == line);
    } else {
        lemma_rt_each_no_newline(evs.drop_first(), v, k - 1);
        assert(parts[k] == rest[k - 1]);
    }
}

} // verus!

verus! {

/// Error of reading a legacy sprite event line.
#[derive(Clone, Copy, Debug, PartialEq, Eq, Structural)]
pub enum ParseSpriteLegacyError {
    WrongEventType,
    MissingLayer,
    InvalidLayer,
    MissingOrigin,
    InvalidOrigin,
    MissingFileName,
    MissingY,
    InvalidX,
    InvalidY,
}

/// A legacy sprite event, header token `4`: the storyboard sprite record
/// of the oldest format versions, spelt with numeric layer and origin
/// codes. Its commands are carried for programmatic construction; the
/// line itself prints without them.
#[derive(Debug, Hash, PartialEq, Eq)]
pub struct SpriteLegacy {
    pub layer: storyboard::sprites::Layer,
    pub origin: storyboard::sprites::Origin,
    pub file_name: String,
    pub position: Option<Position>,
    pub commands: Vec<storyboard::cmds::Command>,
}

/// Reading of a legacy sprite event line, header token `header`.
pub open spec fn spec_parse_legacy_sprite(s: Seq<char>, header: Seq<char>) -> Result<
    (storyboard::sprites::Layer, storyboard::sprites::Origin, Seq<char>, Option<Position>),
    ParseSpriteLegacyError,
> {
    let fields = crate::text::spec_split(s, ',');
    if fields[0] != header {
        Err(ParseSpriteLegacyError::WrongEventType)
    } else if fields.len() < 2 {
        Err(ParseSpriteLegacyError::MissingLayer)
    } else {
        match storyboard::sprites::spec_parse_layer(fields[1], true) {
            None => Err(ParseSpriteLegacyError::InvalidLayer),
            Some(layer) => if fields.len() < 3 {
                Err(ParseSpriteLegacyError::MissingOrigin)
            } else {
                match storyboard::sprites::spec_parse_origin(fields[2], true) {
                    None => Err(ParseSpriteLegacyError::InvalidOrigin),
                    Some(origin) => if fields.len() < 4 {
                        Err(ParseSpriteLegacyError::MissingFileName)
                    } else if fields.len() == 4 {
                        Ok((layer, origin, fields[3], None))
                    } else if fields.len() == 5 {
                        Err(ParseSpriteLegacyError::MissingY)
                    } else if fields.len() > 6 {
                        Err(ParseSpriteLegacyError::InvalidY)
                    } else {
                        match crate::numbers::spec_parse_i32(fields[4]) {
                            None => Err(ParseSpriteLegacyError::InvalidX),
                            Some(x) => match crate::numbers::spec_parse_i32(fields[5]) {
                                None => Err(ParseSpriteLegacyError::InvalidY),
                                Some(y) => Ok((layer, origin, fields[3], Some(Position { x, y }))),
                            },
                        }
                    },
                }
            },
        }
    }
}

/// The line of a legacy sprite event, header token `header`.
pub open spec fn spec_render_legacy_sprite(
    header: Seq<char>,
    layer: storyboard::sprites::Layer,
    origin: storyboard::sprites::Origin,
    file_name: Seq<char>,
    position: Option<Position>,
) -> Seq<char> {
    header + seq![','] + storyboard::sprites::spec_layer_code(layer) + seq![',']
        + storyboard::sprites::spec_origin_code(origin) + seq![','] + file_name + (match position {
        Some(p) => seq![','] + crate::numbers::spec_int_chars(p.x as int) + seq![',']
            + crate::numbers::spec_int_chars(p.y as int),
        None => Seq::<char>::empty(),
    })
}

/// Reads a legacy sprite-shaped line with the given header token, exactly
/// as [`spec_parse_legacy_sprite`] says.
#[verifier::rlimit(100)]
fn parse_legacy_sprite_line(line: &str, header: &str) -> (r: Result<
    (storyboard::sprites::Layer, storyboard::sprites::Origin, String, Option<Position>),
    ParseSpriteLegacyError,
>)
    ensures
        ({
            let spec = spec_parse_legacy_sprite(line@, header@);
            match r {
                Ok(p) => spec matches Ok(q) && q.0 == p.0 && q.1 == p.1 && q.2 == p.2@ && q.3
                    == p.3,
                Err(e) => spec == Err::<
                    (
                        storyboard::sprites::Layer,
                        storyboard::sprites::Origin,
                        Seq<char>,
                        Option<Position>,
                    ),
                    _,
                >(e),
            }
        }),
{
    let chars = crate::text::str_to_chars(line);
    let fields = crate::text::split_chars(chars.as_slice(), ',');
    let ghost fsv = crate::text::spec_split(line@, ',');
    let len = fields.len();
    proof {
        assert(crate::text::field_views(fields@) == fsv);
        assert(fsv[0] == fields@[0]@);
    }
    if !crate::text::chars_eq(fields[0].as_slice(), header) {
        return Err(ParseSpriteLegacyError::WrongEventType);
    }
    if len < 2 {
        return Err(ParseSpriteLegacyError::MissingLayer);
    }
    proof {
        assert(fsv[1] == fields@[1]@);
    }
    let layer = match storyboard::sprites::parse_layer(fields[1].as_slice(), true) {
        None => {
            return Err(ParseSpriteLegacyError::InvalidLayer);
        },
        Some(l) => l,
    };
    if len < 3 {
        return Err(ParseSpriteLegacyError::MissingOrigin);
    }
    proof {
        assert(fsv[2] == fields@[2]@);
    }
    let origin = match storyboard::sprites::parse_origin(fields[2].as_slice(), true) {
        None => {
            return Err(ParseSpriteLegacyError::InvalidOrigin);
        },
        Some(o) => o,
    };
    if len < 4 {
        return Err(ParseSpriteLegacyError::MissingFileName);
    }
    proof {
        assert(fsv[3] == fields@[3]@);
    }
    let file_name = crate::text::chars_to_string(&fields[3]);
    if len == 4 {
        return Ok((layer, origin, file_name, None));
    }
    if len == 5 {
        return Err(ParseSpriteLegacyError::MissingY);
    }
    if len > 6 {
        return Err(ParseSpriteLegacyError::InvalidY);
    }
    proof {
        assert(fsv[4] == fields@[4]@);
        assert(fsv[5] == fields@[5]@);
    }
    let x = match crate::numbers::parse_i32_chars(fields[4].as_slice()) {
        None => {
            return Err(ParseSpriteLegacyError::InvalidX);
        },
        Some(v) => v,
    };
    let y = match crate::numbers::parse_i32_chars(fields[5].as_slice()) {
        None => {
            return Err(ParseSpriteLegacyError::InvalidY);
        },
        Some(v) => v,
    };
    Ok((layer, origin, file_name, Some(Position { x, y })))
}

/// Appends a legacy sprite-shaped line to `out`.
fn push_legacy_sprite_line(
    header: &str,
    layer: &storyboard::sprites::Layer,
    origin: &storyboard::sprites::Origin,
    file_name: &str,
    position: &Option<Position>,
    out: &mut Vec<char>,
)
    ensures
        final(out)@ == old(out)@ + spec_render_legacy_sprite(
            header@,
            *layer,
            *origin,
            file_name@,
            *position,
        ),
{
    let h = crate::text::str_to_chars(header);
    crate::text::push_all(h.as_slice(), out);
    out.push(',');
    storyboard::sprites::push_layer_chars(layer, true, out);
    out.push(',');
    storyboard::sprites::push_origin_chars(origin, true, out);
    out.push(',');
    let f = crate::text::str_to_chars(file_name);
    crate::text::push_all(f.as_slice(), out);
    match position {
        Some(p) => {
            out.push(',');
            crate::numbers::push_i32_chars(p.x, out);
            out.push(',');
            crate::numbers::push_i32_chars(p.y, out);
        },
        None => {},
    }
    proof {
        assert(final(out)@ =~= old(out)@ + spec_render_legacy_sprite(
            header@,
            *layer,
            *origin,
            file_name@,
            *position,
        ));
    }
}

impl SpriteLegacy {
    /// Reads a `4,<layer>,<origin>,<filepath>[,<x>,<y>]` line, exactly as
    /// [`spec_parse_legacy_sprite`] says; a line with another header token
    /// is rejected as the wrong event type.
    pub fn from_str(s: &str, _version: Version) -> (r: Result<
        Option<SpriteLegacy>,
        ParseSpriteLegacyError,
    >)
        ensures
            ({
                let spec = spec_parse_legacy_sprite(s@, "4"@);
                match r {
                    Ok(sp_opt) => sp_opt matches Some(sp) && spec matches Ok(q) && sp.layer == q.0
                        && sp.origin == q.1 && sp.file_name@ == q.2 && sp.position == q.3
                        && sp.commands@.len() == 0,
                    Err(e) => spec == Err::<
                        (
                            storyboard::sprites::Layer,
                            storyboard::sprites::Origin,
                            Seq<char>,
                            Option<Position>,
                        ),
                        _,
                    >(e),
                }
            }),
    {
        match parse_legacy_sprite_line(s, "4") {
            Err(e) => Err(e),
            Ok(p) => Ok(
                Some(
                    SpriteLegacy {
                        layer: p.0,
                        origin: p.1,
                        file_name: p.2,
                        position: p.3,
                        commands: Vec::new(),
                    },
                ),
            ),
        }
    }

    /// The line of this event: header, numeric layer and origin codes,
    /// file name and the position when one is set.
    pub fn to_string(&self, _version: Version) -> (r: Option<String>)
        ensures
            r matches Some(t) && t@ == spec_render_legacy_sprite(
                "4"@,
                self.layer,
                self.origin,
                self.file_name@,
                self.position,
            ),
    {
        let mut out: Vec<char> = Vec::new();
        push_legacy_sprite_line(
            "4",
            &self.layer,
            &self.origin,
            self.file_name.as_str(),
            &self.position,
            &mut out,
        );
        Some(crate::text::chars_to_string(&out))
    }
}

/// A legacy animation event, header token `5`: as [`SpriteLegacy`], for
/// the frame-animated sprite record of the oldest format versions.
#[derive(Debug, Hash, PartialEq, Eq)]
pub struct AnimationLegacy {
    pub layer: storyboard::sprites::Layer,
    pub origin: storyboard::sprites::Origin,
    pub file_name: String,
    pub position: Option<Position>,
    pub commands: Vec<storyboard::cmds::Command>,
}

impl AnimationLegacy {
    /// Reads a `5,<layer>,<origin>,<filepath>[,<x>,<y>]` line, exactly as
    /// [`spec_parse_legacy_sprite`] says.
    pub fn from_str(s: &str, _version: Version) -> (r: Result<
        Option<AnimationLegacy>,
        ParseSpriteLegacyError,
    >)
        ensures
            ({
                let spec = spec_parse_legacy_sprite(s@, "5"@);
                match r {
                    Ok(sp_opt) => sp_opt matches Some(sp) && spec matches Ok(q) && sp.layer == q.0
                        && sp.origin == q.1 && sp.file_name@ == q.2 && sp.position == q.3
                        && sp.commands@.len() == 0,
                    Err(e) => spec == Err::<
                        (
                            storyboard::sprites::Layer,
                            storyboard::sprites::Origin,
                            Seq<char>,
                            Option<Position>,
                        ),
                        _,
                    >(e),
                }
            }),
    {
        match parse_legacy_sprite_line(s, "5") {
            Err(e) => Err(e),
            Ok(p) => Ok(
                Some(
                    AnimationLegacy {
                        layer: p.0,
                        origin: p.1,
                        file_name: p.2,
                        position: p.3,
                        commands: Vec::new(),
                    },
                ),
            ),
        }
    }

    /// The line of this event.
    pub fn to_string(&self, _version: Version) -> (r: Option<String>)
        ensures
            r matches Some(t) && t@ == spec_render_legacy_sprite(
                "5"@,
                self.layer,
                self.origin,
                self.file_name@,
                self.position,
            ),
    {
        let mut out: Vec<char> = Vec::new();
        push_legacy_sprite_line(
            "5",
            &self.layer,
            &self.origin,
            self.file_name.as_str(),
            &self.position,
            &mut out,
        );
        Some(crate::text::chars_to_string(&out))
    }
}

} // verus!
