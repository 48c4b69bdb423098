//! Storyboard object headers and the command tree they own.
//!
//! An object line reads
//! `Sprite,<layer>,<origin>,<filepath>,<x>,<y>` or
//! `Animation,<layer>,<origin>,<filepath>,<x>,<y>,<frame_count>,<frame_delay>,<loop_type>`.
//! Layers and origins are spelt with numeric codes at legacy versions and
//! with named identifiers later. Indented command lines attach to the
//! object through [`Object::try_push_cmd`], which walks the chain of open
//! containers with an explicit stack, and the serializer walks the finished
//! tree back into indented lines the same way.

use vstd::prelude::*;
use crate::Position;
use crate::decimal::Dec;
use crate::text::{chars_eq, str_to_chars, push_all};
use super::cmds::{
    Command, CommandProperties, CommandV, CommandPropertiesV, cmd_view, cmds_view,
    lemma_cmds_view_index, lemma_cmds_view_push, spec_cmd_line_wf, spec_render_command,
};
use super::error::{CommandPushError, FilePathNotRelative, ObjectField, ObjectParseError};

verus! {

/// The drawing layer of a storyboard object.
#[derive(Clone, Copy, Debug, Hash, PartialEq, Eq, Structural)]
pub enum Layer {
    Background,
    Fail,
    Pass,
    Foreground,
}

/// The anchor origin of a storyboard object.
#[derive(Clone, Copy, Debug, Hash, PartialEq, Eq, Structural)]
pub enum Origin {
    TopLeft,
    Centre,
    CentreLeft,
    TopRight,
    BottomCentre,
    TopCentre,
    Custom,
    CentreRight,
    BottomLeft,
    BottomRight,
}

/// How an animation repeats its frames.
#[derive(Clone, Copy, Debug, Hash, PartialEq, Eq, Structural)]
pub enum LoopType {
    LoopForever,
    LoopOnce,
}

/// The named spelling of a layer.
pub open spec fn spec_layer_word(l: Layer) -> Seq<char> {
    match l {
        Layer::Background => "Background"@,
        Layer::Fail => "Fail"@,
        Layer::Pass => "Pass"@,
        Layer::Foreground => "Foreground"@,
    }
}

/// The legacy numeric spelling of a layer.
pub open spec fn spec_layer_code(l: Layer) -> Seq<char> {
    match l {
        Layer::Background => "0"@,
        Layer::Fail => "1"@,
        Layer::Pass => "2"@,
        Layer::Foreground => "3"@,
    }
}

/// The spelling of a layer at a version.
pub open spec fn spec_render_layer(l: Layer, legacy: bool) -> Seq<char> {
    if legacy {
        spec_layer_code(l)
    } else {
        spec_layer_word(l)
    }
}

/// Reading of a layer field at a version: only the version's own spelling
/// is accepted.
pub open spec fn spec_parse_layer(s: Seq<char>, legacy: bool) -> Option<Layer> {
    if legacy {
        if s == "0"@ {
            Some(Layer::Background)
        } else if s == "1"@ {
            Some(Layer::Fail)
        } else if s == "2"@ {
            Some(Layer::Pass)
        } else if s == "3"@ {
            Some(Layer::Foreground)
        } else {
            None
        }
    } else {
        if s == "Background"@ {
            Some(Layer::Background)
        } else if s == "Fail"@ {
            Some(Layer::Fail)
        } else if s == "Pass"@ {
            Some(Layer::Pass)
        } else if s == "Foreground"@ {
            Some(Layer::Foreground)
        } else {
            None
        }
    }
}

/// The named spelling of an origin.
pub open spec fn spec_origin_word(o: Origin) -> Seq<char> {
    match o {
        Origin::TopLeft => "TopLeft"@,
        Origin::Centre => "Centre"@,
        Origin::CentreLeft => "CentreLeft"@,
        Origin::TopRight => "TopRight"@,
        Origin::BottomCentre => "BottomCentre"@,
        Origin::TopCentre => "TopCentre"@,
        Origin::Custom => "Custom"@,
        Origin::CentreRight => "CentreRight"@,
        Origin::BottomLeft => "BottomLeft"@,
        Origin::BottomRight => "BottomRight"@,
    }
}

/// The legacy numeric spelling of an origin.
pub open spec fn spec_origin_code(o: Origin) -> Seq<char> {
    match o {
        Origin::TopLeft => "0"@,
        Origin::Centre => "1"@,
        Origin::CentreLeft => "2"@,
        Origin::TopRight => "3"@,
        Origin::BottomCentre => "4"@,
        Origin::TopCentre => "5"@,
        Origin::Custom => "6"@,
        Origin::CentreRight => "7"@,
        Origin::BottomLeft => "8"@,
        Origin::BottomRight => "9"@,
    }
}

/// The spelling of an origin at a version.
pub open spec fn spec_render_origin(o: Origin, legacy: bool) -> Seq<char> {
    if legacy {
        spec_origin_code(o)
    } else {
        spec_origin_word(o)
    }
}

/// Reading of an origin field at a version.
pub open spec fn spec_parse_origin(s: Seq<char>, legacy: bool) -> Option<Origin> {
    if legacy {
        if s == "0"@ {
            Some(Origin::TopLeft)
        } else if s == "1"@ {
            Some(Origin::Centre)
        } else if s == "2"@ {
            Some(Origin::CentreLeft)
        } else if s == "3"@ {
            Some(Origin::TopRight)
        } else if s == "4"@ {
            Some(Origin::BottomCentre)
        } else if s == "5"@ {
            Some(Origin::TopCentre)
        } else if s == "6"@ {
            Some(Origin::Custom)
        } else if s == "7"@ {
            Some(Origin::CentreRight)
        } else if s == "8"@ {
            Some(Origin::BottomLeft)
        } else if s == "9"@ {
            Some(Origin::BottomRight)
        } else {
            None
        }
    } else {
        if s == "TopLeft"@ {
            Some(Origin::TopLeft)
        } else if s == "Centre"@ {
            Some(Origin::Centre)
        } else if s == "CentreLeft"@ {
            Some(Origin::CentreLeft)
        } else if s == "TopRight"@ {
            Some(Origin::TopRight)
        } else if s == "BottomCentre"@ {
            Some(Origin::BottomCentre)
        } else if s == "TopCentre"@ {
            Some(Origin::TopCentre)
        } else if s == "Custom"@ {
            Some(Origin::Custom)
        } else if s == "CentreRight"@ {
            Some(Origin::CentreRight)
        } else if s == "BottomLeft"@ {
            Some(Origin::BottomLeft)
        } else if s == "BottomRight"@ {
            Some(Origin::BottomRight)
        } else {
            None
        }
    }
}

/// The spelling of a loop type.
pub open spec fn spec_loop_type_word(t: LoopType) -> Seq<char> {
    match t {
        LoopType::LoopForever => "LoopForever"@,
        LoopType::LoopOnce => "LoopOnce"@,
    }
}

/// Reading of a loop type field.
pub open spec fn spec_parse_loop_type(s: Seq<char>) -> Option<LoopType> {
    if s == "LoopForever"@ {
        Some(LoopType::LoopForever)
    } else if s == "LoopOnce"@ {
        Some(LoopType::LoopOnce)
    } else {
        None
    }
}

/// Exec mirror of [`spec_parse_layer`].
pub fn parse_layer(s: &[char], legacy: bool) -> (r: Option<Layer>)
    ensures
        r == spec_parse_layer(s@, legacy),
{
    if legacy {
        if chars_eq(s, "0") {
            Some(Layer::Background)
        } else if chars_eq(s, "1") {
            Some(Layer::Fail)
        } else if chars_eq(s, "2") {
            Some(Layer::Pass)
        } else if chars_eq(s, "3") {
            Some(Layer::Foreground)
        } else {
            None
        }
    } else {
        if chars_eq(s, "Background") {
            Some(Layer::Background)
        } else if chars_eq(s, "Fail") {
            Some(Layer::Fail)
        } else if chars_eq(s, "Pass") {
            Some(Layer::Pass)
        } else if chars_eq(s, "Foreground") {
            Some(Layer::Foreground)
        } else {
            None
        }
    }
}

/// Exec mirror of [`spec_parse_origin`].
pub fn parse_origin(s: &[char], legacy: bool) -> (r: Option<Origin>)
    ensures
        r == spec_parse_origin(s@, legacy),
{
    if legacy {
        if chars_eq(s, "0") {
            Some(Origin::TopLeft)
        } else if chars_eq(s, "1") {
            Some(Origin::Centre)
        } else if chars_eq(s, "2") {
            Some(Origin::CentreLeft)
        } else if chars_eq(s, "3") {
            Some(Origin::TopRight)
        } else if chars_eq(s, "4") {
            Some(Origin::BottomCentre)
        } else if chars_eq(s, "5") {
            Some(Origin::TopCentre)
        } else if chars_eq(s, "6") {
            Some(Origin::Custom)
        } else if chars_eq(s, "7") {
            Some(Origin::CentreRight)
        } else if chars_eq(s, "8") {
            Some(Origin::BottomLeft)
        } else if chars_eq(s, "9") {
            Some(Origin::BottomRight)
        } else {
            None
        }
    } else {
        if chars_eq(s, "TopLeft") {
            Some(Origin::TopLeft)
        } else if chars_eq(s, "Centre") {
            Some(Origin::Centre)
        } else if chars_eq(s, "CentreLeft") {
            Some(Origin::CentreLeft)
        } else if chars_eq(s, "TopRight") {
            Some(Origin::TopRight)
        } else if chars_eq(s, "BottomCentre") {
            Some(Origin::BottomCentre)
        } else if chars_eq(s, "TopCentre") {
            Some(Origin::TopCentre)
        } else if chars_eq(s, "Custom") {
            Some(Origin::Custom)
        } else if chars_eq(s, "CentreRight") {
            Some(Origin::CentreRight)
        } else if chars_eq(s, "BottomLeft") {
            Some(Origin::BottomLeft)
        } else if chars_eq(s, "BottomRight") {
            Some(Origin::BottomRight)
        } else {
            None
        }
    }
}

/// Exec mirror of [`spec_parse_loop_type`].
pub fn parse_loop_type(s: &[char]) -> (r: Option<LoopType>)
    ensures
        r == spec_parse_loop_type(s@),
{
    if chars_eq(s, "LoopForever") {
        Some(LoopType::LoopForever)
    } else if chars_eq(s, "LoopOnce") {
        Some(LoopType::LoopOnce)
    } else {
        None
    }
}

/// Appends the spelling of a layer to `out`.
pub fn push_layer_chars(l: &Layer, legacy: bool, out: &mut Vec<char>)
    ensures
        final(out)@ == old(out)@ + spec_render_layer(*l, legacy),
{
    let w = str_to_chars(
        if legacy {
            match l {
                Layer::Background => "0",
                Layer::Fail => "1",
                Layer::Pass => "2",
                Layer::Foreground => "3",
            }
        } else {
            match l {
                Layer::Background => "Background",
                Layer::Fail => "Fail",
                Layer::Pass => "Pass",
                Layer::Foreground => "Foreground",
            }
        },
    );
    push_all(w.as_slice(), out);
}

/// Appends the spelling of an origin to `out`.
pub fn push_origin_chars(o: &Origin, legacy: bool, out: &mut Vec<char>)
    ensures
        final(out)@ == old(out)@ + spec_render_origin(*o, legacy),
{
    let w = str_to_chars(
        if legacy {
            match o {
                Origin::TopLeft => "0",
                Origin::Centre => "1",
                Origin::CentreLeft => "2",
                Origin::TopRight => "3",
                Origin::BottomCentre => "4",
                Origin::TopCentre => "5",
                Origin::Custom => "6",
                Origin::CentreRight => "7",
                Origin::BottomLeft => "8",
                Origin::BottomRight => "9",
            }
        } else {
            match o {
                Origin::TopLeft => "TopLeft",
                Origin::Centre => "Centre",
                Origin::CentreLeft => "CentreLeft",
                Origin::TopRight => "TopRight",
                Origin::BottomCentre => "BottomCentre",
                Origin::TopCentre => "TopCentre",
                Origin::Custom => "Custom",
                Origin::CentreRight => "CentreRight",
                Origin::BottomLeft => "BottomLeft",
                Origin::BottomRight => "BottomRight",
            }
        },
    );
    push_all(w.as_slice(), out);
}

/// Appends the spelling of a loop type to `out`.
pub fn push_loop_type_chars(t: &LoopType, out: &mut Vec<char>)
    ensures
        final(out)@ == old(out)@ + spec_loop_type_word(*t),
{
    let w = str_to_chars(
        match t {
            LoopType::LoopForever => "LoopForever",
            LoopType::LoopOnce => "LoopOnce",
        },
    );
    push_all(w.as_slice(), out);
}

/// A relative file path: no root slash and no drive prefix.
pub open spec fn spec_path_relative(s: Seq<char>) -> bool {
    &&& !(s.len() > 0 && (s[0] == '/' || s[0] == '\\'))
    &&& !(s.len() >= 2 && s[1] == ':')
}

/// A sprite: a still image placed on the timeline.
#[derive(Debug, Hash, PartialEq, Eq)]
pub struct Sprite {
    pub filepath: String,
}

impl Sprite {
    /// Builds a sprite, rejecting a file path that is not relative.
    pub fn new(filepath: String) -> (r: Result<Sprite, FilePathNotRelative>)
        ensures
            match r {
                Ok(s) => spec_path_relative(filepath@) && s.filepath@ == filepath@,
                Err(_) => !spec_path_relative(filepath@),
            },
    {
        let chars = str_to_chars(filepath.as_str());
        if chars.len() > 0 {
            let c0 = chars[0];
            if c0 == '/' || c0 == '\\' {
                return Err(FilePathNotRelative);
            }
        }
        if chars.len() >= 2 {
            if chars[1] == ':' {
                return Err(FilePathNotRelative);
            }
        }
        Ok(Sprite { filepath })
    }
}

/// An animation: a numbered sequence of frames placed on the timeline.
#[derive(Debug, Hash, PartialEq, Eq)]
pub struct Animation {
    pub filepath: String,
    pub frame_count: u32,
    pub frame_delay: Dec,
    pub loop_type: LoopType,
}

/// What kind of element a storyboard object is.
#[derive(Debug, Hash, PartialEq, Eq)]
pub enum ObjectType {
    Sprite(Sprite),
    Animation(Animation),
}

/// A storyboard object: its header fields and the ordered forest of
/// commands it owns.
#[derive(Debug, Hash, PartialEq, Eq)]
pub struct Object {
    pub layer: Layer,
    pub origin: Origin,
    pub position: Position,
    pub object_type: ObjectType,
    pub commands: Vec<Command>,
}

/// The mathematical model of an object kind.
pub enum ObjectTypeV {
    Sprite { filepath: Seq<char> },
    Animation { filepath: Seq<char>, frame_count: u32, frame_delay: Dec, loop_type: LoopType },
}

/// The mathematical model of a storyboard object.
pub struct ObjectV {
    pub layer: Layer,
    pub origin: Origin,
    pub position: Position,
    pub object_type: ObjectTypeV,
    pub commands: Seq<CommandV>,
}

/// The model of an object kind.
pub open spec fn object_type_view(t: ObjectType) -> ObjectTypeV {
    match t {
        ObjectType::Sprite(s) => ObjectTypeV::Sprite { filepath: s.filepath@ },
        ObjectType::Animation(a) => ObjectTypeV::Animation {
            filepath: a.filepath@,
            frame_count: a.frame_count,
            frame_delay: a.frame_delay,
            loop_type: a.loop_type,
        },
    }
}

/// The model of a storyboard object.
pub open spec fn object_view(o: Object) -> ObjectV {
    ObjectV {
        layer: o.layer,
        origin: o.origin,
        position: o.position,
        object_type: object_type_view(o.object_type),
        commands: cmds_view(o.commands@),
    }
}

} // verus!

verus! {

/// Reading of a `Sprite` header line.
pub open spec fn spec_parse_sprite(fields: Seq<Seq<char>>, legacy: bool) -> Result<
    ObjectV,
    ObjectParseError,
> {
    if fields.len() < 2 {
        Err(ObjectParseError::MissingField(ObjectField::Layer))
    } else {
        match spec_parse_layer(fields[1], legacy) {
            None => Err(ObjectParseError::FieldParseError(ObjectField::Layer)),
            Some(layer) => if fields.len() < 3 {
                Err(ObjectParseError::MissingField(ObjectField::Origin))
            } else {
                match spec_parse_origin(fields[2], legacy) {
                    None => Err(ObjectParseError::FieldParseError(ObjectField::Origin)),
                    Some(origin) => if fields.len() < 4 {
                        Err(ObjectParseError::MissingField(ObjectField::FilePath))
                    } else if fields.len() < 5 {
                        Err(ObjectParseError::MissingField(ObjectField::PositionX))
                    } else {
                        match crate::numbers::spec_parse_i32(fields[4]) {
                            None => Err(ObjectParseError::FieldParseError(ObjectField::PositionX)),
                            Some(x) => if fields.len() < 6 {
                                Err(ObjectParseError::MissingField(ObjectField::PositionY))
                            } else if fields.len() > 6 {
                                Err(ObjectParseError::FieldParseError(ObjectField::PositionY))
                            } else {
                                match crate::numbers::spec_parse_i32(fields[5]) {
                                    None => Err(
                                        ObjectParseError::FieldParseError(ObjectField::PositionY),
                                    ),
                                    Some(y) => Ok(
                                        ObjectV {
                                            layer,
                                            origin,
                                            position: Position { x, y },
                                            object_type: ObjectTypeV::Sprite {
                                                filepath: fields[3],
                                            },
                                            commands: Seq::<CommandV>::empty(),
                                        },
                                    ),
                                }
                            },
                        }
                    },
                }
            },
        }
    }
}

/// Reading of an `Animation` header line.
pub open spec fn spec_parse_animation(fields: Seq<Seq<char>>, legacy: bool) -> Result<
    ObjectV,
    ObjectParseError,
> {
    if fields.len() < 2 {
        Err(ObjectParseError::MissingField(ObjectField::Layer))
    } else {
        match spec_parse_layer(fields[1], legacy) {
            None => Err(ObjectParseError::FieldParseError(ObjectField::Layer)),
            Some(layer) => if fields.len() < 3 {
                Err(ObjectParseError::MissingField(ObjectField::Origin))
            } else {
                match spec_parse_origin(fields[2], legacy) {
                    None => Err(ObjectParseError::FieldParseError(ObjectField::Origin)),
                    Some(origin) => if fields.len() < 4 {
                        Err(ObjectParseError::MissingField(ObjectField::FilePath))
                    } else if fields.len() < 5 {
                        Err(ObjectParseError::MissingField(ObjectField::PositionX))
                    } else {
                        match crate::numbers::spec_parse_i32(fields[4]) {
                            None => Err(ObjectParseError::FieldParseError(ObjectField::PositionX)),
                            Some(x) => if fields.len() < 6 {
                                Err(ObjectParseError::MissingField(ObjectField::PositionY))
                            } else {
                                match crate::numbers::spec_parse_i32(fields[5]) {
                                    None => Err(
                                        ObjectParseError::FieldParseError(ObjectField::PositionY),
                                    ),
                                    Some(y) => if fields.len() < 7 {
                                        Err(ObjectParseError::MissingField(ObjectField::FrameCount))
                                    } else {
                                        match crate::numbers::spec_parse_u32(fields[6]) {
                                            None => Err(
                                                ObjectParseError::FieldParseError(
                                                    ObjectField::FrameCount,
                                                ),
                                            ),
                                            Some(fc) => if fields.len() < 8 {
                                                Err(
                                                    ObjectParseError::MissingField(
                                                        ObjectField::FrameDelay,
                                                    ),
                                                )
                                            } else {
                                                match crate::decimal::spec_dec_of(fields[7]) {
                                                    None => Err(
                                                        ObjectParseError::FieldParseError(
                                                            ObjectField::FrameDelay,
                                                        ),
                                                    ),
                                                    Some(fd) => if fields.len() < 9 {
                                                        Err(
                                                            ObjectParseError::MissingField(
                                                                ObjectField::LoopType,
                                                            ),
                                                        )
                                                    } else if fields.len() > 9 {
                                                        Err(
                                                            ObjectParseError::FieldParseError(
                                                                ObjectField::LoopType,
                                                            ),
                                                        )
                                                    } else {
                                                        match spec_parse_loop_type(fields[8]) {
                                                            None => Err(
                                                                ObjectParseError::FieldParseError(
                                                                    ObjectField::LoopType,
                                                                ),
                                                            ),
                                                            Some(lt) => Ok(
                                                                ObjectV {
                                                                    layer,
                                                                    origin,
                                                                    position: Position { x, y },
                                                                    object_type:
                                                                        ObjectTypeV::Animation {
                                                                        filepath: fields[3],
                                                                        frame_count: fc,
                                                                        frame_delay: fd,
                                                                        loop_type: lt,
                                                                    },
                                                                    commands: Seq::<
                                                                        CommandV,
                                                                    >::empty(),
                                                                },
                                                            ),
                                                        }
                                                    },
                                                }
                                            },
                                        }
                                    },
                                }
                            },
                        }
                    },
                }
            },
        }
    }
}

/// Reading of a storyboard object header line.
pub open spec fn spec_parse_object(s: Seq<char>, legacy: bool) -> Result<
    ObjectV,
    ObjectParseError,
> {
    let fields = crate::text::spec_split(s, ',');
    if fields[0] == "Sprite"@ {
        spec_parse_sprite(fields, legacy)
    } else if fields[0] == "Animation"@ {
        spec_parse_animation(fields, legacy)
    } else {
        Err(ObjectParseError::UnknownObjectType)
    }
}

impl Object {
    /// Reads a storyboard object header line, exactly as
    /// [`spec_parse_object`] says. The object owns no commands yet.
    #[verifier::rlimit(100)]
    pub fn parse(line: &[char], legacy: bool) -> (r: Result<Object, ObjectParseError>)
        ensures
            ({
                let spec = spec_parse_object(line@, legacy);
                match r {
                    Ok(o) => spec == Ok::<_, ObjectParseError>(object_view(o)),
                    Err(e) => spec == Err::<ObjectV, _>(e),
                }
            }),
    {
        let fields = crate::text::split_chars(line, ',');
        let ghost fsv = crate::text::spec_split(line@, ',');
        let len = fields.len();
        proof {
            assert(crate::text::field_views(fields@) == fsv);
            assert(fsv.len() == len);
            assert(fsv[0] == fields@[0]@);
            assert(cmds_view(Seq::<Command>::empty()) == Seq::<CommandV>::empty());
        }
        let is_sprite = chars_eq(fields[0].as_slice(), "Sprite");
        let is_animation = if is_sprite {
            false
        } else {
            chars_eq(fields[0].as_slice(), "Animation")
        };
        if !is_sprite && !is_animation {
            return Err(ObjectParseError::UnknownObjectType);
        }
        proof {
            if is_animation {
                reveal_strlit("Sprite");
                reveal_strlit("Animation");
                assert("Sprite"@.len() == 6);
                assert("Animation"@.len() == 9);
                assert(fsv[0] != "Sprite"@);
            }
        }
        if len < 2 {
            return Err(ObjectParseError::MissingField(ObjectField::Layer));
        }
        proof {
            assert(fsv[1] == fields@[1]@);
        }
        let layer = match parse_layer(fields[1].as_slice(), legacy) {
            None => {
                return Err(ObjectParseError::FieldParseError(ObjectField::Layer));
            },
            Some(l) => l,
        };
        if len < 3 {
            return Err(ObjectParseError::MissingField(ObjectField::Origin));
        }
        proof {
            assert(fsv[2] == fields@[2]@);
        }
        let origin = match parse_origin(fields[2].as_slice(), legacy) {
            None => {
                return Err(ObjectParseError::FieldParseError(ObjectField::Origin));
            },
            Some(o) => o,
        };
        if len < 4 {
            return Err(ObjectParseError::MissingField(ObjectField::FilePath));
        }
        proof {
            assert(fsv[3] == fields@[3]@);
        }
        let filepath = crate::text::chars_to_string(&fields[3]);
        if len < 5 {
            return Err(ObjectParseError::MissingField(ObjectField::PositionX));
        }
        proof {
            assert(fsv[4] == fields@[4]@);
        }
        let x = match crate::numbers::parse_i32_chars(fields[4].as_slice()) {
            None => {
                return Err(ObjectParseError::FieldParseError(ObjectField::PositionX));
            },
            Some(v) => v,
        };
        if len < 6 {
            return Err(ObjectParseError::MissingField(ObjectField::PositionY));
        }
        proof {
            assert(fsv[5] == fields@[5]@);
        }
        if is_sprite {
            if len > 6 {
                return Err(ObjectParseError::FieldParseError(ObjectField::PositionY));
            }
            let y = match crate::numbers::parse_i32_chars(fields[5].as_slice()) {
                None => {
                    return Err(ObjectParseError::FieldParseError(ObjectField::PositionY));
                },
                Some(v) => v,
            };
            Ok(
                Object {
                    layer,
                    origin,
                    position: Position { x, y },
                    object_type: ObjectType::Sprite(Sprite { filepath }),
                    commands: Vec::new(),
                },
            )
        } else {
            let y = match crate::numbers::parse_i32_chars(fields[5].as_slice()) {
                None => {
                    return Err(ObjectParseError::FieldParseError(ObjectField::PositionY));
                },
                Some(v) => v,
            };
            if len < 7 {
                return Err(ObjectParseError::MissingField(ObjectField::FrameCount));
            }
            proof {
                assert(fsv[6] == fields@[6]@);
            }
            let fc = match crate::numbers::parse_u32_chars(fields[6].as_slice()) {
                None => {
                    return Err(ObjectParseError::FieldParseError(ObjectField::FrameCount));
                },
                Some(v) => v,
            };
            if len < 8 {
                return Err(ObjectParseError::MissingField(ObjectField::FrameDelay));
            }
            proof {
                assert(fsv[7] == fields@[7]@);
            }
            let fd = match crate::decimal::dec_from_chars(&fields[7]) {
                None => {
                    return Err(ObjectParseError::FieldParseError(ObjectField::FrameDelay));
                },
                Some(v) => v,
            };
            if len < 9 {
                return Err(ObjectParseError::MissingField(ObjectField::LoopType));
            }
            if len > 9 {
                return Err(ObjectParseError::FieldParseError(ObjectField::LoopType));
            }
            proof {
                assert(fsv[8] == fields@[8]@);
            }
            let lt = match parse_loop_type(fields[8].as_slice()) {
                None => {
                    return Err(ObjectParseError::FieldParseError(ObjectField::LoopType));
                },
                Some(v) => v,
            };
            Ok(
                Object {
                    layer,
                    origin,
                    position: Position { x, y },
                    object_type: ObjectType::Animation(
                        Animation { filepath, frame_count: fc, frame_delay: fd, loop_type: lt },
                    ),
                    commands: Vec::new(),
                },
            )
        }
    }
}

/// The header line of an object at a version.
pub open spec fn spec_render_object_header(o: ObjectV, legacy: bool) -> Seq<char> {
    match o.object_type {
        ObjectTypeV::Sprite { filepath } => {
            "Sprite"@ + seq![','] + spec_render_layer(o.layer, legacy) + seq![',']
                + spec_render_origin(o.origin, legacy) + seq![','] + filepath + seq![',']
                + crate::numbers::spec_int_chars(o.position.x as int) + seq![',']
                + crate::numbers::spec_int_chars(o.position.y as int)
        },
        ObjectTypeV::Animation { filepath, frame_count, frame_delay, loop_type } => {
            "Animation"@ + seq![','] + spec_render_layer(o.layer, legacy) + seq![',']
                + spec_render_origin(o.origin, legacy) + seq![','] + filepath + seq![',']
                + crate::numbers::spec_int_chars(o.position.x as int) + seq![',']
                + crate::numbers::spec_int_chars(o.position.y as int) + seq![',']
                + crate::numbers::spec_nat_chars(frame_count as nat) + seq![',']
                + crate::decimal::spec_dec_chars(frame_delay) + seq![','] + spec_loop_type_word(
                loop_type,
            )
        },
    }
}

/// Whether the header of this object has a textual form: an animation's
/// frame delay must be a representable decimal.
pub open spec fn spec_object_header_wf(o: ObjectV) -> bool {
    match o.object_type {
        ObjectTypeV::Sprite { .. } => true,
        ObjectTypeV::Animation { frame_delay, .. } => frame_delay.wf(),
    }
}

impl Object {
    /// Appends this object's header line to `out`.
    #[verifier::rlimit(100)]
    pub fn push_header_chars(&self, legacy: bool, out: &mut Vec<char>)
        requires
            spec_object_header_wf(object_view(*self)),
        ensures
            final(out)@ == old(out)@ + spec_render_object_header(object_view(*self), legacy),
    {
        match &self.object_type {
            ObjectType::Sprite(s) => {
                let w = str_to_chars("Sprite");
                push_all(w.as_slice(), out);
                out.push(',');
                push_layer_chars(&self.layer, legacy, out);
                out.push(',');
                push_origin_chars(&self.origin, legacy, out);
                out.push(',');
                let fp = str_to_chars(s.filepath.as_str());
                push_all(fp.as_slice(), out);
                out.push(',');
                crate::numbers::push_i32_chars(self.position.x, out);
                out.push(',');
                crate::numbers::push_i32_chars(self.position.y, out);
                proof {
                    assert(final(out)@ =~= old(out)@ + spec_render_object_header(
                        object_view(*self),
                        legacy,
                    ));
                }
            },
            ObjectType::Animation(a) => {
                let w = str_to_chars("Animation");
                push_all(w.as_slice(), out);
                out.push(',');
                push_layer_chars(&self.layer, legacy, out);
                out.push(',');
                push_origin_chars(&self.origin, legacy, out);
                out.push(',');
                let fp = str_to_chars(a.filepath.as_str());
                push_all(fp.as_slice(), out);
                out.push(',');
                crate::numbers::push_i32_chars(self.position.x, out);
                out.push(',');
                crate::numbers::push_i32_chars(self.position.y, out);
                out.push(',');
                crate::numbers::push_u32_chars(a.frame_count, out);
                out.push(',');
                let d = crate::decimal::dec_to_chars(&a.frame_delay);
                push_all(d.as_slice(), out);
                out.push(',');
                push_loop_type_chars(&a.loop_type, out);
                proof {
                    assert(final(out)@ =~= old(out)@ + spec_render_object_header(
                        object_view(*self),
                        legacy,
                    ));
                }
            },
        }
    }
}

} // verus!

verus! {

/// The children a container command owns; other commands own none.
pub open spec fn spec_children(c: CommandV) -> Seq<CommandV> {
    match c.properties {
        CommandPropertiesV::Loop { commands, .. } => commands,
        CommandPropertiesV::Trigger { commands, .. } => commands,
        _ => Seq::<CommandV>::empty(),
    }
}

/// Whether a command opens a container.
pub open spec fn spec_is_container(c: CommandV) -> bool {
    ||| c.properties matches CommandPropertiesV::Loop { .. }
    ||| c.properties matches CommandPropertiesV::Trigger { .. }
}

/// The same command with its children replaced.
pub open spec fn spec_with_children(c: CommandV, k: Seq<CommandV>) -> CommandV {
    CommandV {
        start_time: c.start_time,
        properties: match c.properties {
            CommandPropertiesV::Loop { loop_count, .. } => CommandPropertiesV::Loop {
                loop_count,
                commands: k,
            },
            CommandPropertiesV::Trigger { trigger_type, group_number, end_time, .. } => {
                CommandPropertiesV::Trigger { trigger_type, group_number, end_time, commands: k }
            },
            p => p,
        },
    }
}

/// The deepest indentation at which a new command may attach to this
/// forest: one level per open container at the end of the chain of last
/// commands.
pub open spec fn spec_max_open_depth(cmds: Seq<CommandV>) -> nat
    decreases cmds,
    via spec_max_open_depth_decreases
{
    if cmds.len() == 0 {
        1
    } else if spec_is_container(cmds.last()) {
        1 + spec_max_open_depth(spec_children(cmds.last()))
    } else {
        1
    }
}

#[via_fn]
proof fn spec_max_open_depth_decreases(cmds: Seq<CommandV>) {
    if cmds.len() > 0 && spec_is_container(cmds.last()) {
        vstd::seq::axiom_seq_index_decreases::<CommandV>(cmds, cmds.len() - 1);
        let last = cmds.last();
        let ch = spec_children(last);
        match last.properties {
            CommandPropertiesV::Loop { commands, .. } => {
                assert(decreases_to!(last => commands));
            },
            CommandPropertiesV::Trigger { commands, .. } => {
                assert(decreases_to!(last => commands));
            },
            _ => {},
        }
        assert(decreases_to!(cmds => ch));
    }
}

/// Every forest accepts a command at depth one.
pub proof fn lemma_maxd_ge_one(cmds: Seq<CommandV>)
    ensures
        spec_max_open_depth(cmds) >= 1,
{
}

/// The forest with `cmd` attached at depth `d`: pushed onto this level for
/// depth one, and attached inside the last command's children otherwise.
pub open spec fn spec_push_at(cmds: Seq<CommandV>, cmd: CommandV, d: nat) -> Seq<CommandV>
    decreases d,
{
    if d <= 1 || cmds.len() == 0 {
        cmds.push(cmd)
    } else {
        cmds.update(
            cmds.len() - 1,
            spec_with_children(
                cmds.last(),
                spec_push_at(spec_children(cmds.last()), cmd, (d - 1) as nat),
            ),
        )
    }
}

/// A descent through the chain of open containers, rebuilt from the
/// outside in: each step wraps `cur` back into its shell and pushes the
/// result onto its parent level.
pub open spec fn spec_rebuild(
    parents: Seq<Seq<CommandV>>,
    shells: Seq<CommandV>,
    cur: Seq<CommandV>,
) -> Seq<CommandV>
    decreases parents.len(),
{
    if parents.len() == 0 {
        cur
    } else {
        spec_rebuild(
            parents.drop_last(),
            shells.drop_last(),
            parents.last().push(spec_with_children(shells.last(), cur)),
        )
    }
}

/// The open depth of a rebuilt forest: one level per shell, plus the open
/// depth of the innermost list.
proof fn lemma_rebuild_maxd(parents: Seq<Seq<CommandV>>, shells: Seq<CommandV>, cur: Seq<CommandV>)
    requires
        parents.len() == shells.len(),
        forall|k: int| 0 <= k < shells.len() ==> spec_is_container(#[trigger] shells[k]),
    ensures
        spec_max_open_depth(spec_rebuild(parents, shells, cur)) == parents.len()
            + spec_max_open_depth(cur),
    decreases parents.len(),
{
    if parents.len() > 0 {
        let x = parents.last().push(spec_with_children(shells.last(), cur));
        assert(x.last() == spec_with_children(shells.last(), cur));
        assert(spec_is_container(shells[shells.len() - 1]));
        assert(spec_is_container(x.last()));
        assert(spec_children(x.last()) == cur);
        assert(spec_max_open_depth(x) == 1 + spec_max_open_depth(cur));
        lemma_rebuild_maxd(parents.drop_last(), shells.drop_last(), x);
    }
}

/// Attaching below the innermost list commutes with rebuilding.
proof fn lemma_rebuild_push_at(
    parents: Seq<Seq<CommandV>>,
    shells: Seq<CommandV>,
    cur: Seq<CommandV>,
    cmd: CommandV,
    d: nat,
)
    requires
        parents.len() == shells.len(),
        forall|k: int| 0 <= k < shells.len() ==> spec_is_container(#[trigger] shells[k]),
        d >= 1,
    ensures
        spec_push_at(spec_rebuild(parents, shells, cur), cmd, d + parents.len()) == spec_rebuild(
            parents,
            shells,
            spec_push_at(cur, cmd, d),
        ),
    decreases parents.len(),
{
    if parents.len() > 0 {
        let x = parents.last().push(spec_with_children(shells.last(), cur));
        assert(spec_is_container(shells[shells.len() - 1]));
        lemma_rebuild_push_at(parents.drop_last(), shells.drop_last(), x, cmd, d + 1);
        assert(x.last() == spec_with_children(shells.last(), cur));
        assert(spec_children(x.last()) == cur);
        let y = x.update(
            x.len() - 1,
            spec_with_children(x.last(), spec_push_at(cur, cmd, d)),
        );
        assert(spec_push_at(x, cmd, d + 1) == y);
        assert(y =~= parents.last().push(
            spec_with_children(shells.last(), spec_push_at(cur, cmd, d)),
        ));
        assert(spec_rebuild(parents, shells, spec_push_at(cur, cmd, d)) == spec_rebuild(
            parents.drop_last(),
            shells.drop_last(),
            y,
        ));
    }
}

/// The models of a stack of parent levels, outermost first.
pub open spec fn lists_view(ps: Seq<Vec<Command>>) -> Seq<Seq<CommandV>>
    decreases ps.len(),
{
    if ps.len() == 0 {
        Seq::<Seq<CommandV>>::empty()
    } else {
        lists_view(ps.drop_last()).push(cmds_view(ps.last()@))
    }
}

/// The models of a stack of container shells, outermost first.
pub open spec fn shells_view(ss: Seq<Command>) -> Seq<CommandV>
    decreases ss.len(),
{
    if ss.len() == 0 {
        Seq::<CommandV>::empty()
    } else {
        shells_view(ss.drop_last()).push(cmd_view(ss.last()))
    }
}

/// Pops one level of the descent: wraps `cur` back into its shell and
/// pushes the result onto the parent level, which becomes the new current
/// level.
fn rebuild_one(parents: &mut Vec<Vec<Command>>, shells: &mut Vec<Command>, cur: Vec<Command>) -> (r:
    Vec<Command>)
    requires
        old(parents)@.len() == old(shells)@.len(),
        old(shells)@.len() >= 1,
        forall|k: int|
            0 <= k < shells_view(old(shells)@).len() ==> spec_is_container(
                #[trigger] shells_view(old(shells)@)[k],
            ),
    ensures
        final(parents)@ == old(parents)@.drop_last(),
        final(shells)@ == old(shells)@.drop_last(),
        lists_view(final(parents)@) == lists_view(old(parents)@).drop_last(),
        shells_view(final(shells)@) == shells_view(old(shells)@).drop_last(),
        cmds_view(r@) == lists_view(old(parents)@).last().push(
            spec_with_children(shells_view(old(shells)@).last(), cmds_view(cur@)),
        ),
        spec_rebuild(
            lists_view(old(parents)@),
            shells_view(old(shells)@),
            cmds_view(cur@),
        ) == spec_rebuild(
            lists_view(final(parents)@),
            shells_view(final(shells)@),
            cmds_view(r@),
        ),
{
    let ghost sv0 = shells_view(old(shells)@);
    let ghost pv0 = lists_view(old(parents)@);
    let ghost curv = cmds_view(cur@);
    proof {
        assert(sv0 == shells_view(old(shells)@.drop_last()).push(cmd_view(old(shells)@.last())));
        assert(pv0 == lists_view(old(parents)@.drop_last()).push(cmds_view(old(parents)@.last()@)));
        assert(spec_is_container(sv0[sv0.len() - 1]));
        assert(sv0.last() == cmd_view(old(shells)@.last()));
    }
    let sh = shells.pop().unwrap();
    let mut p = parents.pop().unwrap();
    let ghost p_before = p@;
    let ghost shv = cmd_view(sh);
    let Command { start_time, properties } = sh;
    match properties {
        CommandProperties::Loop { loop_count, commands: _drained } => {
            let newc = Command {
                start_time,
                properties: CommandProperties::Loop { loop_count, commands: cur },
            };
            proof {
                assert(cmd_view(newc) == spec_with_children(shv, curv));
                lemma_cmds_view_push(p_before, newc);
            }
            p.push(newc);
        },
        CommandProperties::Trigger { trigger_type, group_number, end_time, commands: _drained } => {
            let newc = Command {
                start_time,
                properties: CommandProperties::Trigger {
                    trigger_type,
                    group_number,
                    end_time,
                    commands: cur,
                },
            };
            proof {
                assert(cmd_view(newc) == spec_with_children(shv, curv));
                lemma_cmds_view_push(p_before, newc);
            }
            p.push(newc);
        },
        p2 => {
            proof {
                assert(spec_is_container(shv));
                assert(false);
            }
            p.push(Command { start_time, properties: p2 });
        },
    }
    proof {
        assert(cmds_view(p@) == pv0.last().push(spec_with_children(sv0.last(), curv)));
        assert(pv0.drop_last() =~= lists_view(old(parents)@.drop_last()));
        assert(sv0.drop_last() =~= shells_view(old(shells)@.drop_last()));
        assert(spec_rebuild(pv0, sv0, curv) == spec_rebuild(
            pv0.drop_last(),
            sv0.drop_last(),
            pv0.last().push(spec_with_children(sv0.last(), curv)),
        ));
    }
    p
}

impl Object {
    /// Attaches `cmd` to this object at indentation depth `indentation`:
    /// depth one appends to the object's own command list, and each
    /// further level descends into the container opened by the last
    /// command of the current level. A depth beyond the chain of open
    /// containers is rejected, naming the deepest depth that was open.
    ///
    /// Both the descent and the rebuild run on an explicit stack, so the
    /// nesting depth of untrusted input never grows the call stack.
    #[verifier::rlimit(100)]
    pub fn try_push_cmd(&mut self, cmd: Command, indentation: usize) -> (r: Result<
        (),
        CommandPushError,
    >)
        requires
            indentation >= 1,
        ensures
            ({
                let orig = cmds_view(old(self).commands@);
                let maxd = spec_max_open_depth(orig);
                let fs = *final(self);
                let os = *old(self);
                match r {
                    Ok(()) => indentation <= maxd && fs.layer == os.layer && fs.origin == os.origin
                        && fs.position == os.position && fs.object_type == os.object_type
                        && cmds_view(fs.commands@) == spec_push_at(
                        orig,
                        cmd_view(cmd),
                        indentation as nat,
                    ),
                    Err(e) => indentation > maxd && fs.layer == os.layer && fs.origin == os.origin
                        && fs.position == os.position && fs.object_type == os.object_type
                        && cmds_view(fs.commands@) == orig && e
                        == CommandPushError::InvalidIndentation(maxd as usize, indentation),
                }
            }),
    {
        let ghost orig = cmds_view(old(self).commands@);
        let ghost cmdv = cmd_view(cmd);
        let mut cur: Vec<Command> = Vec::new();
        core::mem::swap(&mut cur, &mut self.commands);
        let mut parents: Vec<Vec<Command>> = Vec::new();
        let mut shells: Vec<Command> = Vec::new();
        let mut depth: usize = 1;
        let mut stopped = false;
        proof {
            assert(lists_view(parents@) == Seq::<Seq<CommandV>>::empty());
            assert(shells_view(shells@) == Seq::<CommandV>::empty());
        }
        while depth < indentation && !stopped
            invariant
                1 <= depth <= indentation,
                parents@.len() == depth - 1,
                shells@.len() == depth - 1,
                lists_view(parents@).len() == depth - 1,
                shells_view(shells@).len() == depth - 1,
                forall|k: int|
                    0 <= k < shells_view(shells@).len() ==> spec_is_container(
                        #[trigger] shells_view(shells@)[k],
                    ),
                spec_rebuild(lists_view(parents@), shells_view(shells@), cmds_view(cur@)) == orig,
                stopped ==> spec_max_open_depth(cmds_view(cur@)) == 1,
                stopped ==> depth < indentation,
                self.layer == old(self).layer,
                self.origin == old(self).origin,
                self.position == old(self).position,
                self.object_type == old(self).object_type,
            decreases indentation - depth + (if stopped {
                0int
            } else {
                1int
            }),
        {
            let n = cur.len();
            proof {
                lemma_cmds_view_index(cur@);
            }
            if n == 0 {
                stopped = true;
            } else {
                let is_cont = match &cur[n - 1].properties {
                    CommandProperties::Loop { .. } => true,
                    CommandProperties::Trigger { .. } => true,
                    _ => false,
                };
                if !is_cont {
                    proof {
                        assert(cmds_view(cur@).last() == cmd_view(cur@.last()));
                    }
                    stopped = true;
                } else {
                    let ghost cur_vec_before = cur@;
                    let ghost pv_before = lists_view(parents@);
                    let ghost sv_before = shells_view(shells@);
                    let ghost parents_before = parents@;
                    let ghost shells_before = shells@;
                    let c = cur.pop().unwrap();
                    let ghost cv = cmd_view(c);
                    let ghost popped_view = cmds_view(cur@);
                    proof {
                        assert(cur_vec_before =~= cur@.push(c));
                        lemma_cmds_view_push(cur@, c);
                        assert(cmds_view(cur_vec_before) == popped_view.push(cv));
                        assert(cmds_view(cur_vec_before).last() == cv);
                        assert(spec_is_container(cv));
                    }
                    let Command { start_time, properties } = c;
                    match properties {
                        CommandProperties::Loop { loop_count, commands } => {
                            let shell = Command {
                                start_time,
                                properties: CommandProperties::Loop {
                                    loop_count,
                                    commands: Vec::new(),
                                },
                            };
                            let ghost shellv = cmd_view(shell);
                            let ghost childv = cmds_view(commands@);
                            proof {
                                assert(spec_with_children(shellv, childv) == cv);
                            }
                            parents.push(cur);
                            shells.push(shell);
                            cur = commands;
                            proof {
                                assert(parents@.drop_last() =~= parents_before);
                                assert(parents@.last() == parents_before.push(parents@.last()).last());
                                assert(lists_view(parents@) == pv_before.push(popped_view));
                                assert(shells@.drop_last() =~= shells_before);
                                assert(shells_view(shells@) == sv_before.push(shellv));
                                assert(spec_is_container(shellv));
                                assert forall|k: int|
                                    0 <= k < shells_view(shells@).len() implies spec_is_container(
                                    #[trigger] shells_view(shells@)[k],
                                ) by {
                                    if k < sv_before.len() {
                                        assert(shells_view(shells@)[k] == sv_before[k]);
                                    }
                                }
                                assert((pv_before.push(popped_view)).drop_last() =~= pv_before);
                                assert((sv_before.push(shellv)).drop_last() =~= sv_before);
                                assert((pv_before.push(popped_view)).last() == popped_view);
                                assert((sv_before.push(shellv)).last() == shellv);
                                assert(spec_rebuild(
                                    lists_view(parents@),
                                    shells_view(shells@),
                                    cmds_view(cur@),
                                ) == spec_rebuild(pv_before, sv_before, popped_view.push(cv)));
                            }
                        },
                        CommandProperties::Trigger { trigger_type, group_number, end_time, commands } => {
                            let shell = Command {
                                start_time,
                                properties: CommandProperties::Trigger {
                                    trigger_type,
                                    group_number,
                                    end_time,
                                    commands: Vec::new(),
                                },
                            };
                            let ghost shellv = cmd_view(shell);
                            let ghost childv = cmds_view(commands@);
                            proof {
                                assert(spec_with_children(shellv, childv) == cv);
                            }
                            parents.push(cur);
                            shells.push(shell);
                            cur = commands;
                            proof {
                                assert(parents@.drop_last() =~= parents_before);
                                assert(lists_view(parents@) == pv_before.push(popped_view));
                                assert(shells@.drop_last() =~= shells_before);
                                assert(shells_view(shells@) == sv_before.push(shellv));
                                assert(spec_is_container(shellv));
                                assert forall|k: int|
                                    0 <= k < shells_view(shells@).len() implies spec_is_container(
                                    #[trigger] shells_view(shells@)[k],
                                ) by {
                                    if k < sv_before.len() {
                                        assert(shells_view(shells@)[k] == sv_before[k]);
                                    }
                                }
                                assert((pv_before.push(popped_view)).drop_last() =~= pv_before);
                                assert((sv_before.push(shellv)).drop_last() =~= sv_before);
                                assert((pv_before.push(popped_view)).last() == popped_view);
                                assert((sv_before.push(shellv)).last() == shellv);
                                assert(spec_rebuild(
                                    lists_view(parents@),
                                    shells_view(shells@),
                                    cmds_view(cur@),
                                ) == spec_rebuild(pv_before, sv_before, popped_view.push(cv)));
                            }
                        },
                        p2 => {
                            proof {
                                assert(false);
                            }
                            parents.push(cur);
                            shells.push(Command { start_time, properties: p2 });
                            cur = Vec::new();
                        },
                    }
                    depth += 1;
                }
            }
        }
        let ghost maxd = spec_max_open_depth(orig);
        if stopped {
            proof {
                lemma_rebuild_maxd(lists_view(parents@), shells_view(shells@), cmds_view(cur@));
            }
            proof {
                assert(maxd == depth);
            }
            let expected = depth;
            while shells.len() > 0
                invariant
                    parents@.len() == shells@.len(),
                    forall|k: int|
                        0 <= k < shells_view(shells@).len() ==> spec_is_container(
                            #[trigger] shells_view(shells@)[k],
                        ),
                    spec_rebuild(lists_view(parents@), shells_view(shells@), cmds_view(cur@))
                        == orig,
                    self.layer == old(self).layer,
                    self.origin == old(self).origin,
                    self.position == old(self).position,
                    self.object_type == old(self).object_type,
                decreases shells@.len(),
            {
                let ghost sv_old = shells_view(shells@);
                let next = rebuild_one(&mut parents, &mut shells, cur);
                cur = next;
                proof {
                    assert forall|k: int|
                        0 <= k < shells_view(shells@).len() implies spec_is_container(
                        #[trigger] shells_view(shells@)[k],
                    ) by {
                        assert(shells_view(shells@)[k] == sv_old[k]);
                    }
                }
            }
            proof {
                assert(lists_view(parents@).len() == parents@.len());
                assert(spec_rebuild(lists_view(parents@), shells_view(shells@), cmds_view(cur@))
                    == cmds_view(cur@));
            }
            self.commands = cur;
            Err(CommandPushError::InvalidIndentation(expected, indentation))
        } else {
            proof {
                lemma_rebuild_maxd(lists_view(parents@), shells_view(shells@), cmds_view(cur@));
                lemma_maxd_ge_one(cmds_view(cur@));
                lemma_rebuild_push_at(
                    lists_view(parents@),
                    shells_view(shells@),
                    cmds_view(cur@),
                    cmdv,
                    1,
                );
                lemma_cmds_view_push(cur@, cmd);
            }
            let ghost target = spec_push_at(orig, cmdv, indentation as nat);
            cur.push(cmd);
            proof {
                assert(spec_rebuild(lists_view(parents@), shells_view(shells@), cmds_view(cur@))
                    == target);
            }
            while shells.len() > 0
                invariant
                    parents@.len() == shells@.len(),
                    forall|k: int|
                        0 <= k < shells_view(shells@).len() ==> spec_is_container(
                            #[trigger] shells_view(shells@)[k],
                        ),
                    spec_rebuild(lists_view(parents@), shells_view(shells@), cmds_view(cur@))
                        == target,
                    self.layer == old(self).layer,
                    self.origin == old(self).origin,
                    self.position == old(self).position,
                    self.object_type == old(self).object_type,
                decreases shells@.len(),
            {
                let ghost sv_old = shells_view(shells@);
                let next = rebuild_one(&mut parents, &mut shells, cur);
                cur = next;
                proof {
                    assert forall|k: int|
                        0 <= k < shells_view(shells@).len() implies spec_is_container(
                        #[trigger] shells_view(shells@)[k],
                    ) by {
                        assert(shells_view(shells@)[k] == sv_old[k]);
                    }
                }
            }
            proof {
                assert(lists_view(parents@).len() == parents@.len());
                assert(spec_rebuild(lists_view(parents@), shells_view(shells@), cmds_view(cur@))
                    == cmds_view(cur@));
            }
            self.commands = cur;
            Ok(())
        }
    }
}

} // verus!

verus! {

/// The depth-first flattening of a command forest into `(depth, command)`
/// items, children directly after their container.
pub open spec fn spec_flatten(cmds: Seq<CommandV>, depth: nat) -> Seq<(nat, CommandV)>
    decreases cmds,
    via spec_flatten_decreases
{
    if cmds.len() == 0 {
        Seq::<(nat, CommandV)>::empty()
    } else {
        seq![(depth, cmds[0])] + spec_flatten(spec_children(cmds[0]), depth + 1) + spec_flatten(
            cmds.drop_first(),
            depth,
        )
    }
}

#[via_fn]
proof fn spec_flatten_decreases(cmds: Seq<CommandV>, depth: nat) {
    if cmds.len() > 0 {
        vstd::seq::axiom_seq_index_decreases::<CommandV>(cmds, 0);
        let first = cmds[0];
        assert(decreases_to!(cmds => first));
        match first.properties {
            CommandPropertiesV::Loop { commands, .. } => {
                assert(decreases_to!(first => commands));
                assert(decreases_to!(cmds => commands));
            },
            CommandPropertiesV::Trigger { commands, .. } => {
                assert(decreases_to!(first => commands));
                assert(decreases_to!(cmds => commands));
            },
            _ => {
                assert(spec_children(first) == Seq::<CommandV>::empty());
                vstd::seq::axiom_seq_len_decreases::<CommandV>(cmds, Seq::<CommandV>::empty());
                assert(decreases_to!(cmds => spec_children(first)));
            },
        }
    }
}

/// The indentation for a nesting depth: one space per level.
pub open spec fn spec_indent(d: nat) -> Seq<char> {
    Seq::new(d, |i: int| ' ')
}

/// The text of a flattened item list: each item on its own line, preceded
/// by a line break and its indentation.
pub open spec fn spec_render_block(items: Seq<(nat, CommandV)>) -> Seq<char>
    decreases items.len(),
{
    if items.len() == 0 {
        Seq::<char>::empty()
    } else {
        seq!['\n'] + spec_indent(items[0].0) + spec_render_command(items[0].1) + spec_render_block(
            items.drop_first(),
        )
    }
}

/// Every line of the item list has a textual form.
pub open spec fn spec_items_wf(items: Seq<(nat, CommandV)>) -> bool {
    forall|i: int| 0 <= i < items.len() ==> spec_cmd_line_wf((#[trigger] items[i]).1)
}

/// Every line of the whole command tree has a textual form.
pub open spec fn spec_cmds_tree_wf(cmds: Seq<CommandV>) -> bool {
    spec_items_wf(spec_flatten(cmds, 1))
}

/// Rendering distributes over concatenation of item lists.
proof fn lemma_render_block_concat(a: Seq<(nat, CommandV)>, b: Seq<(nat, CommandV)>)
    ensures
        spec_render_block(a + b) == spec_render_block(a) + spec_render_block(b),
    decreases a.len(),
{
    if a.len() == 0 {
        assert(a + b =~= b);
        assert(spec_render_block(a) + spec_render_block(b) =~= spec_render_block(b));
    } else {
        assert((a + b)[0] == a[0]);
        assert((a + b).drop_first() =~= a.drop_first() + b);
        lemma_render_block_concat(a.drop_first(), b);
        assert(spec_render_block(a + b) =~= spec_render_block(a) + spec_render_block(b));
    }
}

/// One unfolding of the flattening of a suffix.
proof fn lemma_flatten_skip_unfold(l: Seq<CommandV>, i: int, d: nat)
    requires
        0 <= i < l.len(),
    ensures
        spec_flatten(l.skip(i), d) == seq![(d, l[i])] + spec_flatten(spec_children(l[i]), d + 1)
            + spec_flatten(l.skip(i + 1), d),
{
    assert(l.skip(i)[0] == l[i]);
    assert(l.skip(i).drop_first() =~= l.skip(i + 1));
}

/// The work still to do for a serializer stack, top entry first: the
/// flattening of each entry's remaining suffix at its depth.
pub open spec fn spec_stack_rest(st: Seq<(&Vec<Command>, usize, Vec<char>)>) -> Seq<
    (nat, CommandV),
>
    decreases st.len(),
{
    if st.len() == 0 {
        Seq::<(nat, CommandV)>::empty()
    } else {
        let e = st.last();
        let l = cmds_view(e.0@);
        (if e.1 <= l.len() {
            spec_flatten(l.skip(e.1 as int), e.2@.len())
        } else {
            Seq::<(nat, CommandV)>::empty()
        }) + spec_stack_rest(st.drop_last())
    }
}

/// Appends the indented lines of a whole command forest to `out`, walking
/// the tree with an explicit work stack. Returns false, with `out` left
/// part-written, when some line has no textual form.
#[verifier::rlimit(100)]
pub fn push_cmds_block(cmds: &Vec<Command>, out: &mut Vec<char>) -> (ok: bool)
    ensures
        ok == spec_cmds_tree_wf(cmds_view(cmds@)),
        ok ==> final(out)@ == old(out)@ + spec_render_block(spec_flatten(cmds_view(cmds@), 1)),
{
    let ghost whole = spec_flatten(cmds_view(cmds@), 1);
    let mut stack: Vec<(&Vec<Command>, usize, Vec<char>)> = Vec::new();
    let mut indent1: Vec<char> = Vec::new();
    indent1.push(' ');
    proof {
        assert(indent1@ =~= spec_indent(1));
    }
    stack.push((cmds, 0, indent1));
    let ghost done = Seq::<(nat, CommandV)>::empty();
    proof {
        assert(spec_stack_rest(stack@.drop_last()) == Seq::<(nat, CommandV)>::empty());
        assert(stack@.last().1 == 0);
        assert(cmds_view(cmds@).skip(0) =~= cmds_view(cmds@));
        assert(spec_stack_rest(stack@) =~= whole);
        assert(done + spec_stack_rest(stack@) =~= whole);
        assert(spec_render_block(done) == Seq::<char>::empty());
        assert(out@ =~= old(out)@ + spec_render_block(done));
    }
    let mut done_tracker: Ghost<Seq<(nat, CommandV)>> = Ghost(done);
    while stack.len() > 0
        invariant
            whole == done_tracker@ + spec_stack_rest(stack@),
            spec_items_wf(done_tracker@),
            out@ == old(out)@ + spec_render_block(done_tracker@),
            whole == spec_flatten(cmds_view(cmds@), 1),
            forall|k: int|
                0 <= k < stack@.len() ==> (#[trigger] stack@[k]).1 <= cmds_view(stack@[k].0@).len(),
            forall|k: int|
                0 <= k < stack@.len() ==> (#[trigger] stack@[k]).2@ =~= spec_indent(
                    stack@[k].2@.len(),
                ),
        decreases spec_stack_rest(stack@).len(), stack@.len(),
    {
        let ghost st_before = stack@;
        let top = stack.pop().unwrap();
        let l = top.0;
        let i = top.1;
        let ind = top.2;
        let ghost lv = cmds_view(l@);
        proof {
            lemma_cmds_view_index(l@);
            assert(st_before.last() == (l, i, ind));
            assert(st_before.drop_last() =~= stack@);
        }
        if i >= l.len() {
            proof {
                assert(lv.skip(i as int).len() == 0);
                assert(spec_flatten(lv.skip(i as int), ind@.len()) == Seq::<(nat, CommandV)>::empty());
                assert(spec_stack_rest(st_before) =~= spec_stack_rest(stack@));
            }
        } else {
            let c = &l[i];
            let ghost cv = cmd_view(l@[i as int]);
            let ghost d = ind@.len();
            proof {
                lemma_flatten_skip_unfold(lv, i as int, d);
                assert(spec_stack_rest(st_before) == spec_flatten(lv.skip(i as int), d)
                    + spec_stack_rest(stack@));
            }
            let ghost item = (d, cv);
            if !c.line_wf() {
                proof {
                    assert(spec_flatten(lv.skip(i as int), d)[0] == item);
                    assert(whole[done_tracker@.len() as int] == item);
                    assert(!spec_items_wf(whole));
                }
                return false;
            }
            out.push('\n');
            push_all(ind.as_slice(), out);
            c.push_line_chars(out);
            proof {
                let done2 = done_tracker@.push(item);
                lemma_render_block_concat(done_tracker@, seq![item]);
                assert(done_tracker@ + seq![item] =~= done2);
                assert(seq![item].drop_first() =~= Seq::<(nat, CommandV)>::empty());
                assert(seq![item].drop_first().len() == 0);
                assert(spec_render_block(Seq::<(nat, CommandV)>::empty()) == Seq::<char>::empty());
                assert(seq![item][0] == item);
                assert(spec_render_block(seq![item]) =~= seq!['\n'] + spec_indent(d)
                    + spec_render_command(cv));
                assert(out@ =~= old(out)@ + spec_render_block(done2));
            }
            proof {
                done_tracker@ = done_tracker@.push(item);
            }
            let is_cont = match &c.properties {
                CommandProperties::Loop { .. } => true,
                CommandProperties::Trigger { .. } => true,
                _ => false,
            };
            stack.push((l, i + 1, ind));
            let ghost st_mid = stack@;
            proof {
                assert(st_mid.drop_last() =~= st_before.drop_last());
            }
            if is_cont {
                let mut ind2 = vstd::slice::slice_to_vec(stack[stack.len() - 1].2.as_slice());
                ind2.push(' ');
                proof {
                    assert(ind2@ =~= spec_indent(d + 1));
                }
                match &c.properties {
                    CommandProperties::Loop { commands, .. } => {
                        stack.push((commands, 0, ind2));
                        proof {
                            assert(cmds_view(commands@) == spec_children(cv));
                        }
                    },
                    CommandProperties::Trigger { commands, .. } => {
                        stack.push((commands, 0, ind2));
                        proof {
                            assert(cmds_view(commands@) == spec_children(cv));
                        }
                    },
                    _ => {
                        proof {
                            assert(false);
                        }
                    },
                }
                proof {
                    assert(stack@.drop_last() =~= st_mid);
                    let ch = spec_children(cv);
                    assert(ch.skip(0) =~= ch);
                    assert(stack@.last().1 == 0);
                    assert(cmds_view(stack@.last().0@) == ch);
                    assert(stack@.last().2@.len() == d + 1);
                    assert(spec_stack_rest(stack@) == spec_flatten(ch, d + 1) + spec_stack_rest(
                        st_mid,
                    ));
                    assert(st_mid.drop_last() =~= st_before.drop_last());
                    assert(st_mid.last().1 == i + 1);
                    assert(st_mid.last().0 == l);
                    assert(st_mid.last().2@.len() == d);
                    assert(spec_stack_rest(st_mid) == spec_flatten(lv.skip(i + 1), d)
                        + spec_stack_rest(st_before.drop_last()));
                    assert(spec_stack_rest(stack@) =~= spec_flatten(ch, d + 1) + spec_flatten(
                        lv.skip(i + 1),
                        d,
                    ) + spec_stack_rest(st_before.drop_last()));
                }
            } else {
                proof {
                    assert(spec_children(cv).len() == 0);
                    assert(spec_flatten(spec_children(cv), d + 1) == Seq::<(nat, CommandV)>::empty());
                    assert(stack@.last().1 == i + 1);
                    assert(stack@.last().0 == l);
                    assert(stack@.last().2@.len() == d);
                    assert(stack@.drop_last() =~= st_before.drop_last());
                    assert(spec_stack_rest(stack@) == spec_flatten(lv.skip(i + 1), d)
                        + spec_stack_rest(st_before.drop_last()));
                }
            }
        }
    }
    proof {
        assert(spec_stack_rest(stack@) == Seq::<(nat, CommandV)>::empty());
        assert(whole =~= done_tracker@);
    }
    true
}

/// The whole text of an object: its header line followed by one indented
/// line per command, nested lines one level deeper than their container.
pub open spec fn spec_render_object(o: ObjectV, legacy: bool) -> Seq<char> {
    spec_render_object_header(o, legacy) + spec_render_block(spec_flatten(o.commands, 1))
}

/// Whether the whole object has a textual form.
pub open spec fn spec_object_wf(o: ObjectV) -> bool {
    spec_object_header_wf(o) && spec_cmds_tree_wf(o.commands)
}

impl Object {
    /// Appends the whole text of this object to `out`. Returns false, with
    /// `out` left part-written, when the object has no textual form.
    pub fn push_chars(&self, legacy: bool, out: &mut Vec<char>) -> (ok: bool)
        ensures
            ok == spec_object_wf(object_view(*self)),
            ok ==> final(out)@ == old(out)@ + spec_render_object(object_view(*self), legacy),
    {
        let header_ok = match &self.object_type {
            ObjectType::Sprite(_) => true,
            ObjectType::Animation(a) => a.frame_delay.is_wf(),
        };
        if !header_ok {
            return false;
        }
        self.push_header_chars(legacy, out);
        push_cmds_block(&self.commands, out)
    }
}

} // verus!
