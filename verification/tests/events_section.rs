use osu_events::events::{
    AnimationLegacy, Background, Break, Event, EventParams, EventParamsParseError, Events,
    ParseError, ParseSpriteLegacyError, SpriteLegacy,
};
use osu_events::events::storyboard::error::CommandPushError;
use osu_events::events::storyboard::sprites::{Layer, Origin};
use osu_events::Position;

#[test]
fn events_parse_v14() {
    let i_str = "0,0,\"bg2.jpg\",0,0
0,0,bg2.jpg,0,1
//Break Periods
2,100,163";
    let i = Events::from_str(i_str, 14).unwrap().unwrap();

    let e = Events(vec![
        Event::NormalEvent {
            start_time: 0,
            event_params: EventParams::Background(Background::new(
                "\"bg2.jpg\"",
                Some(Position { x: 0, y: 0 }),
            )),
        },
        Event::NormalEvent {
            start_time: 0,
            event_params: EventParams::Background(Background::new(
                "bg2.jpg",
                Some(Position { x: 0, y: 1 }),
            )),
        },
        Event::Comment("Break Periods".to_string()),
        Event::NormalEvent {
            start_time: 100,
            event_params: EventParams::Break(Break::new(163)),
        },
    ]);

    assert_eq!(i, e);
    assert_eq!(i_str, i.to_string(14).unwrap());
}

#[test]
fn comment_round_trip() {
    let events = Events::from_str("//Break Periods", 14).unwrap().unwrap();
    assert_eq!(events.0, vec![Event::Comment("Break Periods".to_string())]);
    assert_eq!(events.to_string(14).unwrap(), "//Break Periods");
}

#[test]
fn background_position_at_newest_version() {
    // an explicit default position prints back even though it is the default
    let explicit = Events::from_str("0,0,bg2.jpg,0,0", 14).unwrap().unwrap();
    assert_eq!(explicit.to_string(14).unwrap(), "0,0,bg2.jpg,0,0");
    let offset = Events::from_str("0,0,bg2.jpg,0,1", 14).unwrap().unwrap();
    match &offset.0[0] {
        Event::NormalEvent { event_params: EventParams::Background(b), .. } => {
            assert_eq!(b.position, Some(Position { x: 0, y: 1 }));
        }
        _ => panic!("expected a background event"),
    }
    assert_eq!(offset.to_string(14).unwrap(), "0,0,bg2.jpg,0,1");
    // a missing pair is materialized as the default at the newest grammar
    let materialized = Events::from_str("0,0,bg2.jpg", 14).unwrap().unwrap();
    match &materialized.0[0] {
        Event::NormalEvent { event_params: EventParams::Background(b), .. } => {
            assert_eq!(b.position, Some(Position { x: 0, y: 0 }));
        }
        _ => panic!("expected a background event"),
    }
    assert_eq!(materialized.to_string(14).unwrap(), "0,0,bg2.jpg,0,0");
}

#[test]
fn break_times_offset_at_old_versions() {
    let new_version = Events::from_str("2,100,163", 14).unwrap().unwrap();
    match &new_version.0[0] {
        Event::NormalEvent { start_time, event_params: EventParams::Break(b) } => {
            assert_eq!(*start_time, 100);
            assert_eq!(b.end_time, 163);
        }
        _ => panic!("expected a break event"),
    }
    assert_eq!(new_version.to_string(14).unwrap(), "2,100,163");

    // versions 3 to 4 store times shifted by the legacy offset but print
    // the original text back
    let old_version = Events::from_str("2,100,163", 3).unwrap().unwrap();
    match &old_version.0[0] {
        Event::NormalEvent { start_time, event_params: EventParams::Break(b) } => {
            assert_eq!(*start_time, 124);
            assert_eq!(b.end_time, 187);
        }
        _ => panic!("expected a break event"),
    }
    assert_eq!(old_version.to_string(3).unwrap(), "2,100,163");
}

#[test]
fn skipped_indentation_depth_is_rejected() {
    let text = "Sprite,Background,Centre,bg.png,320,240
 F,0,0,,1
  F,0,0,,1";
    let err = Events::from_str(text, 14).unwrap_err();
    assert_eq!(err.line_index, 2);
    assert_eq!(
        err.error,
        ParseError::CommandPushError(CommandPushError::InvalidIndentation(1, 2))
    );
}

#[test]
fn empty_loop_serializes_without_children() {
    let text = "Sprite,Background,Centre,bg.png,320,240
 L,0,3";
    let events = Events::from_str(text, 14).unwrap().unwrap();
    assert_eq!(events.to_string(14).unwrap(), text);
}

#[test]
fn nested_commands_round_trip() {
    let text = "Sprite,Foreground,TopLeft,sb/spin.png,320,240
 L,0,3
  F,0,0,1000,0.5
  M,0,0,1000,10,20,2000,30,40
 F,0,2000,,1";
    let events = Events::from_str(text, 14).unwrap().unwrap();
    assert_eq!(events.to_string(14).unwrap(), text);
}

#[test]
fn legacy_enum_spelling_round_trip() {
    // below the named-identifier cutoff, layers and origins are numeric
    let legacy = "Sprite,0,1,bg.png,320,240";
    let events = Events::from_str(legacy, 5).unwrap().unwrap();
    assert_eq!(events.to_string(5).unwrap(), legacy);
    // the named spelling is not accepted there
    assert!(Events::from_str("Sprite,Background,Centre,bg.png,320,240", 5).is_err());
}

#[test]
fn unknown_token_surfaces_normal_event_error() {
    let err = Events::from_str("//ok\nwhat,is,this", 14).unwrap_err();
    assert_eq!(err.line_index, 1);
    assert_eq!(
        err.error,
        ParseError::EventParamsParseError(EventParamsParseError::UnknownEventType)
    );
}

#[test]
fn command_with_no_sprite_is_rejected() {
    let err = Events::from_str(" F,0,0,,1", 14).unwrap_err();
    assert_eq!(err.line_index, 0);
    assert_eq!(err.error, ParseError::StoryboardCmdWithNoSprite);
}

#[test]
fn colour_transformation_cutoff() {
    let text = "3,100,120,20,255";
    let events = Events::from_str(text, 12).unwrap().unwrap();
    assert_eq!(events.to_string(12).unwrap(), text);
    // at and past the cutoff the event has no textual form
    assert_eq!(events.to_string(14), None);
}

#[test]
fn animation_header_round_trip() {
    let text = "Animation,Fail,BottomRight,sb/frame.png,100,-50,10,41.7,LoopOnce";
    let events = Events::from_str(text, 14).unwrap().unwrap();
    assert_eq!(events.to_string(14).unwrap(), text);
}

#[test]
fn blank_lines_are_invisible_but_counted() {
    let text = "//a\n\n   \nwhat";
    let err = Events::from_str(text, 14).unwrap_err();
    assert_eq!(err.line_index, 3);
}

#[test]
fn legacy_sprite_events() {
    let sp = SpriteLegacy::from_str("4,0,1,play.png,320,240", 3).unwrap().unwrap();
    assert_eq!(sp.layer, Layer::Background);
    assert_eq!(sp.origin, Origin::Centre);
    assert_eq!(sp.file_name, "play.png");
    assert_eq!(sp.position, Some(Position { x: 320, y: 240 }));
    assert_eq!(sp.to_string(3).unwrap(), "4,0,1,play.png,320,240");

    let bare = SpriteLegacy::from_str("4,2,0,play.png", 3).unwrap().unwrap();
    assert_eq!(bare.position, None);
    assert_eq!(bare.to_string(3).unwrap(), "4,2,0,play.png");

    assert_eq!(
        SpriteLegacy::from_str("5,0,1,a.png", 3),
        Err(ParseSpriteLegacyError::WrongEventType)
    );
    assert_eq!(
        SpriteLegacy::from_str("4,9,1,a.png", 3),
        Err(ParseSpriteLegacyError::InvalidLayer)
    );
    assert_eq!(
        SpriteLegacy::from_str("4,0,1,a.png,1", 3),
        Err(ParseSpriteLegacyError::MissingY)
    );

    let anim = AnimationLegacy::from_str("5,1,3,run.png,-5,7", 3).unwrap().unwrap();
    assert_eq!(anim.layer, Layer::Fail);
    assert_eq!(anim.origin, Origin::TopRight);
    assert_eq!(anim.to_string(3).unwrap(), "5,1,3,run.png,-5,7");
}
