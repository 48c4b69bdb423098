use osu_events::decimal::Dec;
use osu_events::events::storyboard::cmds::{
    push_continuing_pair, set_continuing_rgb, set_continuing_second, Command, CommandProperties,
    ContinuingPair, ContinuingRgb, TriggerAddition, TriggerSampleSet, TriggerType,
};
use osu_events::events::storyboard::error::{
    CommandParseError, ContinuingRGBSetError, ContinuingSetError, InvalidColourFieldOption,
};

fn parse(s: &str) -> Result<Command, osu_events::events::storyboard::error::CommandParseError> {
    let chars: Vec<char> = s.chars().collect();
    Command::parse(&chars)
}

#[test]
fn storyboard_cmd_errors() {
    let missing_easing = "F";
    let invalid_easing = "F,this is wrong!,123";
    let missing_start_time = "F,0";
    let invalid_start_time = "F,0,foo";
    let missing_end_time = "F,0,0";
    let invalid_end_time = "F,0,0,foo";
    let missing_command_params = "F,0,0,0";
    let invalid_event = "foo,0,0,0,0,0,0";
    let missing_loop_count = "L,0";

    assert_eq!("Unknown command type", parse(invalid_event).unwrap_err().to_string());
    assert_eq!("Missing `easing` field", parse(missing_easing).unwrap_err().to_string());
    assert_eq!("Invalid `easing` value", parse(invalid_easing).unwrap_err().to_string());
    assert_eq!("Missing `start_time` field", parse(missing_start_time).unwrap_err().to_string());
    assert_eq!("Invalid `start_time` value", parse(invalid_start_time).unwrap_err().to_string());
    assert_eq!("Missing `end_time` field", parse(missing_end_time).unwrap_err().to_string());
    assert_eq!("Invalid `end_time` value", parse(invalid_end_time).unwrap_err().to_string());
    assert_eq!(
        "Missing `start_opacity` field",
        parse(missing_command_params).unwrap_err().to_string()
    );
    assert_eq!("Missing `loop_count` field", parse(missing_loop_count).unwrap_err().to_string());
}

#[test]
fn continuing_error() {
    let colour_invalid_red = "C,0,0,1,foo";
    let missing_green = "C,0,0,1,255";
    let invalid_continuing_red = "C,0,0,0,255,255,255,foo";
    let missing_second_field = "V,0,0,0,0.5";
    let invalid_move_x_continuing = "M,0,0,0,100,-100,foo";

    assert_eq!(
        "Invalid continuing colour value",
        parse(invalid_continuing_red).unwrap_err().to_string()
    );
    assert_eq!("Invalid `red` value", parse(colour_invalid_red).unwrap_err().to_string());
    assert_eq!("Missing `green` field", parse(missing_green).unwrap_err().to_string());
    assert_eq!("Missing `scale_y` field", parse(missing_second_field).unwrap_err().to_string());
    assert_eq!(
        "Invalid continuing move value",
        parse(invalid_move_x_continuing).unwrap_err().to_string()
    );
}

#[test]
fn trigger_type_grammar() {
    let cmd = parse("T,HitSoundSoftWhistle,100,200").unwrap();
    assert_eq!(cmd.start_time, 100);
    match cmd.properties {
        CommandProperties::Trigger { trigger_type, group_number, end_time, commands } => {
            assert_eq!(
                trigger_type,
                TriggerType::HitSound {
                    sample_set: Some(TriggerSampleSet::Soft),
                    additions_sample_set: None,
                    addition: Some(TriggerAddition::Whistle),
                    custom_sample_set: None,
                }
            );
            assert_eq!(group_number, None);
            assert_eq!(end_time, 200);
            assert!(commands.is_empty());
        }
        _ => panic!("expected a trigger command"),
    }

    let with_group = parse("T,Passing,5,0,100").unwrap();
    match with_group.properties {
        CommandProperties::Trigger { trigger_type, group_number, .. } => {
            assert_eq!(trigger_type, TriggerType::Passing);
            assert_eq!(group_number, Some(5));
        }
        _ => panic!("expected a trigger command"),
    }

    assert_eq!(parse("T,HitSoundX,0,1").unwrap_err(), CommandParseError::InvalidTriggerType);
}

#[test]
fn continuing_keyframes_parse_and_print() {
    // a short final keyframe keeps its omitted components omitted
    let cmd = parse("M,0,0,1,10,20,2,30").unwrap();
    match &cmd.properties {
        CommandProperties::Move { continuing_positions, .. } => {
            assert_eq!(continuing_positions.len(), 1);
            assert_eq!(continuing_positions[0].end_time, 2);
            assert!(continuing_positions[0].second.is_none());
        }
        _ => panic!("expected a move command"),
    }
    let mut out: Vec<char> = Vec::new();
    cmd.push_line_chars(&mut out);
    let text: String = out.into_iter().collect();
    assert_eq!(text, "M,0,0,1,10,20,2,30");

    // decimal values print back exactly as stored, scale included
    let scale = parse("S,0,0,100,0.50").unwrap();
    let mut out2: Vec<char> = Vec::new();
    scale.push_line_chars(&mut out2);
    let text2: String = out2.into_iter().collect();
    assert_eq!(text2, "S,0,0,100,0.50");

    // an empty end time means "ends where it starts" and prints back empty
    let fade = parse("F,0,500,,1").unwrap();
    let mut out3: Vec<char> = Vec::new();
    fade.push_line_chars(&mut out3);
    let text3: String = out3.into_iter().collect();
    assert_eq!(text3, "F,0,500,,1");
}

#[test]
fn continuing_setters_guard_omission() {
    let half = Dec { mantissa: 5, scale: 1 };
    let mut pairs = vec![
        ContinuingPair { end_time: 1, first: half, second: Some(half) },
        ContinuingPair { end_time: 2, first: half, second: Some(half) },
    ];
    assert_eq!(
        set_continuing_second(&mut pairs, 5, None),
        Err(ContinuingSetError::IndexOutOfBounds)
    );
    assert_eq!(
        set_continuing_second(&mut pairs, 0, None),
        Err(ContinuingSetError::InvalidSecondFieldOption)
    );
    assert_eq!(set_continuing_second(&mut pairs, 1, None), Ok(()));
    assert!(push_continuing_pair(&mut pairs, ContinuingPair {
        end_time: 3,
        first: half,
        second: None,
    })
    .is_err());

    let mut rgbs = vec![ContinuingRgb { end_time: 1, red: 0, green: Some(1), blue: Some(2) }];
    assert_eq!(
        set_continuing_rgb(&mut rgbs, 0, None, Some(3)),
        Err(ContinuingRGBSetError::InvalidFieldOption(InvalidColourFieldOption::Green))
    );
    assert_eq!(set_continuing_rgb(&mut rgbs, 0, Some(7), None), Ok(()));
    assert_eq!(rgbs[0].green, Some(7));
    assert_eq!(rgbs[0].blue, None);
}
