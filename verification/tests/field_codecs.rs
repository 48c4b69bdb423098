use osu_events::helper::{
    add_old_version_time_offset, check_flag_at_bit_u8, parse_zero_one_bool, pipe_vec_to_string,
    ParseZeroOneBoolError,
};
use osu_events::hitobjects::error::{
    ParseColonSetError, ParseCurvePointError, ParseCurveTypeError, ParseHitSampleError,
    ParseSampleSetError, ParseVolumeError, VolumeSetError,
};
use osu_events::hitobjects::types::{
    ComboSkipCount, CurvePoint, CurveType, EdgeSet, HitSample, HitSound, SampleIndex, SampleSet,
    Volume,
};
use osu_events::hitobjects::{HitObjectType, HitObjectTypeNumber};
use osu_events::events::storyboard::sprites::Sprite;
use osu_events::Position;

#[test]
fn helper_codecs() {
    assert_eq!(add_old_version_time_offset(100, 3), 124);
    assert_eq!(add_old_version_time_offset(100, 14), 100);
    assert!(check_flag_at_bit_u8(0b100, 2));
    assert!(!check_flag_at_bit_u8(0b100, 1));
    assert_eq!(parse_zero_one_bool("0"), Ok(false));
    assert_eq!(parse_zero_one_bool("1"), Ok(true));
    assert_eq!(parse_zero_one_bool("2"), Err(ParseZeroOneBoolError::InvalidValue));
    assert_eq!(parse_zero_one_bool("x"), Err(ParseZeroOneBoolError::ParseIntError));
}

#[test]
fn volume_bounds() {
    assert_eq!(Volume::new(Some(100)), Ok(Volume(Some(100))));
    assert_eq!(Volume::new(Some(0)), Err(VolumeSetError::VolumeTooLow));
    assert_eq!(Volume::new(Some(101)), Err(VolumeSetError::VolumeTooHigh));
    assert_eq!(Volume::new(None), Ok(Volume(None)));
    let mut v = Volume(None);
    assert_eq!(v.set_volume(50), Ok(()));
    assert_eq!(v.volume(), Some(50));
    v.set_use_timing_point_volume();
    assert!(v.use_timing_point_volume());
    assert_eq!(Volume::from_str("0", 14), Ok(Some(Volume(None))));
    assert_eq!(
        Volume::from_str("180", 14),
        Err(ParseVolumeError::VolumeSetError(VolumeSetError::VolumeTooHigh))
    );
    assert_eq!(Volume::from_str("abc", 14), Err(ParseVolumeError::ParseIntError));
}

#[test]
fn hit_sound_flags() {
    let hs = HitSound::from_u8(0b1010, 14).unwrap();
    assert!(!hs.normal());
    assert!(hs.whistle());
    assert!(!hs.finish());
    assert!(hs.clap());
    assert_eq!(hs.to_string(14).unwrap(), "10");
    // with no flag set, the normal sound still plays
    let silent = HitSound::new(false, false, false, false);
    assert!(silent.normal());
    let mut hs2 = HitSound::new(true, false, false, false);
    hs2.set_finish(true);
    hs2.set_normal(false);
    assert_eq!(hs2.to_string(14).unwrap(), "4");
    assert_eq!(HitSound::from_str("bad", 14).unwrap_err(), osu_events::hitobjects::error::ParseHitSoundError::ParseIntError);
}

#[test]
fn sample_set_codec() {
    assert_eq!(SampleSet::from_str("0", 14), Ok(Some(SampleSet::NoCustomSampleSet)));
    assert_eq!(SampleSet::from_str("3", 14), Ok(Some(SampleSet::DrumSet)));
    assert_eq!(SampleSet::from_str("727", 14), Ok(Some(SampleSet::Other(727))));
    assert_eq!(SampleSet::from_str("x", 14), Err(ParseSampleSetError::ParseValueError));
    assert_eq!(SampleSet::SoftSet.to_string(14).unwrap(), "2");
}

#[test]
fn curve_codecs() {
    assert_eq!(CurveType::from_str("B", 14), Ok(Some(CurveType::Bezier)));
    assert_eq!(CurveType::from_str("Q", 14), Err(ParseCurveTypeError::UnknownVariant));
    assert_eq!(CurveType::PerfectCircle.to_string(14).unwrap(), "P");
    let cp = CurvePoint::from_str("320:-240", 14).unwrap().unwrap();
    assert_eq!(cp, CurvePoint(Position { x: 320, y: -240 }));
    assert_eq!(cp.to_string(14).unwrap(), "320:-240");
    assert_eq!(CurvePoint::from_str("320", 14), Err(ParseCurvePointError::InvalidLength));
    assert_eq!(CurvePoint::from_str("a:2", 14), Err(ParseCurvePointError::InvalidX));
    assert_eq!(CurvePoint::from_str("2:b", 14), Err(ParseCurvePointError::InvalidY));
}

#[test]
fn edge_set_codec() {
    let es = EdgeSet::from_str("1:2", 14).unwrap().unwrap();
    assert_eq!(es.normal_set, SampleSet::NormalSet);
    assert_eq!(es.addition_set, SampleSet::SoftSet);
    assert_eq!(EdgeSet::from_str("1:2:3", 14), Err(ParseColonSetError::InvalidLength));
    assert_eq!(
        EdgeSet::from_str("1:x", 14),
        Err(ParseColonSetError::InvalidSet(ParseSampleSetError::ParseValueError))
    );
}

#[test]
fn hit_sample_codec() {
    let hs = HitSample::from_str("1:2:3:40:hit.wav", 14).unwrap().unwrap();
    assert_eq!(hs.normal_set(), SampleSet::NormalSet);
    assert_eq!(hs.addition_set(), SampleSet::SoftSet);
    assert_eq!(hs.index(), SampleIndex::Index(3));
    assert_eq!(hs.volume(), &Volume(Some(40)));
    assert_eq!(hs.filename(), &Some("hit.wav".to_string()));
    assert_eq!(hs.to_string(14).unwrap(), "1:2:3:40:hit.wav");
    assert_eq!(hs.to_string(9), None);
    assert_eq!(hs.to_string(10).unwrap(), "1:2:3");

    let mut hs2 = HitSample::from_str("0:0:0:0:", 14).unwrap().unwrap();
    assert!(hs2.use_timing_point_index());
    hs2.set_index(7);
    assert_eq!(hs2.index(), SampleIndex::Index(7));
    hs2.set_use_timing_point_index();
    assert!(hs2.use_timing_point_index());
    hs2.set_normal_set(SampleSet::DrumSet);
    hs2.set_addition_set(SampleSet::SoftSet);
    assert_eq!(hs2.normal_set(), SampleSet::DrumSet);
    assert_eq!(hs2.addition_set(), SampleSet::SoftSet);

    assert_eq!(HitSample::from_str("1:2:3", 14), Err(ParseHitSampleError::InvalidLength));
    assert_eq!(HitSample::from_str("x:2:3:4", 14), Err(ParseHitSampleError::InvalidNormalSet));
    assert_eq!(HitSample::from_str("1:2:x:4", 14), Err(ParseHitSampleError::InvalidIndex));
    assert_eq!(HitSample::from_str("1:2:3:999", 14), Err(ParseHitSampleError::InvalidVolume));
}

#[test]
fn type_number_codec() {
    let n = HitObjectTypeNumber::from_str("38").unwrap();
    assert_eq!(n.obj_type, HitObjectType::Slider);
    assert!(n.new_combo);
    assert_eq!(n.combo_skip_count.get(), 2);
    let circle = HitObjectTypeNumber::from_str("1").unwrap();
    assert_eq!(circle.obj_type, HitObjectType::HitCircle);
    assert!(HitObjectTypeNumber::from_str("3").is_err());
    assert!(HitObjectTypeNumber::from_str("x").is_err());
    let hold = HitObjectTypeNumber::from_str("128").unwrap();
    assert_eq!(hold.obj_type, HitObjectType::OsuManiaHold);

    let mut skip = ComboSkipCount::new(0b0111_0000, 14).unwrap().unwrap();
    assert_eq!(skip.get(), 7);
    skip.set(0, 14).unwrap();
    assert_eq!(skip.get(), 0);
}

#[test]
fn sprite_paths_must_be_relative() {
    assert!(Sprite::new("sb/whistle.png".to_string()).is_ok());
    assert!(Sprite::new("/root/whistle.png".to_string()).is_err());
    assert!(Sprite::new("C:\\maps\\whistle.png".to_string()).is_err());
}

#[test]
fn pipe_list_join() {
    let parts = vec!["0".to_string(), "2".to_string(), "1:2".to_string()];
    assert_eq!(pipe_vec_to_string(&parts, 14), "0|2|1:2");
    assert_eq!(pipe_vec_to_string(&[], 14), "");
    assert_eq!(pipe_vec_to_string(&["8".to_string()], 14), "8");
}
