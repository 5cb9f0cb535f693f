use rblx_godot::flags::{FastFlag, FastFlagValue, FastFlags, FlagKind, FloatBits};

#[test]
fn defaults_match_the_documented_table() {
    let f = FastFlags::new();
    assert!(f.get_bool(FastFlag::VSync));
    assert!(!f.get_bool(FastFlag::GlobalsReadonly));
    assert!(f.get_bool(FastFlag::IsClient));
    assert!(!f.get_bool(FastFlag::IsStudio));
    assert!(f.get_bool(FastFlag::DebugMode));
    assert_eq!(f.get_int(FastFlag::MaxPhysicsStepsPerFrame), 8);
    assert_eq!(f.get_int(FastFlag::GameId), 0);
    assert_eq!(f.get_int(FastFlag::PlaceVersion), 1);
    assert_eq!(f.get_int(FastFlag::SignalBehavior), 0);
    assert_eq!(f.get_string(FastFlag::GameName), "rblx-godot");
    assert_eq!(f.get_string(FastFlag::JobId), "");
    assert_eq!(f.get_string(FastFlag::PrivateServerId), "reserved server");
    assert_eq!(f64::from_bits(f.get_float(FastFlag::TargetFPS).bits), 60.0);
    assert_eq!(f64::from_bits(f.get_float(FastFlag::TargetPhysicsFPS).bits), 60.0);
}

#[test]
fn get_default_matches_fresh_store() {
    match FastFlag::PlaceVersion.get_default() {
        FastFlagValue::Int(v) => assert_eq!(v, 1),
        _ => panic!("wrong kind"),
    }
    match FastFlag::GameName.get_default() {
        FastFlagValue::Str(s) => assert_eq!(s, "rblx-godot"),
        _ => panic!("wrong kind"),
    }
}

#[test]
fn kinds_are_fixed_per_flag() {
    assert_eq!(FastFlag::TargetFPS.kind(), FlagKind::Float);
    assert_eq!(FastFlag::VSync.kind(), FlagKind::Bool);
    assert_eq!(FastFlag::GameName.kind(), FlagKind::Text);
    assert_eq!(FastFlag::CreatorType.kind(), FlagKind::Int);
}

#[test]
fn setters_round_trip() {
    let mut f = FastFlags::new();
    f.set_bool(FastFlag::IsStudio, true);
    assert!(f.get_bool(FastFlag::IsStudio));
    f.set_int(FastFlag::PlaceId, 77);
    assert_eq!(f.get_int(FastFlag::PlaceId), 77);
    f.set_string(FastFlag::JobId, String::from("job-1"));
    assert_eq!(f.get_string(FastFlag::JobId), "job-1");
    f.set_float(FastFlag::TargetFPS, FloatBits { bits: (144.0f64).to_bits() });
    assert_eq!(f64::from_bits(f.get_float(FastFlag::TargetFPS).bits), 144.0);
}

#[test]
fn initialize_with_table_applies_first_to_last() {
    let mut f = FastFlags::new();
    f.initialize_with_table(vec![
        (FastFlag::GameId, FastFlagValue::Int(1)),
        (FastFlag::CreatorId, FastFlagValue::Int(2)),
        (FastFlag::GameId, FastFlagValue::Int(3)),
    ]);
    assert_eq!(f.get_int(FastFlag::GameId), 3);
    assert_eq!(f.get_int(FastFlag::CreatorId), 2);
}

#[test]
fn get_flag_value_reads_back_tagged() {
    let mut f = FastFlags::new();
    f.set_value(FastFlag::PrivateServerOwnerId, FastFlagValue::Int(31));
    match f.get_flag_value(FastFlag::PrivateServerOwnerId) {
        FastFlagValue::Int(v) => assert_eq!(v, 31),
        _ => panic!("wrong kind"),
    }
    match f.get_flag_value(FastFlag::GameName) {
        FastFlagValue::Str(s) => assert_eq!(s, "rblx-godot"),
        _ => panic!("wrong kind"),
    }
}
