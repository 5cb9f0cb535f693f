use rblx_godot::capability::{CapabilityTableBuilder, ROOT_INTERFACE};
use rblx_godot::errors::CoreError;

const I_INSTANCE: u64 = 1;
const I_BASE_SCRIPT: u64 = 2;
const I_DATA_MODEL: u64 = 3;

#[test]
fn cast_registered_succeeds() {
    let mut b = CapabilityTableBuilder::new(0);
    b.insert(I_INSTANCE, 1);
    b.insert(I_BASE_SCRIPT, 2);
    let t = b.output();
    assert_eq!(t.cast_to(I_INSTANCE), Ok(1));
    assert_eq!(t.cast_to(I_BASE_SCRIPT), Ok(2));
}

#[test]
fn cast_unregistered_fails_typed() {
    let mut b = CapabilityTableBuilder::new(0);
    b.insert(I_INSTANCE, 1);
    let t = b.output();
    assert_eq!(t.cast_to(I_DATA_MODEL), Err(CoreError::CastFailure));
}

#[test]
fn root_cast_is_total() {
    let b = CapabilityTableBuilder::new(7);
    let t = b.output();
    assert_eq!(t.cast_to(ROOT_INTERFACE), Ok(7));
    assert_eq!(t.cast_to_root(), 7);
}

#[test]
fn cast_is_deterministic_across_calls() {
    let mut b = CapabilityTableBuilder::new(0);
    b.insert(I_INSTANCE, 4);
    let t = b.output();
    let first = t.cast_to(I_INSTANCE);
    let second = t.cast_to(I_INSTANCE);
    assert_eq!(first, second);
    let miss1 = t.cast_to(I_DATA_MODEL);
    let miss2 = t.cast_to(I_DATA_MODEL);
    assert_eq!(miss1, miss2);
    assert_eq!(miss1, Err(CoreError::CastFailure));
}
