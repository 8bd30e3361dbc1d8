use stackalloc::outcome::{Slot, Action};

#[test]
fn a_returned_value_is_returned() {
    let slot: Slot<u32, String> = Slot::record(Ok(41));
    assert!(matches!(slot, Slot::Returned(41)));
    match slot.settle() {
        Action::Return(value) => assert_eq!(value, 41),
        _ => panic!("a value was recorded"),
    }
}

#[test]
fn a_failure_is_resumed_with_its_payload() {
    let slot: Slot<u32, String> = Slot::record(Err(String::from("gave up")));
    match slot.settle() {
        Action::Resume(payload) => assert_eq!(payload, "gave up"),
        _ => panic!("a failure was recorded"),
    }
}

#[test]
fn a_vacant_slot_is_no_success() {
    let slot: Slot<(), ()> = Slot::Vacant;
    assert!(matches!(slot.settle(), Action::Abort));
}

#[test]
fn a_unit_result_is_still_a_result() {
    let slot: Slot<(), ()> = Slot::record(Ok(()));
    assert!(matches!(slot.settle(), Action::Return(())));
}
