use realm_session::backend::input::{InputAction, InputDevices, InputEvent, InputOutcome};
use realm_session::backend::{
    BackendCapacityResource, BackendError, BackendProtocolErrorKind, MAX_BACKEND_INPUT_DEVICES,
    MAX_BACKEND_LIBINPUT_DEVICES,
};

fn ok(action: InputAction) -> InputOutcome {
    InputOutcome {
        action,
        result: Ok(()),
    }
}

fn tap_refusal() -> InputOutcome {
    InputOutcome {
        action: InputAction::Nothing,
        result: Err(BackendError::Unavailable {
            message: "River rejected required tap-to-click policy".to_owned(),
        }),
    }
}

fn unknown_device() -> InputOutcome {
    InputOutcome {
        action: InputAction::Nothing,
        result: Err(BackendError::Protocol {
            kind: BackendProtocolErrorKind::InvalidFraming,
        }),
    }
}

#[test]
fn finished_keyboard_gets_the_fixed_repeat_policy() {
    let mut devices = InputDevices::new(true);
    assert_eq!(devices.apply(InputEvent::DeviceCreated(5)), ok(InputAction::Nothing));
    assert_eq!(devices.devices, vec![(5, None)]);
    assert_eq!(devices.next_input_ordinal, 1);
    assert_eq!(
        devices.apply(InputEvent::DeviceType {
            device: 5,
            keyboard: true
        }),
        ok(InputAction::Nothing)
    );
    assert!(!devices.flush_pending);
    assert_eq!(
        devices.apply(InputEvent::DeviceDone(5)),
        ok(InputAction::SetRepeatInfo {
            device: 5,
            rate: 25,
            delay: 600
        })
    );
    assert!(devices.flush_pending);
}

#[test]
fn finished_pointer_gets_no_repeat_policy() {
    let mut devices = InputDevices::new(true);
    devices.apply(InputEvent::DeviceCreated(9));
    devices.apply(InputEvent::DeviceType {
        device: 9,
        keyboard: false,
    });
    assert_eq!(devices.apply(InputEvent::DeviceDone(9)), ok(InputAction::Nothing));
    assert!(!devices.flush_pending);
}

#[test]
fn removed_device_is_destroyed_and_forgotten() {
    let mut devices = InputDevices::new(false);
    devices.apply(InputEvent::DeviceCreated(3));
    devices.apply(InputEvent::DeviceCreated(4));
    assert_eq!(devices.apply(InputEvent::DeviceRemoved(3)), ok(InputAction::Destroy(3)));
    assert_eq!(devices.devices, vec![(4, None)]);
    assert!(!devices.flush_pending);
    assert_eq!(devices.apply(InputEvent::DeviceDone(3)), unknown_device());
}

#[test]
fn facts_about_unknown_devices_are_protocol_errors() {
    let mut devices = InputDevices::new(true);
    assert_eq!(
        devices.apply(InputEvent::DeviceType {
            device: 1,
            keyboard: true
        }),
        unknown_device()
    );
    assert_eq!(
        devices.apply(InputEvent::TapSupport {
            device: 1,
            finger_count: 3
        }),
        unknown_device()
    );
    assert_eq!(
        devices.apply(InputEvent::TapCurrent {
            device: 1,
            enabled: false
        }),
        unknown_device()
    );
    assert_eq!(devices.apply(InputEvent::LibinputDone(1)), unknown_device());
}

#[test]
fn input_devices_beyond_capacity_are_destroyed_and_refused() {
    let mut devices = InputDevices::new(true);
    for id in 0..MAX_BACKEND_INPUT_DEVICES as u32 {
        assert_eq!(devices.apply(InputEvent::DeviceCreated(id)), ok(InputAction::Nothing));
    }
    assert_eq!(
        devices.apply(InputEvent::DeviceCreated(1000)),
        InputOutcome {
            action: InputAction::Destroy(1000),
            result: Err(BackendError::Capacity {
                resource: BackendCapacityResource::InputDevices,
                limit: 64
            }),
        }
    );
    assert_eq!(devices.devices.len(), MAX_BACKEND_INPUT_DEVICES);
}

#[test]
fn libinput_devices_beyond_capacity_are_destroyed_and_refused() {
    let mut devices = InputDevices::new(true);
    for id in 0..MAX_BACKEND_LIBINPUT_DEVICES as u32 {
        devices.apply(InputEvent::LibinputCreated(id));
    }
    assert_eq!(
        devices.apply(InputEvent::LibinputCreated(1000)),
        InputOutcome {
            action: InputAction::Destroy(1000),
            result: Err(BackendError::Capacity {
                resource: BackendCapacityResource::LibinputDevices,
                limit: 64
            }),
        }
    );
}

#[test]
fn exhausted_ordinals_refuse_new_devices() {
    let mut devices = InputDevices::new(true);
    devices.next_input_ordinal = u64::MAX;
    assert_eq!(
        devices.apply(InputEvent::DeviceCreated(1)),
        InputOutcome {
            action: InputAction::Nothing,
            result: Err(BackendError::Capacity {
                resource: BackendCapacityResource::ObjectOrdinals,
                limit: u64::MAX
            }),
        }
    );
    assert!(devices.devices.is_empty());
}

#[test]
fn touchpad_with_tapping_off_gets_tap_to_click_requested() {
    let mut devices = InputDevices::new(true);
    devices.apply(InputEvent::LibinputCreated(7));
    devices.apply(InputEvent::TapSupport {
        device: 7,
        finger_count: 3,
    });
    devices.apply(InputEvent::TapCurrent {
        device: 7,
        enabled: false,
    });
    assert_eq!(devices.libinput, vec![(7, Some(3), Some(false))]);
    assert_eq!(devices.apply(InputEvent::LibinputDone(7)), ok(InputAction::EnableTap(7)));
    devices.tap_requested(100);
    assert_eq!(devices.results, vec![100]);
    assert!(devices.flush_pending);
    assert_eq!(
        devices.apply(InputEvent::LibinputResult {
            result: 100,
            success: true
        }),
        ok(InputAction::Nothing)
    );
    assert!(devices.results.is_empty());
    assert_eq!(
        devices.apply(InputEvent::LibinputResult {
            result: 100,
            success: true
        }),
        tap_refusal()
    );
}

#[test]
fn tap_is_left_alone_when_unsupported_or_already_on() {
    let mut devices = InputDevices::new(true);
    devices.apply(InputEvent::LibinputCreated(1));
    devices.apply(InputEvent::TapSupport {
        device: 1,
        finger_count: 0,
    });
    devices.apply(InputEvent::TapCurrent {
        device: 1,
        enabled: false,
    });
    assert_eq!(devices.apply(InputEvent::LibinputDone(1)), ok(InputAction::Nothing));
    devices.apply(InputEvent::LibinputCreated(2));
    devices.apply(InputEvent::TapSupport {
        device: 2,
        finger_count: 2,
    });
    devices.apply(InputEvent::TapCurrent {
        device: 2,
        enabled: true,
    });
    assert_eq!(devices.apply(InputEvent::LibinputDone(2)), ok(InputAction::Nothing));
}

#[test]
fn failed_tap_configuration_is_refused() {
    let mut devices = InputDevices::new(true);
    devices.tap_requested(8);
    assert_eq!(
        devices.apply(InputEvent::LibinputResult {
            result: 8,
            success: false
        }),
        tap_refusal()
    );
    assert!(devices.results.is_empty());
}

#[test]
fn removed_libinput_device_is_destroyed() {
    let mut devices = InputDevices::new(true);
    devices.apply(InputEvent::LibinputCreated(2));
    assert_eq!(
        devices.apply(InputEvent::LibinputRemoved(2)),
        ok(InputAction::Destroy(2))
    );
    assert!(devices.libinput.is_empty());
    assert!(devices.flush_pending);
}
