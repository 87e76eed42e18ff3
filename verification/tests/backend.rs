use realm_session::backend::river::{decode_modifiers, modifiers_bits};
use realm_session::backend::{
    BackendBindingId, BackendModifier, BackendCapacityResource, BackendError, BackendPolicyTurnId,
    BackendProtocolErrorKind, BackendTicket, BackendWindowId, WorkerCapacityError,
    WorkerCapacityResource,
};

#[test]
fn backend_window_id_accepts_exact_bounds_and_rejects_invalid_bytes() {
    assert_eq!(BackendWindowId::new(" ".to_owned()).unwrap().as_str(), " ");
    assert_eq!(BackendWindowId::new("~".to_owned()).unwrap().as_str(), "~");

    let maximum = "x".repeat(32);
    assert_eq!(
        BackendWindowId::new(maximum.clone()).unwrap().as_str(),
        maximum
    );

    assert!(BackendWindowId::new("".to_owned()).is_none());
    assert!(BackendWindowId::new("x".repeat(33)).is_none());
    assert!(BackendWindowId::new("\u{1f}".to_owned()).is_none());
    assert!(BackendWindowId::new("\u{7f}".to_owned()).is_none());
    assert!(BackendWindowId::new("é".to_owned()).is_none());
}

#[test]
fn backend_errors_retain_machine_readable_context() {
    let error = BackendError::Unsupported {
        capability: "exact-geometry".to_owned(),
    };
    assert!(matches!(
        error,
        BackendError::Unsupported { ref capability } if capability == "exact-geometry"
    ));
    assert_eq!(
        error.message(),
        "backend cannot honour capability exact-geometry"
    );

    let protocol = BackendError::Protocol {
        kind: BackendProtocolErrorKind::InvalidFraming,
    };
    assert!(matches!(
        &protocol,
        BackendError::Protocol {
            kind: BackendProtocolErrorKind::InvalidFraming
        }
    ));
    assert_eq!(
        protocol.message(),
        "backend protocol violation: InvalidFraming"
    );

    let capacity = BackendError::Capacity {
        resource: BackendCapacityResource::PolicyTurnIds,
        limit: u64::MAX,
    };
    assert!(matches!(
        &capacity,
        BackendError::Capacity {
            resource: BackendCapacityResource::PolicyTurnIds,
            limit: u64::MAX,
        }
    ));
    assert_eq!(
        capacity.message(),
        format!(
            "backend capacity exceeded for PolicyTurnIds: limit {}",
            u64::MAX
        )
    );
}

#[test]
fn nonzero_identities_refuse_zero() {
    assert!(BackendTicket::new(0).is_none());
    assert_eq!(BackendTicket::new(7).unwrap().get(), 7);
    assert!(BackendPolicyTurnId::new(0).is_none());
    assert_eq!(BackendPolicyTurnId::new(u64::MAX).unwrap().get(), u64::MAX);
    assert!(BackendBindingId::new(0).is_none());
    assert_eq!(BackendBindingId::new(3).unwrap().get(), 3);
}

#[test]
fn worker_capacity_error_names_its_queue_and_limit() {
    let error = WorkerCapacityError {
        resource: WorkerCapacityResource::Jobs,
        limit: 256,
    };
    assert_eq!(error.message(), "worker capacity exceeded for Jobs: limit 256");
    let results = WorkerCapacityError {
        resource: WorkerCapacityResource::Results,
        limit: 256,
    };
    assert_eq!(
        results.message(),
        "worker capacity exceeded for Results: limit 256"
    );
}

#[test]
fn modifier_masks_decode_and_encode_back() {
    assert_eq!(
        modifiers_bits(&[
            BackendModifier::Shift,
            BackendModifier::Control,
            BackendModifier::Alt,
            BackendModifier::Super,
        ]),
        77
    );
    assert_eq!(
        decode_modifiers(65).unwrap(),
        vec![BackendModifier::Shift, BackendModifier::Super]
    );
    for bits in [0u32, 1, 4, 5, 8, 12, 64, 65, 72, 77] {
        let decoded = decode_modifiers(bits).unwrap();
        assert_eq!(modifiers_bits(&decoded), bits);
    }
    assert_eq!(
        decode_modifiers(2).unwrap_err(),
        BackendError::Protocol {
            kind: BackendProtocolErrorKind::InvalidFraming
        }
    );
}
