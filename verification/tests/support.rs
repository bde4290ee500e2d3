use state_machine::support::DispatchError;

#[test]
fn every_error_has_its_message() {
    assert_eq!(
        DispatchError::BlockNumberMismatch { expected: 1, got: 3 }.message(),
        "block number does not match what is expected"
    );
    assert_eq!(DispatchError::InsufficientBalance.message(), "Not enough funds.");
    assert_eq!(DispatchError::Overflow.message(), "Overflow");
    assert_eq!(
        DispatchError::AlreadyClaimed.message(),
        "This content has already been claimed."
    );
    assert_eq!(DispatchError::ClaimNotFound.message(), "This claim does not exist.");
    assert_eq!(
        DispatchError::NotClaimOwner.message(),
        "You are not the owner of this claim."
    );
}

#[test]
fn errors_compare_by_kind_and_fields() {
    assert_eq!(
        DispatchError::BlockNumberMismatch { expected: 1, got: 3 },
        DispatchError::BlockNumberMismatch { expected: 1, got: 3 }
    );
    assert_ne!(
        DispatchError::BlockNumberMismatch { expected: 1, got: 3 },
        DispatchError::BlockNumberMismatch { expected: 1, got: 4 }
    );
    assert_ne!(DispatchError::ClaimNotFound, DispatchError::NotClaimOwner);
}
