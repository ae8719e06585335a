//! The OAuth callback: classification and the single-use slot.

use mcp_gateway::AppError;
use mcp_gateway::CallbackSlot;
use mcp_gateway::callback::classify_callback;
use mcp_gateway::callback::timeout_failure;

#[test]
fn well_formed_callback_succeeds() {
    let r = classify_callback(
        Some("X".to_string()),
        Some("Y".to_string()),
        None,
        None,
    )
    .expect("code and state present");
    assert_eq!(r.code, "X");
    assert_eq!(r.state, "Y");
}

#[test]
fn denial_short_circuits_to_failure() {
    match classify_callback(
        Some("X".to_string()),
        Some("Y".to_string()),
        Some("access_denied".to_string()),
        Some("user said no".to_string()),
    ) {
        Err(AppError::OAuth(m)) => {
            assert_eq!(m, "Authorization denied: access_denied — user said no");
        }
        other => panic!("expected an OAuth failure, got {other:?}"),
    }
}

#[test]
fn missing_code_or_state_fails() {
    for (code, state) in [
        (Some("X".to_string()), None),
        (None, Some("Y".to_string())),
        (None, None),
    ] {
        match classify_callback(code, state, None, None) {
            Err(AppError::OAuth(m)) => {
                assert_eq!(m, "Missing code or state in OAuth callback");
            }
            other => panic!("expected an OAuth failure, got {other:?}"),
        }
    }
}

#[test]
fn slot_resolves_success_exactly_once() {
    let mut slot = CallbackSlot::new();
    let ok = classify_callback(Some("X".to_string()), Some("Y".to_string()), None, None);
    let delivered = slot.resolve(ok).expect("first resolution wins");
    assert!(delivered.is_ok());

    // The timeout fires later and must be a no-op.
    assert!(slot.resolve(Err(timeout_failure())).is_none());
}

#[test]
fn timeout_first_makes_late_callback_a_no_op() {
    let mut slot = CallbackSlot::new();
    let delivered = slot.resolve(Err(timeout_failure())).expect("timeout wins");
    match delivered {
        Err(AppError::OAuth(m)) => {
            assert_eq!(m, "OAuth callback timed out — no response received within 2 minutes");
        }
        other => panic!("expected the timeout failure, got {other:?}"),
    }
    let late = classify_callback(Some("X".to_string()), Some("Y".to_string()), None, None);
    assert!(slot.resolve(late).is_none(), "a spent slot delivers nothing");
}
