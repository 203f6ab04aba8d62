use lattice_bus::invocation::{Invocation, InvocationResponse};

fn invocation() -> Invocation {
    Invocation {
        id: "inv-1".to_string(),
        origin: "host-a".to_string(),
        target: "svc.echo".to_string(),
        operation: "echo".to_string(),
        payload: vec![1, 2, 3],
        antiforgery: "signed".to_string(),
    }
}

#[test]
fn success_carries_the_payload() {
    let response = InvocationResponse::success(&invocation(), vec![0x01, 0x02, 0x03]);
    assert_eq!(
        response,
        InvocationResponse {
            invocation_id: "inv-1".to_string(),
            payload: vec![0x01, 0x02, 0x03],
            error: None,
        }
    );
}

#[test]
fn error_carries_the_message() {
    let response = InvocationResponse::error(&invocation(), "no such operation");
    assert_eq!(
        response,
        InvocationResponse {
            invocation_id: "inv-1".to_string(),
            payload: vec![],
            error: Some("no such operation".to_string()),
        }
    );
}

#[test]
fn error_with_an_empty_message_is_still_an_error() {
    let response = InvocationResponse::error(&invocation(), "");
    assert_eq!(response.error, Some(String::new()));
    assert!(response.payload.is_empty());
}
