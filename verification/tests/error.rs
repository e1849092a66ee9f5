use verusid_core::error::NamespaceError;

#[test]
fn messages_name_what_failed() {
    let transport = NamespaceError::Transport {
        method: "listcurrencies".to_string(),
        detail: "connection refused".to_string(),
    };
    assert_eq!(transport.message(), "Failed to call listcurrencies: connection refused");
    let shape = NamespaceError::ShapeMismatch {
        subject: "currencies".to_string(),
        detail: "missing field `name`".to_string(),
    };
    assert_eq!(shape.message(), "Failed to parse currencies response: missing field `name`");
    let chain = NamespaceError::UnsupportedChain { blockchain_id: "unknown-chain".to_string() };
    assert_eq!(chain.message(), "Unsupported blockchain: unknown-chain");
    let empty = NamespaceError::Transport { method: String::new(), detail: String::new() };
    assert_eq!(empty.message(), "Failed to call : ");
}

#[test]
fn errors_copy_to_equal_errors() {
    let chain = NamespaceError::UnsupportedChain { blockchain_id: "x".to_string() };
    assert_eq!(chain.clone(), chain);
    let shape = NamespaceError::ShapeMismatch { subject: "a".to_string(), detail: "b".to_string() };
    assert_eq!(shape.clone(), shape);
    assert_ne!(
        NamespaceError::Transport { method: "a".to_string(), detail: "b".to_string() },
        NamespaceError::ShapeMismatch { subject: "a".to_string(), detail: "b".to_string() }
    );
}
