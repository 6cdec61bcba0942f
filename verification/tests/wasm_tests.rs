use moltis_core::wasm::client::MoltisClient;
use moltis_core::wasm::config::WasmConfig;
use moltis_core::wasm::error::WasmError;

#[test]
fn test_config_defaults() {
    let config = WasmConfig::new();
    assert!(config.backend_url.is_none());
    assert!(config.default_model.is_none());
    assert!(config.persist_sessions);
}

#[test]
fn test_config_setters() {
    let mut config = WasmConfig::new();
    config.set_backend_url("http://localhost:3000".to_string());
    config.set_default_model("gpt-4".to_string());
    config.set_persist_sessions(false);

    assert_eq!(
        config.get_backend_url(),
        Some("http://localhost:3000".to_string())
    );
    assert_eq!(config.get_default_model(), Some("gpt-4".to_string()));
    assert!(!config.get_persist_sessions());
}

#[test]
fn test_client_creation() {
    let client = MoltisClient::new();
    assert!(client.get_backend_url().is_none());
    assert!(!client.has_backend());
}

#[test]
fn test_client_with_backend() {
    let mut client = MoltisClient::new();
    client.set_backend_url("http://localhost:3000".to_string());
    assert_eq!(
        client.get_backend_url(),
        Some("http://localhost:3000".to_string())
    );
    assert!(client.has_backend());
}

#[test]
fn test_new_session() {
    let mut client = MoltisClient::new();
    assert!(client.get_session_id().is_none());

    let session_id = client.new_session();
    assert!(!session_id.is_empty());
    assert_eq!(client.get_session_id(), Some(session_id));
}

#[test]
fn a_client_takes_over_a_configuration() {
    let mut config = WasmConfig::default();
    config.set_backend_url("https://gw.example".to_string());
    config.set_persist_sessions(false);
    let mut client = MoltisClient::with_config(config);
    assert!(client.has_backend());
    assert_eq!(
        client.get_backend_url(),
        Some("https://gw.example".to_string())
    );
    assert_eq!(client.get_session_id(), None);
    client.enter_session("s-1".to_string());
    assert_eq!(client.get_session_id(), Some("s-1".to_string()));
    let first = client.new_session();
    let second = client.new_session();
    assert_eq!(first.len(), 36);
    assert_ne!(first, second);
    assert_eq!(client.get_session_id(), Some(second));
    assert!(!MoltisClient::default().has_backend());
}

#[test]
fn errors_in_words() {
    assert_eq!(
        WasmError::Config("bad url".into()).message(),
        "Configuration error: bad url"
    );
    assert_eq!(WasmError::Network("down".into()).message(), "Network error: down");
    assert_eq!(
        WasmError::Serialization("eof".into()).message(),
        "Serialization error: eof"
    );
    assert_eq!(WasmError::Storage("full".into()).message(), "Storage error: full");
    assert_eq!(WasmError::Backend("500".into()).message(), "Backend error: 500");
    assert_eq!(
        WasmError::NotInitialized("client".into()).message(),
        "Not initialized: client"
    );
    assert_eq!(
        WasmError::from_backend("boom".into()),
        WasmError::Backend("boom".into())
    );
}
