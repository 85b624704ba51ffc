use std::sync::Arc;

use notification_gateway::auth::{header_token_of, OptionalAuthentication, RequiredAuthentication};
use notification_gateway::config::AppConfig;
use notification_gateway::error::BrokerError;
use notification_gateway::token::JwtService;

const NOW: u64 = 1_700_000_000;

fn service() -> JwtService {
    JwtService::new(Arc::new(AppConfig {
        rust_log: "info".to_string(),
        bearer_secret: "bearer-secret".to_string(),
        refresh_secret: "refresh-secret".to_string(),
        verify_registration_secret: "sender-secret".to_string(),
        service_url: "127.0.0.1".to_string(),
        service_port: 8080,
        cors_origin: "*".to_string(),
        user_host: "localhost".to_string(),
        user_port: 1,
        email_host: "localhost".to_string(),
        email_port: 2,
        templating_host: "localhost".to_string(),
        templating_port: 3,
        notification_host: "localhost".to_string(),
        notification_port: 4,
    }))
}

#[test]
fn header_token_needs_the_scheme_and_one_space() {
    assert_eq!(header_token_of("Bearer abc", "Bearer"), Some("abc".to_string()));
    assert_eq!(header_token_of("Bearer ", "Bearer"), Some(String::new()));
    assert_eq!(header_token_of("Basic abc", "Bearer"), None);
    assert_eq!(header_token_of("Bearer a b", "Bearer"), None);
    assert_eq!(header_token_of("Bearerabc", "Bearer"), None);
    assert_eq!(header_token_of("x MyBearer", "Bearer"), Some("MyBearer".to_string()));
    assert_eq!(header_token_of("", "Bearer"), None);
}

#[test]
fn required_authentication_reads_the_user() {
    let jwt = service();
    let tokens = jwt.create_token(21, "u@x.com", vec![], NOW).unwrap();
    let header = format!("Bearer {}", tokens.bearer);
    assert_eq!(RequiredAuthentication::from_header(Some(&header), &jwt, NOW).map(|a| a.0), Ok(21));
    assert_eq!(RequiredAuthentication::from_header(None, &jwt, NOW).err().map(|_| ()), Some(()));
    let token_scheme = format!("Token {}", tokens.bearer);
    assert!(matches!(
        RequiredAuthentication::from_header(Some(&token_scheme), &jwt, NOW),
        Err(BrokerError::Unauthorized)
    ));
    assert!(matches!(
        RequiredAuthentication::from_header(Some("Bearer nonsense"), &jwt, NOW),
        Err(BrokerError::Unauthorized)
    ));
    assert!(matches!(
        RequiredAuthentication::from_header(Some(&header), &jwt, NOW + 61),
        Err(BrokerError::Unauthorized)
    ));
}

#[test]
fn optional_authentication_falls_back_to_nobody() {
    let jwt = service();
    let tokens = jwt.create_token(5, "u@x.com", vec!["read".to_string()], NOW).unwrap();
    let header = format!("Token {}", tokens.bearer);
    assert_eq!(OptionalAuthentication::from_header(Some(&header), &jwt, NOW).0, Some(5));
    assert_eq!(OptionalAuthentication::from_header(None, &jwt, NOW).0, None);
    assert_eq!(OptionalAuthentication::from_header(Some("Token junk"), &jwt, NOW).0, None);
    let bearer = format!("Bearer {}", tokens.bearer);
    assert_eq!(OptionalAuthentication::from_header(Some(&bearer), &jwt, NOW).0, None);
}
