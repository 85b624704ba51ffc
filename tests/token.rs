use std::sync::Arc;

use notification_gateway::config::AppConfig;
use notification_gateway::error::BrokerError;
use notification_gateway::token::{
    check_bearer_claims, check_registration_claims, check_sender_claims, ClaimFields, JwtService,
    BEARER_TOKEN_LIFETIME, REFRESH_TOKEN_LIFETIME, REGISTRATION_TOKEN_LIFETIME, SENDER_TOKEN_LIFETIME,
};

fn config(sender_secret: &str) -> AppConfig {
    AppConfig {
        rust_log: "info".to_string(),
        bearer_secret: "bearer-secret".to_string(),
        refresh_secret: "refresh-secret".to_string(),
        verify_registration_secret: sender_secret.to_string(),
        service_url: "127.0.0.1".to_string(),
        service_port: 8080,
        cors_origin: "*".to_string(),
        user_host: "localhost".to_string(),
        user_port: 1,
        email_host: "localhost".to_string(),
        email_port: 2,
        templating_host: "localhost".to_string(),
        templating_port: 3,
        notification_host: "localhost".to_string(),
        notification_port: 4,
    }
}

const NOW: u64 = 1_700_000_000;

#[test]
fn sender_token_verifies_to_its_pair_until_expiry() {
    let jwt = JwtService::new(Arc::new(config("sender-secret")));
    let token = jwt.create_notification_sender_token("alerts", "a@x.com", NOW).unwrap();
    assert_eq!(token.matches('.').count(), 2);
    assert_ne!(token, "alerts");
    for at in [NOW, NOW + 1, NOW + SENDER_TOKEN_LIFETIME] {
        let claim = jwt.decode_notification_sender_token(&token, at).unwrap();
        assert_eq!(claim.channel, "alerts");
        assert_eq!(claim.email, "a@x.com");
        assert_eq!(claim.exp, NOW + SENDER_TOKEN_LIFETIME);
    }
    assert_eq!(
        jwt.decode_notification_sender_token(&token, NOW + SENDER_TOKEN_LIFETIME + 1).err(),
        Some(BrokerError::Unauthorized)
    );
}

#[test]
fn sender_token_is_bound_to_its_secret() {
    let issuer = JwtService::new(Arc::new(config("sender-secret")));
    let other = JwtService::new(Arc::new(config("another-secret")));
    let token = issuer.create_notification_sender_token("alerts", "a@x.com", NOW).unwrap();
    assert_eq!(other.decode_notification_sender_token(&token, NOW).err(), Some(BrokerError::Unauthorized));
    assert_eq!(issuer.decode_notification_sender_token("not.a.token", NOW).err(), Some(BrokerError::Unauthorized));
    assert_eq!(issuer.decode_notification_sender_token("", NOW).err(), Some(BrokerError::Unauthorized));
}

#[test]
fn sender_tokens_are_deterministic_per_claim() {
    let jwt = JwtService::new(Arc::new(config("sender-secret")));
    let a = jwt.create_notification_sender_token("alerts", "a@x.com", NOW).unwrap();
    let b = jwt.create_notification_sender_token("alerts", "a@x.com", NOW).unwrap();
    let c = jwt.create_notification_sender_token("alerts", "b@x.com", NOW).unwrap();
    assert_eq!(a, b);
    assert_ne!(a, c);
}

fn fields(channel: Option<&str>, email: Option<&str>, exp: Option<u64>) -> ClaimFields {
    ClaimFields {
        sub: None,
        user_id: None,
        user_email: None,
        channel: channel.map(str::to_string),
        email: email.map(str::to_string),
        permissions: None,
        exp,
    }
}

#[test]
fn claim_check_needs_every_field_and_a_live_expiry() {
    let ok = check_sender_claims(fields(Some("alerts"), Some("a@x.com"), Some(100)), 100).unwrap();
    assert_eq!((ok.channel.as_str(), ok.email.as_str(), ok.exp), ("alerts", "a@x.com", 100));
    let refused = [
        fields(Some("alerts"), Some("a@x.com"), Some(99)),
        fields(None, Some("a@x.com"), Some(200)),
        fields(Some("alerts"), None, Some(200)),
        fields(Some("alerts"), Some("a@x.com"), None),
    ];
    for f in refused {
        assert_eq!(check_sender_claims(f, 100).err(), Some(BrokerError::Unauthorized));
    }
}

#[test]
fn bearer_and_registration_checks() {
    let bearer = ClaimFields {
        sub: Some("a@x.com".to_string()),
        user_id: Some(4),
        user_email: None,
        channel: None,
        email: None,
        permissions: Some(vec!["read".to_string()]),
        exp: Some(50),
    };
    let b = check_bearer_claims(bearer, 50).unwrap();
    assert_eq!((b.sub.as_str(), b.user_id, b.exp), ("a@x.com", 4, 50));
    assert_eq!(b.permissions, vec!["read".to_string()]);
    let no_permissions = ClaimFields { sub: Some("a@x.com".to_string()), user_id: Some(4), user_email: None, channel: None, email: None, permissions: None, exp: Some(50) };
    assert_eq!(check_bearer_claims(no_permissions, 0).err(), Some(BrokerError::Unauthorized));
    let reg = ClaimFields { sub: None, user_id: Some(9), user_email: None, channel: None, email: None, permissions: None, exp: Some(10) };
    assert_eq!(check_registration_claims(reg, 10), Ok(9));
    let late = ClaimFields { sub: None, user_id: Some(9), user_email: None, channel: None, email: None, permissions: None, exp: Some(10) };
    assert_eq!(check_registration_claims(late, 11), Err(BrokerError::Unauthorized));
}

#[test]
fn user_tokens_round_trip_with_their_lifetimes() {
    let jwt = JwtService::new(Arc::new(config("sender-secret")));
    let tokens = jwt.create_token(7, "u@x.com", vec!["read".to_string(), "write".to_string()], NOW).unwrap();
    let b = jwt.decode_bearer_token(&tokens.bearer, NOW).unwrap();
    assert_eq!((b.sub.as_str(), b.user_id, b.exp), ("u@x.com", 7, NOW + BEARER_TOKEN_LIFETIME));
    assert_eq!(b.permissions, vec!["read".to_string(), "write".to_string()]);
    assert_eq!(jwt.decode_bearer_token(&tokens.bearer, NOW + BEARER_TOKEN_LIFETIME + 1).err(), Some(BrokerError::Unauthorized));
    assert_eq!(jwt.decode_bearer_token(&tokens.refresh, NOW).err(), Some(BrokerError::Unauthorized));
    let f = jwt.decode_refresh_token(&tokens.refresh, NOW + REFRESH_TOKEN_LIFETIME).unwrap();
    assert_eq!((f.user_id, f.user_email.as_str(), f.exp), (7, "u@x.com", NOW + REFRESH_TOKEN_LIFETIME));
    assert_eq!(jwt.decode_refresh_token(&tokens.bearer, NOW).err(), Some(BrokerError::Unauthorized));
    let reg = jwt.create_verify_registration_token(7, NOW).unwrap();
    assert_eq!(jwt.decode_verify_registration_token(&reg, NOW + REGISTRATION_TOKEN_LIFETIME), Ok(7));
    assert_eq!(
        jwt.decode_verify_registration_token(&reg, NOW + REGISTRATION_TOKEN_LIFETIME + 1),
        Err(BrokerError::Unauthorized)
    );
    assert_eq!(jwt.decode_notification_sender_token(&reg, NOW).err(), Some(BrokerError::Unauthorized));
}

fn bearer(secret: &str, user_id: Option<i64>, exp: u64) -> String {
    let mut claims = serde_json::Map::new();
    claims.insert("sub".to_string(), serde_json::Value::from("a@x.com"));
    claims.insert("permissions".to_string(), serde_json::Value::from(Vec::<String>::new()));
    if let Some(id) = user_id {
        claims.insert("user_id".to_string(), serde_json::Value::from(id));
    }
    claims.insert("exp".to_string(), serde_json::Value::from(exp));
    jsonwebtoken::encode(
        &jsonwebtoken::Header::default(),
        &claims,
        &jsonwebtoken::EncodingKey::from_secret(secret.as_bytes()),
    )
    .unwrap()
}

#[test]
fn bearer_token_written_elsewhere_yields_its_user_id() {
    let jwt = JwtService::new(Arc::new(config("sender-secret")));
    let read = |t: &str, now: u64| jwt.decode_bearer_token(t, now).map(|c| c.user_id);
    assert_eq!(read(&bearer("bearer-secret", Some(42), NOW + 10), NOW), Ok(42));
    assert_eq!(read(&bearer("other", Some(42), NOW + 10), NOW), Err(BrokerError::Unauthorized));
    assert_eq!(read(&bearer("bearer-secret", None, NOW + 10), NOW), Err(BrokerError::Unauthorized));
    assert_eq!(read(&bearer("bearer-secret", Some(42), NOW - 1), NOW), Err(BrokerError::Unauthorized));
}

#[test]
fn sender_token_issued_for_alerts_is_refused_after_a_year() {
    let jwt = JwtService::new(Arc::new(config("sender-secret")));
    let token = jwt.create_notification_sender_token("alerts", "a@x.com", 0).unwrap();
    let claim = jwt.decode_notification_sender_token(&token, SENDER_TOKEN_LIFETIME).unwrap();
    assert_eq!((claim.channel.as_str(), claim.email.as_str()), ("alerts", "a@x.com"));
    assert_eq!(
        jwt.decode_notification_sender_token(&token, SENDER_TOKEN_LIFETIME + 1).err(),
        Some(BrokerError::Unauthorized)
    );
}

#[test]
fn user_tokens_are_never_sender_tokens() {
    let jwt = JwtService::new(Arc::new(config("sender-secret")));
    let tokens = jwt.create_token(7, "u@x.com", vec![], NOW).unwrap();
    assert_eq!(jwt.decode_notification_sender_token(&tokens.bearer, NOW).err(), Some(BrokerError::Unauthorized));
    assert_eq!(jwt.decode_notification_sender_token(&tokens.refresh, NOW).err(), Some(BrokerError::Unauthorized));
    let sender = jwt.create_notification_sender_token("alerts", "a@x.com", NOW).unwrap();
    assert_eq!(jwt.decode_bearer_token(&sender, NOW).err(), Some(BrokerError::Unauthorized));
}
