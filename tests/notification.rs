use std::sync::Arc;

use notification_gateway::config::AppConfig;
use notification_gateway::error::BrokerError;
use notification_gateway::events::{ChannelTag, EventMessage};
use notification_gateway::notification::{NotificationRouter, StateTokenService, PAGINATION_SIZE};
use notification_gateway::registry::Registry;
use notification_gateway::request::{AddGroupEndpointRequest, Pagination, SendNotificationEndpointRequest};
use notification_gateway::response::{ObtainTokenResponse, UserAuthenticationResponse};
use notification_gateway::token::{JwtService, NotificationSenderClaim, Tokens};

const NOW: u64 = 1_700_000_000;

fn service() -> JwtService {
    JwtService::new(Arc::new(AppConfig {
        rust_log: "info".to_string(),
        bearer_secret: "bearer-secret".to_string(),
        refresh_secret: "refresh-secret".to_string(),
        verify_registration_secret: "sender-secret".to_string(),
        service_url: "127.0.0.1".to_string(),
        service_port: 8080,
        cors_origin: "*".to_string(),
        user_host: "localhost".to_string(),
        user_port: 1,
        email_host: "localhost".to_string(),
        email_port: 2,
        templating_host: "localhost".to_string(),
        templating_port: 3,
        notification_host: "localhost".to_string(),
        notification_port: 4,
    }))
}

fn request(address: &str, subject: &str, message: &str) -> SendNotificationEndpointRequest {
    SendNotificationEndpointRequest {
        address: Some(address.to_string()),
        subject: Some(subject.to_string()),
        message: Some(message.to_string()),
    }
}

fn claim() -> Result<NotificationSenderClaim, BrokerError> {
    Ok(NotificationSenderClaim { channel: "alerts".to_string(), email: "a@x.com".to_string(), exp: NOW })
}

fn bearer(user_id: i64) -> String {
    let mut claims = serde_json::Map::new();
    claims.insert("sub".to_string(), serde_json::Value::from("a@x.com"));
    claims.insert("permissions".to_string(), serde_json::Value::from(Vec::<String>::new()));
    claims.insert("user_id".to_string(), serde_json::Value::from(user_id));
    claims.insert("exp".to_string(), serde_json::Value::from(4_000_000_000u64));
    jsonwebtoken::encode(
        &jsonwebtoken::Header::default(),
        &claims,
        &jsonwebtoken::EncodingKey::from_secret("bearer-secret".as_bytes()),
    )
    .unwrap()
}

#[test]
fn connection_tags_follow_user_and_groups() {
    assert!(NotificationRouter::subscriber_tags(None, Some(vec!["ops".to_string()])).is_empty());
    assert_eq!(NotificationRouter::subscriber_tags(Some(3), None), vec![ChannelTag::UserId(3)]);
    assert_eq!(
        NotificationRouter::subscriber_tags(Some(3), Some(vec!["ops".to_string(), "dev".to_string()])),
        vec![
            ChannelTag::UserId(3),
            ChannelTag::ChannelId("ops".to_string()),
            ChannelTag::ChannelId("dev".to_string())
        ]
    );
}

#[test]
fn anonymous_stream_still_gets_broadcasts() {
    let mut reg = Registry::new();
    let anon = NotificationRouter::open_stream(&mut reg, None, None).unwrap();
    let user = NotificationRouter::open_stream(&mut reg, Some(1), Some(vec!["ops".to_string()])).unwrap();
    assert_eq!(reg.resolve(&ChannelTag::ChannelId("ops".to_string())), vec![user]);
    let pending = NotificationRouter::check_publish(request("Broadcast", "status", "up"), claim()).unwrap();
    NotificationRouter::publish(&mut reg, pending, 7, 99);
    assert!(matches!(reg.receive(anon), Some(EventMessage::Broadcast(_))));
    assert!(matches!(reg.receive(user), Some(EventMessage::Broadcast(_))));
}

#[test]
fn publish_checks_run_in_order() {
    let unauthorized: Result<NotificationSenderClaim, BrokerError> = Err(BrokerError::Unauthorized);
    let bad = SendNotificationEndpointRequest { address: None, subject: Some("status".to_string()), message: None };
    assert_eq!(NotificationRouter::check_publish(bad, Err(BrokerError::Unauthorized)).err(), Some(BrokerError::BadRequest));
    assert_eq!(
        NotificationRouter::check_publish(request("Foo:1", "status", "x"), unauthorized).err(),
        Some(BrokerError::Unauthorized)
    );
    assert_eq!(
        NotificationRouter::check_publish(request("Foo:1", "status", "x"), claim()).err(),
        Some(BrokerError::InvalidAddress)
    );
    let p = NotificationRouter::check_publish(request("User:05", "status", "x"), claim()).unwrap();
    assert_eq!(p.tag, ChannelTag::UserId(5));
    assert_eq!(p.channel, "User:5");
    assert_eq!((p.subject.as_str(), p.message.as_str()), ("status", "x"));
}

#[test]
fn publish_with_a_real_sender_token() {
    let jwt = service();
    let token = jwt.create_notification_sender_token("alerts", "a@x.com", NOW).unwrap();
    let mut reg = Registry::new();
    let ops = reg.register(vec![ChannelTag::ChannelId("ops".to_string())]).unwrap();
    let other = reg.register(vec![ChannelTag::UserId(2)]).unwrap();
    let pending = NotificationRouter::prepare_notification(&jwt, &token, NOW, request("Channel:ops", "deploys", "v2 out")).unwrap();
    NotificationRouter::publish(&mut reg, pending, 11, 1234);
    match reg.receive(ops) {
        Some(EventMessage::Channel(m)) => {
            assert_eq!((m.id, m.datetime), (11, 1234));
            assert_eq!(m.channel, "Channel:ops");
            assert_eq!(m.subject, "deploys");
            assert_eq!(m.message, "v2 out");
        }
        other => panic!("unexpected {other:?}"),
    }
    assert!(reg.receive(other).is_none());
    assert_eq!(
        NotificationRouter::prepare_notification(&jwt, "garbage", NOW, request("Broadcast", "status", "x")).err(),
        Some(BrokerError::Unauthorized)
    );
    assert_eq!(
        NotificationRouter::prepare_notification(&jwt, &token, NOW, request("Broadcast", "st", "x")).err(),
        Some(BrokerError::BadRequest)
    );
}

#[test]
fn user_addressed_publish_is_a_user_envelope() {
    let mut reg = Registry::new();
    let a = reg.register(vec![ChannelTag::UserId(1)]).unwrap();
    let pending = NotificationRouter::check_publish(request("User:1", "direct!", "hello"), claim()).unwrap();
    NotificationRouter::publish(&mut reg, pending, 1, 2);
    assert!(matches!(reg.receive(a), Some(EventMessage::User(_))));
}

#[test]
fn group_creation_issues_a_sender_token() {
    let jwt = service();
    let req = AddGroupEndpointRequest { group_name: Some("alerts".to_string()), admin_email: Some("a@x.com".to_string()) };
    let group = NotificationRouter::prepare_group(&jwt, &bearer(1), NOW, req).unwrap();
    assert_eq!(group.group_name, "alerts");
    assert_eq!(group.admin_email, "a@x.com");
    let claim = jwt.decode_notification_sender_token(&group.token, NOW).unwrap();
    assert_eq!((claim.channel.as_str(), claim.email.as_str()), ("alerts", "a@x.com"));
    let denied = AddGroupEndpointRequest { group_name: Some("alerts".to_string()), admin_email: Some("a@x.com".to_string()) };
    assert_eq!(NotificationRouter::prepare_group(&jwt, "garbage", NOW, denied).err(), Some(BrokerError::Unauthorized));
    let bad = AddGroupEndpointRequest { group_name: Some("a".to_string()), admin_email: Some("a@x.com".to_string()) };
    assert_eq!(NotificationRouter::prepare_group(&jwt, &bearer(1), NOW, bad).err(), Some(BrokerError::BadRequest));
}

#[test]
fn group_created_message_text() {
    assert_eq!(
        NotificationRouter::group_created_message("alerts", "t.o.k"),
        "successfully created group: alerts, group token is: t.o.k"
    );
}

#[test]
fn history_addresses_and_window() {
    assert!(NotificationRouter::log_channels(None, None).is_empty());
    assert_eq!(
        NotificationRouter::log_channels(Some(4), Some(vec!["ops".to_string()])),
        vec!["User:4".to_string(), "Channel:ops".to_string()]
    );
    assert_eq!(NotificationRouter::log_window(&Pagination { page: None }), Ok((0, PAGINATION_SIZE)));
    assert_eq!(NotificationRouter::log_window(&Pagination { page: Some(3) }), Ok((30, 10)));
    assert_eq!(NotificationRouter::log_window(&Pagination { page: Some(-1) }), Ok((-10, 10)));
    assert_eq!(NotificationRouter::log_window(&Pagination { page: Some(i64::MAX) }), Err(BrokerError::BadRequest));
    assert_eq!(NotificationRouter::log_window(&Pagination { page: Some(i64::MIN) }), Err(BrokerError::BadRequest));
    assert_eq!(
        NotificationRouter::log_window(&Pagination { page: Some(i64::MAX / 10) }),
        Ok(((i64::MAX / 10) * 10, 10))
    );
}

#[test]
fn small_constructors_keep_their_fields() {
    let t = ObtainTokenResponse::from_tokens(Tokens { bearer: "b".to_string(), refresh: "r".to_string() });
    assert_eq!((t.bearer_token.as_str(), t.refresh_token.as_str()), ("b", "r"));
    let u = UserAuthenticationResponse::new(1, "n".to_string(), "e@x.com".to_string(), None, Some("i".to_string()), "tok".to_string());
    assert_eq!(u.user.id, 1);
    assert_eq!(u.user.email, "e@x.com");
    assert_eq!(u.user.image.as_deref(), Some("i"));
    let s = StateTokenService::new(service());
    let claim = s.0.create_notification_sender_token("c", "d@x.com", NOW);
    assert!(claim.is_ok());
}
