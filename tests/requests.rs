use notification_gateway::error::BrokerError;
use notification_gateway::request::{
    AddGroupEndpointRequest, AddTemplateEndpointRequest, LoginEndpointRequest, RefreshtokenEndpointRequest,
    RegisterEndpointRequest, SendNotificationEndpointRequest, TemplateInputsEndpoint, UpdateEndpointRequest,
};

fn s(v: &str) -> Option<String> {
    Some(v.to_string())
}

fn send(address: Option<String>, subject: Option<String>, message: Option<String>) -> SendNotificationEndpointRequest {
    SendNotificationEndpointRequest { address, subject, message }
}

#[test]
fn publish_request_rules() {
    assert_eq!(send(s("Broadcast"), s("status"), s("")).validate(), Ok(()));
    assert_eq!(send(s("x"), s("a".repeat(30).as_str()), s("b")).validate(), Ok(()));
    assert_eq!(send(None, s("status"), s("b")).validate(), Err(BrokerError::BadRequest));
    assert_eq!(send(s("x"), None, s("b")).validate(), Err(BrokerError::BadRequest));
    assert_eq!(send(s("x"), s("short"), s("b")).validate(), Err(BrokerError::BadRequest));
    assert_eq!(send(s("x"), s("a".repeat(31).as_str()), s("b")).validate(), Err(BrokerError::BadRequest));
    assert_eq!(send(s("x"), s("status"), None).validate(), Err(BrokerError::BadRequest));
    assert_eq!(send(s("x"), s("éééééé"), s("b")).validate(), Ok(()));
}

#[test]
fn group_request_rules() {
    let g = |n: Option<String>, e: Option<String>| AddGroupEndpointRequest { group_name: n, admin_email: e };
    assert_eq!(g(s("alerts"), s("a@x.com")).validate(), Ok(()));
    assert_eq!(g(s("alert"), s("a@x.com")).validate(), Err(BrokerError::BadRequest));
    assert_eq!(g(s("alerts"), s("not-an-email")).validate(), Err(BrokerError::BadRequest));
    assert_eq!(g(s("alerts"), s("")).validate(), Err(BrokerError::BadRequest));
    assert_eq!(g(s("alerts"), None).validate(), Err(BrokerError::BadRequest));
    assert_eq!(g(None, s("a@x.com")).validate(), Err(BrokerError::BadRequest));
}

#[test]
fn user_request_rules() {
    let r = |e: &str, p: &str| RegisterEndpointRequest { email: s(e), password: s(p), first_name: s("A"), last_name: s("B") };
    assert_eq!(r("a@x.com", "password").validate(), Ok(()));
    assert_eq!(r("a@x.com", "short").validate(), Err(BrokerError::BadRequest));
    assert_eq!(r("nope", "password").validate(), Err(BrokerError::BadRequest));
    let missing = RegisterEndpointRequest { email: s("a@x.com"), password: s("password"), first_name: None, last_name: s("B") };
    assert_eq!(missing.validate(), Err(BrokerError::BadRequest));
    assert_eq!(LoginEndpointRequest { email: s("a@x.com"), password: s("password") }.validate(), Ok(()));
    assert_eq!(LoginEndpointRequest { email: s("a@x.com"), password: None }.validate(), Err(BrokerError::BadRequest));
    assert_eq!(RefreshtokenEndpointRequest { token: s("t") }.validate(), Ok(()));
    assert_eq!(RefreshtokenEndpointRequest { token: s("") }.validate(), Err(BrokerError::BadRequest));
    let u = |p: Option<String>| UpdateEndpointRequest { password: p, first_name: None, last_name: None, bio: None, image: None };
    assert_eq!(u(None).validate(), Ok(()));
    assert_eq!(u(s("longenough")).validate(), Ok(()));
    assert_eq!(u(s("short")).validate(), Err(BrokerError::BadRequest));
}

#[test]
fn template_request_rules() {
    let t = |n: &str, b: Option<String>| AddTemplateEndpointRequest { name: s(n), description: None, body: b, template_inputs: None };
    assert_eq!(t("welcome", s("Hi")).validate(), Ok(()));
    assert_eq!(t("welcome", s("")).validate(), Err(BrokerError::BadRequest));
    assert_eq!(t("hey", s("Hi")).validate(), Err(BrokerError::BadRequest));
    assert_eq!(TemplateInputsEndpoint { name: s("user_name"), default_value: None }.validate(), Ok(()));
    assert_eq!(TemplateInputsEndpoint { name: None, default_value: s("x") }.validate(), Err(BrokerError::BadRequest));
}
