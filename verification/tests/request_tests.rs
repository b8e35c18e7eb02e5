//! Building URIs: path chains, configuration-derived values, query
//! encoding, and parameter replacement.

use apireq::request::endpoints::{Endpoint, EndpointWithNoPara, EndpointWithParameters};
use apireq::request::parts::PathSegment;
use apireq::request::{
    ApiRequest, QueryParameters, RequestConfig, RequestPart, SerialiseRequestPart,
};
use apireq::{ConstServer, DynamicServer, Server, GET};

struct IdConfig {
    id: Option<String>,
}

impl RequestConfig for IdConfig {}

struct ExampleServer;

impl Server for ExampleServer {}

impl ConstServer for ExampleServer {
    fn root() -> &'static str {
        "https://api.example.com"
    }
}

struct TenantServer {
    root: String,
}

impl Server for TenantServer {}

impl DynamicServer for TenantServer {
    fn get_root(&self) -> &str {
        &self.root
    }
}

/// The chain `users -> {id}`: the literal word `users`, then the id
/// drawn from the configuration when it is present.
struct UserEndpoint;

impl RequestPart for UserEndpoint {}

impl SerialiseRequestPart<IdConfig> for UserEndpoint {
    fn parts(config: &IdConfig) -> Vec<PathSegment> {
        vec![PathSegment { word: "users".to_owned(), value: config.id.clone() }]
    }
}

impl Endpoint for UserEndpoint {
    type Method = GET;
    type Res = ();
    type Ser = ExampleServer;
}

impl EndpointWithNoPara for UserEndpoint {}

/// The same chain with a blank link spliced in: it must contribute
/// nothing.
struct UserEndpointWithBlank;

impl RequestPart for UserEndpointWithBlank {}

impl SerialiseRequestPart<IdConfig> for UserEndpointWithBlank {
    fn parts(config: &IdConfig) -> Vec<PathSegment> {
        vec![
            PathSegment { word: "users".to_owned(), value: None },
            PathSegment { word: String::new(), value: None },
            PathSegment { word: String::new(), value: config.id.clone() },
        ]
    }
}

impl Endpoint for UserEndpointWithBlank {
    type Method = GET;
    type Res = ();
    type Ser = ExampleServer;
}

impl EndpointWithNoPara for UserEndpointWithBlank {}

struct NotifParams {
    status: String,
    page: u32,
}

impl QueryParameters for NotifParams {
    fn pairs(&self) -> Vec<(String, String)> {
        vec![
            ("status".to_owned(), self.status.clone()),
            ("page".to_owned(), self.page.to_string()),
        ]
    }
}

impl serde::Serialize for NotifParams {
    fn serialize<S: serde::Serializer>(&self, serializer: S) -> Result<S::Ok, S::Error> {
        let mut st = serde::Serializer::serialize_struct(serializer, "NotifParams", 2)?;
        serde::ser::SerializeStruct::serialize_field(&mut st, "status", &self.status)?;
        serde::ser::SerializeStruct::serialize_field(&mut st, "page", &self.page)?;
        serde::ser::SerializeStruct::end(st)
    }
}

struct NoFieldParams;

impl QueryParameters for NoFieldParams {
    fn pairs(&self) -> Vec<(String, String)> {
        Vec::new()
    }
}

struct NotifEndpoint;

impl RequestPart for NotifEndpoint {}

impl SerialiseRequestPart<()> for NotifEndpoint {
    fn parts(_config: &()) -> Vec<PathSegment> {
        vec![PathSegment { word: "notifications".to_owned(), value: None }]
    }
}

impl Endpoint for NotifEndpoint {
    type Method = GET;
    type Res = ();
    type Ser = ExampleServer;
}

impl EndpointWithParameters for NotifEndpoint {
    type P = NotifParams;
}

struct BareEndpoint;

impl RequestPart for BareEndpoint {}

impl SerialiseRequestPart<()> for BareEndpoint {
    fn parts(_config: &()) -> Vec<PathSegment> {
        vec![PathSegment { word: "items".to_owned(), value: None }]
    }
}

impl Endpoint for BareEndpoint {
    type Method = GET;
    type Res = ();
    type Ser = ExampleServer;
}

impl EndpointWithParameters for BareEndpoint {
    type P = NoFieldParams;
}

struct TenantEndpoint;

impl RequestPart for TenantEndpoint {}

impl SerialiseRequestPart<IdConfig> for TenantEndpoint {
    fn parts(config: &IdConfig) -> Vec<PathSegment> {
        vec![PathSegment { word: "users".to_owned(), value: config.id.clone() }]
    }
}

impl Endpoint for TenantEndpoint {
    type Method = GET;
    type Res = ();
    type Ser = TenantServer;
}

impl EndpointWithNoPara for TenantEndpoint {}

struct TenantNotifEndpoint;

impl RequestPart for TenantNotifEndpoint {}

impl SerialiseRequestPart<()> for TenantNotifEndpoint {
    fn parts(_config: &()) -> Vec<PathSegment> {
        vec![PathSegment { word: "notifications".to_owned(), value: None }]
    }
}

impl Endpoint for TenantNotifEndpoint {
    type Method = GET;
    type Res = ();
    type Ser = TenantServer;
}

impl EndpointWithParameters for TenantNotifEndpoint {
    type P = NotifParams;
}

#[test]
fn builds_path_with_config_value() {
    let cfg = IdConfig { id: Some("42".to_owned()) };
    let r = ApiRequest::<UserEndpoint>::new(&cfg);
    assert_eq!(r.uri(), "https://api.example.com/users/42");
}

#[test]
fn builds_path_without_config_value() {
    let cfg = IdConfig { id: None };
    let r = ApiRequest::<UserEndpoint>::new(&cfg);
    assert_eq!(r.uri(), "https://api.example.com/users");
}

#[test]
fn blank_segment_contributes_no_bytes() {
    let cfg = IdConfig { id: Some("42".to_owned()) };
    let r = ApiRequest::<UserEndpointWithBlank>::new(&cfg);
    assert_eq!(r.uri(), "https://api.example.com/users/42");
}

#[test]
fn serialization_is_deterministic() {
    let cfg = IdConfig { id: Some("abc".to_owned()) };
    let a = ApiRequest::<UserEndpoint>::new(&cfg);
    let b = ApiRequest::<UserEndpoint>::new(&cfg);
    assert_eq!(a.uri(), b.uri());

    let p = |s: &str| NotifParams { status: s.to_owned(), page: 2 };
    let c = ApiRequest::<NotifEndpoint>::new_with_para(&(), p("read"));
    let d = ApiRequest::<NotifEndpoint>::new_with_para(&(), p("read"));
    assert_eq!(c.uri(), d.uri());
}

#[test]
fn query_encoding_stable_field_order() {
    let p = NotifParams { status: "read".to_owned(), page: 2 };
    let r = ApiRequest::<NotifEndpoint>::new_with_para(&(), p);
    assert_eq!(
        r.uri(),
        "https://api.example.com/notifications?status=read&page=2"
    );
}

#[test]
fn query_encoding_percent_encodes_reserved() {
    let p = NotifParams { status: "a&b=c d".to_owned(), page: 1 };
    let r = ApiRequest::<NotifEndpoint>::new_with_para(&(), p);
    assert_eq!(
        r.uri(),
        "https://api.example.com/notifications?status=a%26b%3Dc+d&page=1"
    );
}

#[test]
fn query_encoding_multibyte_characters() {
    let p = NotifParams { status: "caf\u{e9}+\u{2603}".to_owned(), page: 1 };
    let r = ApiRequest::<NotifEndpoint>::new_with_para(&(), p);
    assert_eq!(
        r.uri(),
        "https://api.example.com/notifications?status=caf%C3%A9%2B%E2%98%83&page=1"
    );
}

#[test]
fn query_encoding_agrees_with_serde_url_params() {
    let p = NotifParams { status: "a&b=c d*-._~".to_owned(), page: 7 };
    let encoded = serde_url_params::to_string(&p).unwrap();
    let r = ApiRequest::<NotifEndpoint>::new_with_para(&(), p);
    let expected = format!("https://api.example.com/notifications?{}", encoded);
    assert_eq!(r.uri(), expected);
}

#[test]
fn empty_parameter_shape_yields_bare_question_mark() {
    let r = ApiRequest::<BareEndpoint>::new_with_para(&(), NoFieldParams);
    assert_eq!(r.uri(), "https://api.example.com/items?");
}

#[test]
fn replace_parameters_equals_fresh_build() {
    let p1 = NotifParams { status: "read".to_owned(), page: 2 };
    let p2 = NotifParams { status: "unread".to_owned(), page: 9 };
    let p2_again = NotifParams { status: "unread".to_owned(), page: 9 };

    let mut replaced = ApiRequest::<NotifEndpoint>::new_with_para(&(), p1);
    replaced.change_para(p2);
    let fresh = ApiRequest::<NotifEndpoint>::new_with_para(&(), p2_again);
    assert_eq!(replaced.uri(), fresh.uri());
}

#[test]
fn replace_parameters_is_idempotent() {
    let p = |s: &str, n: u32| NotifParams { status: s.to_owned(), page: n };
    let mut once = ApiRequest::<NotifEndpoint>::new_with_para(&(), p("read", 2));
    once.change_para(p("done", 5));
    let mut many = ApiRequest::<NotifEndpoint>::new_with_para(&(), p("read", 2));
    many.change_para(p("a b", 3));
    many.change_para(p("x&y", 4));
    many.change_para(p("done", 5));
    assert_eq!(once.uri(), many.uri());
}

#[test]
fn replace_parameters_keeps_path_portion() {
    let p1 = NotifParams { status: "read".to_owned(), page: 2 };
    let p2 = NotifParams { status: "unread".to_owned(), page: 3 };
    let mut r = ApiRequest::<NotifEndpoint>::new_with_para(&(), p1);
    r.change_para(p2);
    assert!(r.uri().starts_with("https://api.example.com/notifications?"));
}

#[test]
fn dynamic_server_supplies_runtime_root() {
    let server = TenantServer { root: "https://tenant-a.example.net".to_owned() };
    let cfg = IdConfig { id: Some("7".to_owned()) };
    let r = ApiRequest::<TenantEndpoint>::new_with_server(&cfg, &server);
    assert_eq!(r.uri(), "https://tenant-a.example.net/users/7");
}

#[test]
fn dynamic_server_with_parameters() {
    let server = TenantServer { root: "https://tenant-b.example.net".to_owned() };
    let p = NotifParams { status: "read".to_owned(), page: 1 };
    let r = ApiRequest::<TenantNotifEndpoint>::new_with_para_server(&(), p, &server);
    assert_eq!(
        r.uri(),
        "https://tenant-b.example.net/notifications?status=read&page=1"
    );
}

#[test]
fn empty_string_value_still_contributes_a_slash() {
    let cfg = IdConfig { id: Some(String::new()) };
    let r = ApiRequest::<UserEndpoint>::new(&cfg);
    assert_eq!(r.uri(), "https://api.example.com/users/");
}
