use peer_ctl::{
    ArgumentRule, ClassKind, ConfigurationError, ConnectMode, ConstructError, ConstructParams,
    Environment, Orientation, OverrideSource, ParseError, PeerConstructor, PeerCtl, Registry,
    SpecifierClass, SpecifierTree,
};

fn describe(
    name: &str,
    prefixes: &[&str],
    kind: ClassKind,
    connect: ConnectMode,
    global_state: bool,
) -> SpecifierClass {
    SpecifierClass {
        name: name.to_string(),
        prefixes: prefixes.iter().map(|p| p.to_string()).collect(),
        kind,
        orientation: Orientation::StreamOriented,
        connect,
        global_state,
    }
}

const TCP: usize = 0;
const TCP_LISTEN: usize = 1;
const WS_LISTEN: usize = 2;
const TLS: usize = 3;
const PEER_CTL: usize = 4;

fn table() -> Registry {
    let mut registry = Registry::new();
    let single = ConnectMode::SingleConnect;
    let multi = ConnectMode::MultiConnect;
    let nonempty = ClassKind::Transport(ArgumentRule::NonEmpty);
    let classes = vec![
        describe("Tcp", &["tcp:"], nonempty, single, false),
        describe("TcpListen", &["tcp-l:"], nonempty, multi, true),
        describe("WsListen", &["ws-l:"], ClassKind::Overlay, multi, false),
        describe("Tls", &["tls:"], ClassKind::Overlay, single, false),
        describe("PeerCtl", &["peer-ctl:", "from-peer:", "from-left:"], ClassKind::PeerCtl, single, false),
    ];
    for class in classes {
        assert!(registry.register(class).is_ok());
    }
    registry
}

fn leaf(class: usize, argument: &str) -> SpecifierTree {
    SpecifierTree::Transport { class, argument: argument.to_string() }
}

fn wrap(class: usize, inner: SpecifierTree) -> SpecifierTree {
    SpecifierTree::Overlay { class, inner: Box::new(inner) }
}

fn node(template: &str) -> SpecifierTree {
    SpecifierTree::PeerCtl { class: PEER_CTL, node: PeerCtl(template.to_string()) }
}

fn with_uri(source: OverrideSource, uri: &str) -> ConstructParams {
    ConstructParams {
        override_source: source,
        depth: 4,
        environment: Some(Environment { uri: Some(uri.to_string()), headers: vec![] }),
    }
}

fn with_header(name: &str, value: &str) -> ConstructParams {
    ConstructParams {
        override_source: OverrideSource::Header(name.to_string()),
        depth: 4,
        environment: Some(Environment {
            uri: None,
            headers: vec![(name.to_string(), value.to_string())],
        }),
    }
}

#[test]
fn empty_template_with_uri_path_builds_tcp_transport() {
    let registry = table();
    let cp = with_uri(OverrideSource::UriPath, "/tcp:203.0.113.5:8080");
    let peer_ctl = PeerCtl(String::new());
    assert_eq!(peer_ctl.merged_spec(&cp), Ok("tcp:203.0.113.5:8080".to_string()));
    assert_eq!(peer_ctl.respecify(&registry, &cp), Ok(leaf(TCP, "203.0.113.5:8080")));
    assert_eq!(
        peer_ctl.construct(&registry, &cp),
        PeerConstructor::Single(leaf(TCP, "203.0.113.5:8080"))
    );
}

#[test]
fn type_template_with_header_override() {
    let registry = table();
    let cp = with_header("X-Target-Host", "10.0.0.5:80");
    let peer_ctl = PeerCtl("tcp:".to_string());
    assert_eq!(peer_ctl.merged_spec(&cp), Ok("tcp:10.0.0.5:80".to_string()));
    assert_eq!(peer_ctl.construct(&registry, &cp), PeerConstructor::Single(leaf(TCP, "10.0.0.5:80")));
}

#[test]
fn template_with_query_parameter_override() {
    let registry = table();
    let cp = with_uri(
        OverrideSource::QueryParameter("target".to_string()),
        "/path?target=example.org:9000",
    );
    let peer_ctl = PeerCtl("tcp:example.com:80".to_string());
    assert_eq!(peer_ctl.merged_spec(&cp), Ok("tcp:example.org:9000".to_string()));
    assert_eq!(
        peer_ctl.construct(&registry, &cp),
        PeerConstructor::Single(leaf(TCP, "example.org:9000"))
    );
}

#[test]
fn template_without_colon_takes_the_override() {
    let registry = table();
    let cp = with_header("X-Target", "example.net:443");
    assert_eq!(PeerCtl("tcp".to_string()).merged_spec(&cp), Ok("tcp:example.net:443".to_string()));
}

#[test]
fn absent_header_keeps_the_template_fields() {
    let registry = table();
    let cp = ConstructParams {
        override_source: OverrideSource::Header("X-Target".to_string()),
        depth: 4,
        environment: Some(Environment { uri: None, headers: vec![] }),
    };
    let peer_ctl = PeerCtl("tcp:example.com:80".to_string());
    assert_eq!(peer_ctl.merged_spec(&cp), Ok("tcp::80".to_string()));
    assert_eq!(peer_ctl.construct(&registry, &cp), PeerConstructor::Single(leaf(TCP, ":80")));
}

#[test]
fn malformed_override_is_an_error_of_the_connection() {
    let registry = table();
    let peer_ctl = PeerCtl(String::new());
    let unknown = with_uri(OverrideSource::UriPath, "/bogus:foo");
    assert_eq!(
        peer_ctl.construct(&registry, &unknown),
        PeerConstructor::Error(ConstructError::Parse(ParseError::UnknownPrefix))
    );
    let empty = with_uri(OverrideSource::UriPath, "/");
    assert_eq!(
        peer_ctl.construct(&registry, &empty),
        PeerConstructor::Error(ConstructError::Parse(ParseError::EmptyInput))
    );
    let malformed = with_uri(OverrideSource::UriPath, "/tcp:");
    assert_eq!(
        peer_ctl.construct(&registry, &malformed),
        PeerConstructor::Error(ConstructError::Parse(ParseError::MalformedArgument))
    );
    let unparsable = with_uri(OverrideSource::QueryParameter("t".to_string()), ":99999999/?t=x");
    assert_eq!(
        peer_ctl.construct(&registry, &unparsable),
        PeerConstructor::Error(ConstructError::MalformedUri)
    );
}

#[test]
fn missing_context_is_an_error() {
    let registry = table();
    let peer_ctl = PeerCtl("tcp:".to_string());
    let no_environment =
        ConstructParams { override_source: OverrideSource::UriPath, depth: 4, environment: None };
    assert_eq!(peer_ctl.merged_spec(&no_environment), Err(ConstructError::MissingEnvironment));
    assert_eq!(
        peer_ctl.construct(&registry, &no_environment),
        PeerConstructor::Error(ConstructError::MissingEnvironment)
    );
    let no_uri = ConstructParams {
        override_source: OverrideSource::UriPath,
        depth: 4,
        environment: Some(Environment { uri: None, headers: vec![] }),
    };
    assert_eq!(
        peer_ctl.construct(&registry, &no_uri),
        PeerConstructor::Error(ConstructError::MissingUri)
    );
}

#[test]
fn override_cannot_select_another_protocol() {
    let registry = table();
    let peer_ctl = PeerCtl("tcp:example.com:80".to_string());
    let cp = with_uri(OverrideSource::UriPath, "/tcp-l:0.0.0.0:1");
    assert_eq!(peer_ctl.merged_spec(&cp), Ok("tcp:tcp-l:0.0.0.0:1".to_string()));
    assert_eq!(
        peer_ctl.construct(&registry, &cp),
        PeerConstructor::Single(leaf(TCP, "tcp-l:0.0.0.0:1"))
    );
}

#[test]
fn empty_template_lets_override_select_a_listener() {
    let registry = table();
    let cp = with_uri(OverrideSource::UriPath, "/ws-l:tcp-l:0.0.0.0:1");
    assert_eq!(
        PeerCtl(String::new()).construct(&registry, &cp),
        PeerConstructor::Multi(wrap(WS_LISTEN, leaf(TCP_LISTEN, "0.0.0.0:1")))
    );
}

#[test]
fn tree_construction_wraps_the_inner_plan() {
    let registry = table();
    let cp = with_header("X-Target", "example.net:443");
    let tree = registry.resolve("ws-l:tls:from-left:tcp:example.com:80").unwrap();
    assert_eq!(tree, wrap(WS_LISTEN, wrap(TLS, node("tcp:example.com:80"))));
    assert_eq!(
        tree.construct(&registry, &cp),
        PeerConstructor::Single(wrap(WS_LISTEN, wrap(TLS, leaf(TCP, "example.net:443"))))
    );
    let listener = registry.resolve("ws-l:tcp-l:0.0.0.0:80").unwrap();
    assert_eq!(
        listener.construct(&registry, &cp),
        PeerConstructor::Multi(wrap(WS_LISTEN, leaf(TCP_LISTEN, "0.0.0.0:80")))
    );
    let failing = registry.resolve("tls:from-left:bogus").unwrap();
    assert_eq!(
        failing.construct(&registry, &cp),
        PeerConstructor::Error(ConstructError::Parse(ParseError::UnknownPrefix))
    );
}

#[test]
fn nested_respecification_is_bounded() {
    let registry = table();
    let mut cp = with_uri(OverrideSource::UriPath, "/from-left:");
    let peer_ctl = PeerCtl(String::new());
    for depth in [0, 1, 2, 50] {
        cp.depth = depth;
        assert_eq!(
            peer_ctl.construct(&registry, &cp),
            PeerConstructor::Error(ConstructError::DepthExceeded)
        );
    }
    let mut once = with_header("X-Target", "tcp:h:1");
    let outer = PeerCtl("from-left:".to_string());
    assert_eq!(outer.merged_spec(&once), Ok("from-left:tcp:h:1".to_string()));
    once.depth = 1;
    assert_eq!(
        outer.construct(&registry, &once),
        PeerConstructor::Error(ConstructError::DepthExceeded)
    );
    once.depth = 2;
    assert_eq!(outer.construct(&registry, &once), PeerConstructor::Single(leaf(TCP, "tcp:h:1")));
    once.depth = 0;
    assert_eq!(
        registry.resolve("tcp:h:1").unwrap().construct(&registry, &once),
        PeerConstructor::Single(leaf(TCP, "h:1"))
    );
}

#[test]
fn tree_metadata_follows_the_classes() {
    let registry = table();
    let single = registry.resolve("tls:tcp:h:1").unwrap();
    assert!(!single.is_multi_connect(&registry));
    assert!(!single.has_global_state(&registry));
    let multi = registry.resolve("ws-l:tcp-l:h:1").unwrap();
    assert!(multi.is_multi_connect(&registry));
    assert!(multi.has_global_state(&registry));
    let dynamic = registry.resolve("ws-l:from-left:tcp-l:").unwrap();
    assert!(!dynamic.is_multi_connect(&registry));
    assert!(!dynamic.has_global_state(&registry));
}

#[test]
fn validation_finds_static_faults() {
    let registry = table();
    let check = |spec: &str| registry.resolve(spec).unwrap().validate(&registry);
    assert_eq!(check("ws-l:tls:tcp:h:1"), Ok(()));
    assert_eq!(check("ws-l:tcp-l:h:1"), Ok(()));
    assert_eq!(check("tls:tcp-l:h:1"), Err(ConfigurationError::NotComposable));
    assert_eq!(check("ws-l:tls:ws-l:tcp-l:h:1"), Err(ConfigurationError::NotComposable));
    assert_eq!(check("from-left:"), Ok(()));
    assert_eq!(check("from-left:tcp"), Ok(()));
    assert_eq!(check("from-left:tcp:example.com:80"), Ok(()));
    assert_eq!(check("ws-l:from-left:bogus:h"), Err(ConfigurationError::MalformedTemplate));
    assert_eq!(check("tls:tcp-l:h:1"), Err(ConfigurationError::NotComposable));
    assert!(PeerCtl("tcp:".to_string()).template_usable(&registry));
    assert!(!PeerCtl("udp:".to_string()).template_usable(&registry));
}
