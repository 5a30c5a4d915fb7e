use peer_ctl::registry::is_simple_prefix;
use peer_ctl::{
    ArgumentRule, ClassKind, ConnectMode, Orientation, ParseError, PeerCtl, Registry,
    RegistryError, SpecifierClass, SpecifierTree,
};

fn class(name: &str, prefixes: &[&str], kind: ClassKind, connect: ConnectMode) -> SpecifierClass {
    SpecifierClass {
        name: name.to_string(),
        prefixes: prefixes.iter().map(|p| p.to_string()).collect(),
        kind,
        orientation: Orientation::StreamOriented,
        connect,
        global_state: false,
    }
}

const TCP: usize = 0;
const TCP_LISTEN: usize = 1;
const WS_LISTEN: usize = 2;
const TLS: usize = 3;
const MIRROR: usize = 4;
const LITERAL: usize = 5;
const PEER_CTL: usize = 6;

fn registry() -> Registry {
    let mut registry = Registry::new();
    let single = ConnectMode::SingleConnect;
    let multi = ConnectMode::MultiConnect;
    let classes = vec![
        class("Tcp", &["tcp:", "tcp-connect:"], ClassKind::Transport(ArgumentRule::NonEmpty), single),
        class("TcpListen", &["tcp-l:", "tcp-listen:"], ClassKind::Transport(ArgumentRule::NonEmpty), multi),
        class("WsListen", &["ws-l:"], ClassKind::Overlay, multi),
        class("Tls", &["tls:"], ClassKind::Overlay, single),
        class("Mirror", &["mirror:"], ClassKind::Transport(ArgumentRule::Empty), single),
        class("Literal", &["literal:"], ClassKind::Transport(ArgumentRule::Any), single),
        class("PeerCtl", &["peer-ctl:", "from-peer:", "from-left:"], ClassKind::PeerCtl, single),
    ];
    for (index, class) in classes.into_iter().enumerate() {
        assert_eq!(registry.register(class), Ok(index));
    }
    registry
}

fn transport(class: usize, argument: &str) -> SpecifierTree {
    SpecifierTree::Transport { class, argument: argument.to_string() }
}

fn overlay(class: usize, inner: SpecifierTree) -> SpecifierTree {
    SpecifierTree::Overlay { class, inner: Box::new(inner) }
}

#[test]
fn transport_resolves_to_a_leaf() {
    let registry = registry();
    assert_eq!(registry.resolve("tcp:203.0.113.5:8080"), Ok(transport(TCP, "203.0.113.5:8080")));
    assert_eq!(registry.resolve("tcp-connect:h:1"), Ok(transport(TCP, "h:1")));
    assert_eq!(registry.resolve("tcp-l:0.0.0.0:80"), Ok(transport(TCP_LISTEN, "0.0.0.0:80")));
}

#[test]
fn overlay_resolves_its_argument() {
    let registry = registry();
    assert_eq!(
        registry.resolve("ws-l:tls:tcp:example.com:443"),
        Ok(overlay(WS_LISTEN, overlay(TLS, transport(TCP, "example.com:443"))))
    );
}

#[test]
fn peer_ctl_prefixes_are_aliases() {
    let registry = registry();
    for prefix in ["peer-ctl:", "from-peer:", "from-left:"] {
        let spec = format!("{}tcp:example.com", prefix);
        assert_eq!(
            registry.resolve(&spec),
            Ok(SpecifierTree::PeerCtl { class: PEER_CTL, node: PeerCtl("tcp:example.com".to_string()) })
        );
    }
    assert_eq!(
        registry.resolve("ws-l:from-left:"),
        Ok(overlay(WS_LISTEN, SpecifierTree::PeerCtl { class: PEER_CTL, node: PeerCtl(String::new()) }))
    );
}

#[test]
fn unknown_prefix_is_an_error() {
    let registry = registry();
    assert_eq!(registry.resolve("bogus:foo"), Err(ParseError::UnknownPrefix));
    assert_eq!(registry.resolve("bogus"), Err(ParseError::UnknownPrefix));
    assert_eq!(registry.resolve("tcp"), Err(ParseError::UnknownPrefix));
    assert_eq!(registry.resolve(":tcp:h:1"), Err(ParseError::UnknownPrefix));
    assert_eq!(registry.resolve("TCP:h:1"), Err(ParseError::UnknownPrefix));
    assert_eq!(registry.resolve("ws-l:bogus:foo"), Err(ParseError::UnknownPrefix));
    assert_eq!(Registry::new().resolve("tcp:h:1"), Err(ParseError::UnknownPrefix));
}

#[test]
fn empty_input_is_an_error() {
    let registry = registry();
    assert_eq!(registry.resolve(""), Err(ParseError::EmptyInput));
    assert_eq!(registry.resolve("ws-l:"), Err(ParseError::EmptyInput));
    assert_eq!(registry.resolve("ws-l:tls:"), Err(ParseError::EmptyInput));
}

#[test]
fn malformed_argument_is_an_error() {
    let registry = registry();
    assert_eq!(registry.resolve("tcp:"), Err(ParseError::MalformedArgument));
    assert_eq!(registry.resolve("mirror:x"), Err(ParseError::MalformedArgument));
    assert_eq!(registry.resolve("tls:tcp:"), Err(ParseError::MalformedArgument));
    assert_eq!(registry.resolve("mirror:"), Ok(transport(MIRROR, "")));
    assert_eq!(registry.resolve("literal:"), Ok(transport(LITERAL, "")));
    assert_eq!(registry.resolve("literal:a:b"), Ok(transport(LITERAL, "a:b")));
}

#[test]
fn resolving_twice_gives_the_same_tree() {
    let registry = registry();
    for spec in ["ws-l:tls:tcp:example.com:443", "from-left:tcp:", "bogus:foo", "", "tcp:"] {
        assert_eq!(registry.resolve(spec), registry.resolve(spec));
    }
}

#[test]
fn resolved_trees_fit_their_registry() {
    let registry = registry();
    let tree = registry.resolve("ws-l:tls:tcp:example.com:443").unwrap();
    assert!(registry.fits(&tree));
    assert!(registry.fits(&registry.resolve("from-left:tcp:").unwrap()));
    assert!(!registry.fits(&transport(WS_LISTEN, "x")));
    assert!(!registry.fits(&transport(TCP, "")));
    assert!(!registry.fits(&transport(99, "x")));
    assert!(!registry.fits(&overlay(TCP, transport(TCP, "x"))));
    assert!(!registry.fits(&overlay(TLS, transport(99, "x"))));
    assert!(!registry.fits(&SpecifierTree::PeerCtl { class: TCP, node: PeerCtl(String::new()) }));
}

#[test]
fn registry_refuses_malformed_prefixes() {
    let single = ConnectMode::SingleConnect;
    for prefix in ["tcp", "", "a:b:", ":tcp", "tcp::"] {
        let mut registry = Registry::new();
        let refused = class("X", &["ok:", prefix], ClassKind::Overlay, single);
        assert_eq!(registry.register(refused), Err(RegistryError::MalformedPrefix));
        assert_eq!(registry.len(), 0);
    }
    let mut registry = Registry::new();
    assert_eq!(registry.register(class("Colon", &[":"], ClassKind::Overlay, single)), Ok(0));
    assert_eq!(registry.register(class("None", &[], ClassKind::Overlay, single)), Ok(1));
}

#[test]
fn registry_refuses_duplicate_prefixes() {
    let mut registry = registry();
    let count = registry.len();
    let again = class("Other", &["udp:", "tcp-l:"], ClassKind::Overlay, ConnectMode::SingleConnect);
    assert_eq!(registry.register(again), Err(RegistryError::DuplicatePrefix));
    assert_eq!(registry.len(), count);
    assert_eq!(registry.resolve("udp:h:1"), Err(ParseError::UnknownPrefix));
    assert_eq!(registry.resolve("tcp-l:h:1"), Ok(transport(TCP_LISTEN, "h:1")));
}

#[test]
fn registry_finds_classes_by_prefix() {
    let registry = registry();
    assert_eq!(registry.find_class(&"tcp:".to_string()), Some(TCP));
    assert_eq!(registry.find_class(&"from-left:".to_string()), Some(PEER_CTL));
    assert_eq!(registry.find_class(&"tcp".to_string()), None);
    assert_eq!(registry.find_class(&"tcp:x".to_string()), None);
    assert_eq!(registry.class(TLS).name, "Tls");
    assert_eq!(registry.len(), 7);
}

#[test]
fn simple_prefixes_end_in_their_only_colon() {
    assert!(is_simple_prefix("tcp:"));
    assert!(is_simple_prefix(":"));
    assert!(!is_simple_prefix("tcp"));
    assert!(!is_simple_prefix(""));
    assert!(!is_simple_prefix("a:b:"));
    assert!(!is_simple_prefix("tcp:x"));
}
