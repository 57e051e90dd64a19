use relay_core::addr::{Address, Segment};
use relay_core::relay::{
    build_relay_request, default_relay_name, is_local_target, relay_alias,
    CredentialExchangeMode, RelayInfo,
};
use relay_core::resolve::IdentityEntry;

fn address(segments: Vec<Segment>) -> Address {
    Address::from_segments(segments)
}

#[test]
fn local_target_without_name_gets_prefixed_random_alias() {
    let req = build_relay_request(
        address(vec![]),
        None,
        true,
        vec![],
        CredentialExchangeMode::Oneway,
    );
    let alias = req.alias.expect("an alias is always chosen");
    assert!(alias.starts_with("forward_to_"));
    assert_eq!(alias.len(), "forward_to_".len() + 8);
    assert!(alias["forward_to_".len()..]
        .chars()
        .all(|c| c.is_ascii_hexdigit() && !c.is_ascii_uppercase()));
}

#[test]
fn remote_target_keeps_explicit_name_verbatim() {
    let req = build_relay_request(
        address(vec![]),
        Some("mine".to_string()),
        false,
        vec![],
        CredentialExchangeMode::Oneway,
    );
    assert_eq!(req.alias, Some("mine".to_string()));
}

#[test]
fn local_target_prefixes_explicit_name() {
    let req = build_relay_request(
        address(vec![]),
        Some("mine".to_string()),
        true,
        vec![],
        CredentialExchangeMode::Oneway,
    );
    assert_eq!(req.alias, Some("forward_to_mine".to_string()));
}

#[test]
fn remote_target_without_name_gets_bare_random_alias() {
    let req = build_relay_request(
        address(vec![]),
        None,
        false,
        vec![],
        CredentialExchangeMode::Oneway,
    );
    let alias = req.alias.expect("an alias is always chosen");
    assert_eq!(alias.len(), 8);
    assert!(alias
        .chars()
        .all(|c| c.is_ascii_hexdigit() && !c.is_ascii_uppercase()));
}

#[test]
fn request_carries_route_identities_and_mode_through() {
    let route = address(vec![Segment::Ip4([10, 0, 0, 1]), Segment::Tcp(4000)]);
    let identities = vec![IdentityEntry {
        route: address(vec![Segment::Tcp(5000)]),
        identity_id: "id-p".to_string(),
    }];
    let req = build_relay_request(
        route.clone(),
        Some("n".to_string()),
        false,
        identities.clone(),
        CredentialExchangeMode::Mutual,
    );
    assert_eq!(req.route, route);
    assert_eq!(req.identities, identities);
    assert!(!req.at_rust_node);
    assert_eq!(req.credential_mode, CredentialExchangeMode::Mutual);
}

#[test]
fn relay_alias_applies_prefix_rule() {
    assert_eq!(relay_alias(&"x".to_string(), true), "forward_to_x");
    assert_eq!(relay_alias(&"x".to_string(), false), "x");
}

#[test]
fn default_relay_name_is_eight_lowercase_hex_digits() {
    let name = default_relay_name();
    assert_eq!(name.len(), 8);
    assert!(name
        .chars()
        .all(|c| c.is_ascii_hexdigit() && !c.is_ascii_uppercase()));
}

#[test]
fn local_target_is_a_syntactic_property() {
    assert!(is_local_target(&address(vec![])));
    assert!(is_local_target(&address(vec![
        Segment::Node("a".to_string()),
        Segment::Tcp(4000)
    ])));
    assert!(!is_local_target(&address(vec![Segment::Ip4([1, 2, 3, 4])])));
    assert!(!is_local_target(&address(vec![Segment::Project(
        "p".to_string()
    )])));
}

#[test]
fn relay_info_renders_service_address() {
    let info = RelayInfo {
        remote_address: "forward_to_ab12cd34".to_string(),
    };
    assert_eq!(info.output(), "/service/forward_to_ab12cd34");
}
