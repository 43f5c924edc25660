use std::sync::Arc;

use burrow::config::{parse_auth_tokens, split_tokens};
use burrow::registry::TunnelRegistry;
use burrow::subdomain::extract_subdomain;
use burrow::tunnel::Tunnel;

type Registry = TunnelRegistry<Tunnel<u8, u8>>;

fn registry() -> Registry {
    TunnelRegistry::new("example.com".to_string(), None)
}

fn register(registry: &mut Registry, wish: Option<&str>) -> (String, String, Arc<Tunnel<u8, u8>>) {
    registry.register(1u8, wish.map(str::to_string), |tunnel| tunnel).unwrap()
}

fn text(token: &str) -> Option<String> {
    Some(token.to_string())
}

#[test]
fn without_a_list_every_token_is_valid() {
    let open = registry();
    assert!(open.validate_token(&None));
    assert!(open.validate_token(&text("anything")));
}

#[test]
fn with_a_list_only_its_tokens_are_valid() {
    let tokens = vec!["secret1".to_string(), "secret2".to_string()];
    let closed: Registry = TunnelRegistry::new("example.com".to_string(), Some(tokens));
    assert!(closed.validate_token(&text("secret1")));
    assert!(closed.validate_token(&text("secret2")));
    assert!(!closed.validate_token(&text("secret")));
    assert!(!closed.validate_token(&text("Secret1")));
    assert!(!closed.validate_token(&text("")));
    assert!(!closed.validate_token(&None));
}

#[test]
fn an_empty_list_admits_nobody() {
    let closed: Registry = TunnelRegistry::new("example.com".to_string(), Some(vec![]));
    assert!(!closed.validate_token(&None));
    assert!(!closed.validate_token(&text("secret")));
}

#[test]
fn a_free_name_is_granted_in_lower_case() {
    let mut registry = registry();
    let (subdomain, url, tunnel) = register(&mut registry, Some("MyApp"));
    assert_eq!(subdomain, "myapp");
    assert_eq!(url, "https://myapp.example.com");
    assert_eq!(tunnel.subdomain, "myapp");
    assert_eq!(tunnel.subdomain(), "myapp");
    assert_eq!(*tunnel.ws_tx(), 1);
    assert!(Arc::ptr_eq(&registry.get("myapp").unwrap(), &tunnel));
    assert!(registry.get("MyApp").is_none());
}

#[test]
fn a_taken_name_is_not_displaced() {
    let mut registry = registry();
    let (first, _, tunnel) = register(&mut registry, Some("app1"));
    let (second, url, other) = register(&mut registry, Some("APP1"));
    assert_eq!(first, "app1");
    assert_ne!(second, "app1");
    assert_eq!(second.len(), 8);
    assert_eq!(url, format!("https://{second}.example.com"));
    assert!(Arc::ptr_eq(&registry.get("app1").unwrap(), &tunnel));
    assert!(Arc::ptr_eq(&registry.get(&second).unwrap(), &other));
}

#[test]
fn a_reserved_name_is_not_granted() {
    let mut registry = registry();
    for name in ["new", "www", "api", "admin", "app", "ADMIN"] {
        let (subdomain, _, _) = register(&mut registry, Some(name));
        assert_eq!(subdomain.len(), 8);
        assert!(registry.get(name).is_none());
    }
}

#[test]
fn without_a_wish_the_name_is_random() {
    let mut registry = registry();
    let (first, _, _) = register(&mut registry, None);
    let (second, _, _) = register(&mut registry, None);
    assert_ne!(first, second);
    assert!(first.chars().all(|c| c.is_ascii_digit() || c.is_ascii_lowercase()));
}

#[test]
fn unregistering_undoes_registering() {
    let mut registry = registry();
    let (_, _, kept) = register(&mut registry, Some("kept"));
    register(&mut registry, Some("gone"));
    registry.unregister("gone");
    assert!(registry.get("gone").is_none());
    assert!(Arc::ptr_eq(&registry.get("kept").unwrap(), &kept));
    registry.unregister("never");
    assert!(registry.get("kept").is_some());
    let (again, _, _) = register(&mut registry, Some("gone"));
    assert_eq!(again, "gone");
}

#[test]
fn names_are_assigned_without_registering() {
    let registry = registry();
    assert_eq!(registry.assign_subdomain(text("Shop")), text("shop"));
    assert_eq!(registry.assign_subdomain(text("shop")), text("shop"));
    assert_eq!(registry.generate_random_subdomain().unwrap().len(), 8);
}

#[test]
fn tokens_are_listed_with_commas() {
    assert_eq!(split_tokens("secret1,secret2"), vec!["secret1", "secret2"]);
    assert_eq!(split_tokens(" a , b\t,\u{a0}c\n"), vec!["a", "b", "c"]);
    assert_eq!(split_tokens(",,x,,"), vec!["x"]);
    assert_eq!(split_tokens("a b"), vec!["a b"]);
    assert!(split_tokens("").is_empty());
    assert!(split_tokens(" , ").is_empty());
}

#[test]
fn no_token_on_the_list_means_no_authentication() {
    assert_eq!(parse_auth_tokens(None), None);
    assert_eq!(parse_auth_tokens(text("")), None);
    assert_eq!(parse_auth_tokens(text(" , ")), None);
    assert_eq!(
        parse_auth_tokens(text("secret1, secret2")),
        Some(vec!["secret1".to_string(), "secret2".to_string()])
    );
}

#[test]
fn the_first_free_candidate_is_taken() {
    let mut registry = registry();
    let zeros = [0u8; 8];
    let ones = [1u8; 8];
    let letters = [10u8, 11, 12, 13, 14, 15, 16, 35];
    let draws: Vec<u8> = zeros.iter().chain(&ones).chain(&letters).copied().collect();
    assert_eq!(registry.first_drawn_name(&draws), text("00000000"));
    register(&mut registry, Some("00000000"));
    assert_eq!(registry.first_drawn_name(&draws), text("11111111"));
    register(&mut registry, Some("11111111"));
    assert_eq!(registry.first_drawn_name(&draws), text("abcdefgz"));
    assert_eq!(registry.first_drawn_name(&draws[..16]), None);
    assert_eq!(registry.first_drawn_name(&draws[..23]), None);
    assert_eq!(registry.first_drawn_name(&[]), None);
    assert_eq!(registry.first_drawn_name(&draws[16..]), text("abcdefgz"));
    assert!(registry.get("abcdefgz").is_none());
}

#[test]
fn a_request_beyond_ascii_can_give_an_ascii_name() {
    let mut registry = registry();
    let (subdomain, url, _) = register(&mut registry, Some("\u{212a}ite"));
    assert_eq!(subdomain, "kite");
    assert_eq!(url, "https://kite.example.com");
    assert_eq!(
        extract_subdomain(url.trim_start_matches("https://"), "example.com"),
        text("kite")
    );
}
