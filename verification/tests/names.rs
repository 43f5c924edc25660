use burrow::subdomain::{
    draw_name, extract_subdomain, is_reserved, name_with_number, spell, NAME_COUNT, NAME_LEN,
};

#[test]
fn test_extract_subdomain() {
    assert_eq!(
        extract_subdomain("abc123.example.com", "example.com"),
        Some("abc123".to_string())
    );
    assert_eq!(extract_subdomain("ABC.example.com", "example.com"), Some("abc".to_string()));
    assert_eq!(extract_subdomain("example.com", "example.com"), None);
    assert_eq!(extract_subdomain("other.com", "example.com"), None);
    assert_eq!(
        extract_subdomain("abc123.example.com:8080", "example.com"),
        Some("abc123".to_string())
    );
    assert_eq!(extract_subdomain("deep.sub.example.com", "example.com"), None);
}

#[test]
fn hosts_at_the_edge_of_a_domain() {
    assert_eq!(extract_subdomain("", "example.com"), None);
    assert_eq!(extract_subdomain(".example.com", "example.com"), None);
    assert_eq!(extract_subdomain("aexample.com", "example.com"), None);
    assert_eq!(extract_subdomain("a.example.org", "example.com"), None);
    assert_eq!(extract_subdomain("example.com:80", "example.com"), None);
    assert_eq!(extract_subdomain("a.localhost:1:2", "localhost"), Some("a".to_string()));
    assert_eq!(extract_subdomain("a.EXAMPLE.com", "example.com"), None);
    assert_eq!(extract_subdomain("a.", ""), Some("a".to_string()));
}

#[test]
fn letters_beyond_ascii_are_lowered_too() {
    assert_eq!(
        extract_subdomain("\u{c9}T\u{c9}.example.com", "example.com"),
        Some("\u{e9}t\u{e9}".to_string())
    );
}

#[test]
fn five_names_are_reserved() {
    for name in ["new", "www", "api", "admin", "app"] {
        assert!(is_reserved(name));
    }
    assert!(!is_reserved("New"));
    assert!(!is_reserved("apps"));
    assert!(!is_reserved(""));
}

#[test]
fn names_are_spelled_from_digits_and_letters() {
    assert_eq!(spell(&[0, 9, 10, 35, 1, 11, 34, 5]), "09az1by5");
    assert_eq!(spell(&[]), "");
}

#[test]
fn random_names_have_the_right_form() {
    let mut seen: Vec<String> = Vec::new();
    for _ in 0..200 {
        let draws = draw_name();
        assert_eq!(draws.len(), NAME_LEN);
        assert!(draws.iter().all(|d| *d < 36));
        let name = spell(&draws);
        assert_eq!(name.len(), NAME_LEN);
        assert!(name.chars().all(|c| c.is_ascii_digit() || c.is_ascii_lowercase()));
        assert!(!is_reserved(&name));
        assert_eq!(
            extract_subdomain(&format!("{name}.example.com"), "example.com"),
            Some(name.clone())
        );
        seen.push(name);
    }
    seen.sort();
    seen.dedup();
    assert_eq!(seen.len(), 200);
}

#[test]
fn names_are_numbered_in_base_36() {
    assert_eq!(name_with_number(0), "00000000");
    assert_eq!(name_with_number(35), "0000000z");
    assert_eq!(name_with_number(36), "00000010");
    assert_eq!(name_with_number(NAME_COUNT - 1), "zzzzzzzz");
    assert_eq!(NAME_COUNT, 36u64.pow(8));
}
