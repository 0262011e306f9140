use near_clp::account::is_valid_account;

fn valid(id: &str) -> bool {
    is_valid_account(&id.to_string())
}

#[test]
fn well_formed_account_identifiers() {
    for id in ["aa", "a-b", "a_b", "a.b", "owner_near", "token1_near", "100", "a.b-c_d.e", "0o"] {
        assert!(valid(id), "{} is well formed", id);
    }
    assert!(valid(&"a".repeat(64)));
}

#[test]
fn malformed_account_identifiers() {
    for id in [
        "", "a", "A", "Owner", "owner near", "-ab", "ab-", ".ab", "ab.", "_ab", "ab_", "a..b",
        "a-_b", "a.-b", "a@b", "ab\n", "\u{e9}\u{e9}", "a\u{e9}b", "abc\u{0}",
    ] {
        assert!(!valid(id), "{:?} is malformed", id);
    }
    assert!(!valid(&"a".repeat(65)));
}
