use chat_server::names::NameRegistry;

#[test]
fn claim_of_a_free_name_succeeds() {
    let mut names = NameRegistry::new();
    assert!(!names.is_held("Alice"));
    assert!(names.claim("Alice"));
    assert!(names.is_held("Alice"));
}

#[test]
fn second_claim_of_a_held_name_fails() {
    let mut names = NameRegistry::new();
    assert!(names.claim("Alice"));
    assert!(!names.claim("Alice"));
    assert!(!names.claim("Alice"));
    assert!(names.is_held("Alice"));
}

#[test]
fn of_many_claims_of_one_name_exactly_one_succeeds() {
    let mut names = NameRegistry::new();
    let mut granted: u32 = 0;
    for _ in 0..50 {
        if names.claim("Bob") {
            granted += 1;
        }
    }
    assert_eq!(granted, 1);
}

#[test]
fn a_released_name_can_be_claimed_again() {
    let mut names = NameRegistry::new();
    assert!(names.claim("Alice"));
    names.release("Alice");
    assert!(!names.is_held("Alice"));
    assert!(names.claim("Alice"));
    assert!(!names.claim("Alice"));
}

#[test]
fn release_of_a_free_name_does_nothing() {
    let mut names = NameRegistry::new();
    assert!(names.claim("Alice"));
    names.release("Bob");
    assert!(names.is_held("Alice"));
    assert!(!names.is_held("Bob"));
    assert!(names.claim("Bob"));
}

#[test]
fn names_are_case_sensitive_and_independent() {
    let mut names = NameRegistry::new();
    assert!(names.claim("alice"));
    assert!(names.claim("Alice"));
    assert!(names.claim(""));
    names.release("alice");
    assert!(names.is_held("Alice"));
    assert!(names.is_held(""));
    assert!(!names.is_held("alice"));
}
