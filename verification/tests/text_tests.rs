use refstruct::text::{lowercase, replace_self_ref, str_contains, str_eq, uppercase, usize_to_string};

#[test]
fn placeholder_substitution_replaces_every_occurrence() {
    assert_eq!(replace_self_ref("&'_ str", "'a"), "&'a str");
    assert_eq!(replace_self_ref("X<&'_ u8, &'_ u8>", "'long"), "X<&'long u8, &'long u8>");
    assert_eq!(replace_self_ref("String", "'a"), "String");
    assert_eq!(replace_self_ref("", "'a"), "");
    assert_eq!(replace_self_ref("'_", "'static"), "'static");
}

#[test]
fn substitution_works_left_to_right_without_rescanning() {
    // the replacement text is not itself rescanned for the placeholder
    assert_eq!(replace_self_ref("'_'_", "'_x"), "'_x'_x");
}

#[test]
fn decimal_rendering_is_exact() {
    assert_eq!(usize_to_string(0), "0");
    assert_eq!(usize_to_string(7), "7");
    assert_eq!(usize_to_string(10), "10");
    assert_eq!(usize_to_string(302), "302");
    assert_eq!(usize_to_string(99999), "99999");
}

#[test]
fn case_folding_goes_through_the_real_conversion() {
    assert_eq!(lowercase("MySpace"), "myspace");
    assert_eq!(uppercase("myspace"), "MYSPACE");
    assert_eq!(lowercase(""), "");
    assert_eq!(uppercase("ärger"), "ÄRGER");
}

#[test]
fn string_equality_compares_characters() {
    assert!(str_eq("abc", "abc"));
    assert!(!str_eq("abc", "abd"));
    assert!(!str_eq("abc", "ab"));
    assert!(str_eq("", ""));
}

#[test]
fn substring_search_finds_patterns() {
    assert!(str_contains("include!(refstruct!(r#\"", "refstruct!"));
    assert!(!str_contains("nothing here", "refstruct!"));
    assert!(str_contains("tail \"# tail", "\"#"));
    assert!(str_contains("anything", ""));
    assert!(!str_contains("ab", "abc"));
}
