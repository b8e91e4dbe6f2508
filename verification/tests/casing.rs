use ts_cdk::casing::{
    convert_to_kebab_case, kebab_case_to_pascal_case, to_kebab_case, to_pascal_case,
};

#[test]
fn kebab_spaced_name() {
    assert_eq!(convert_to_kebab_case("My Cool App"), "my-cool-app");
}

#[test]
fn kebab_camel_case() {
    assert_eq!(convert_to_kebab_case("myCoolApp"), "my-cool-app");
}

#[test]
fn kebab_underscores() {
    assert_eq!(convert_to_kebab_case("my_cool_app"), "my-cool-app");
}

#[test]
fn kebab_leading_upper() {
    assert_eq!(convert_to_kebab_case("FooBar"), "foo-bar");
}

#[test]
fn kebab_adjacent_uppers() {
    assert_eq!(convert_to_kebab_case("ABc"), "a-bc");
}

#[test]
fn kebab_empty() {
    assert_eq!(convert_to_kebab_case(""), "");
}

#[test]
fn kebab_alias_agrees() {
    assert_eq!(to_kebab_case("Some Name"), convert_to_kebab_case("Some Name"));
}

#[test]
fn kebab_output_has_no_upper_no_underscore() {
    for input in ["My Cool App", "a_B c-D", "HTTP_server", "x", "  _ "] {
        let out = to_kebab_case(input);
        assert!(!out.chars().any(|c| c.is_ascii_uppercase()), "{out}");
        assert!(!out.contains('_'), "{out}");
        assert!(!out.contains(' '), "{out}");
    }
}

#[test]
fn kebab_idempotent_samples() {
    for input in ["My Cool App", "a_B c-D", "already-kebab", ""] {
        let once = to_kebab_case(input);
        assert_eq!(to_kebab_case(&once), once);
    }
}

#[test]
fn pascal_from_kebab() {
    assert_eq!(kebab_case_to_pascal_case("my-cool-app"), "MyCoolApp");
}

#[test]
fn pascal_from_kebab_leading_dash() {
    assert_eq!(kebab_case_to_pascal_case("-abc-def"), "AbcDef");
}

#[test]
fn pascal_of_kebab_of_name_starts_upper() {
    for input in ["my cool app", "Server_HTTP", "b"] {
        let pascal = kebab_case_to_pascal_case(&to_kebab_case(input));
        assert!(pascal.chars().next().unwrap().is_ascii_uppercase(), "{pascal}");
    }
}

#[test]
fn pascal_words_mixed_separators() {
    assert_eq!(to_pascal_case("my_cool app-x"), "MyCoolAppX");
}

#[test]
fn pascal_words_collapses_empty_segments() {
    assert_eq!(to_pascal_case("--my__app"), "MyApp");
}
