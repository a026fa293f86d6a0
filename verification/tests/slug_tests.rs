use parkour_api::slug::slugify;

#[test]
fn slug_of_documented_example() {
    assert_eq!(slugify("My Cool Route"), "my-cool-route");
}

#[test]
fn slug_collapses_runs_of_separators() {
    assert_eq!(slugify("a  --  b"), "a-b");
    assert_eq!(slugify("Route #1: The Climb!"), "route-1-the-climb");
}

#[test]
fn slug_drops_leading_and_trailing_separators() {
    assert_eq!(slugify("  --Hello World--  "), "hello-world");
    assert_eq!(slugify("!!!"), "");
    assert_eq!(slugify(""), "");
}

#[test]
fn slug_keeps_non_ascii_alphanumerics() {
    assert_eq!(slugify("Élan Vital"), "élan-vital");
    assert_eq!(slugify("ÀÉÎ Øre"), "àéî-øre");
    assert_eq!(slugify("東京 Run"), "東京-run");
}

#[test]
fn slug_is_idempotent_on_examples() {
    for s in ["My Cool Route", "  a__B  c ", "Élan Vital", "x-y-z", "--"] {
        let once = slugify(s);
        assert_eq!(slugify(&once), once);
    }
}

#[test]
fn slug_has_no_ascii_upper_case() {
    let s = slugify("ABC def GHI");
    assert_eq!(s, "abc-def-ghi");
    assert!(!s.chars().any(|c| c.is_ascii_uppercase()));
}

#[test]
fn slug_keeps_alphanumerics_in_order() {
    let s = slugify("Big-Jump 2 (Hard)");
    assert_eq!(s, "big-jump-2-hard");
    assert_eq!(s.replace('-', ""), "bigjump2hard");
}

#[test]
fn slug_ignores_ascii_case_and_surrounding_separators() {
    for s in ["My Cool Route", "x", "", "--a b--", "Élan"] {
        assert_eq!(slugify(&s.to_ascii_uppercase()), slugify(s));
        assert_eq!(slugify(&format!(" {} !", s)), slugify(s));
    }
}

#[test]
fn slug_of_dotted_capital_i_keeps_only_letters() {
    assert_eq!('İ'.to_lowercase().collect::<String>(), "i\u{307}");
    let once = slugify("İstanbul Run");
    assert_eq!(once, "istanbul-run");
    assert_eq!(slugify(&once), once);
}

#[test]
fn slug_shape_on_mixed_input() {
    for s in ["İ", "--Ä--ß--", "a\u{307}b", "  x  ", "Ω-Σ_σ"] {
        let r = slugify(s);
        assert!(!r.starts_with('-') && !r.ends_with('-') && !r.contains("--"), "{:?}", r);
        assert!(r.chars().all(|c| c.is_alphanumeric() || c == '-'), "{:?}", r);
        assert_eq!(slugify(&r), r);
    }
}

#[test]
fn slug_keeps_upper_case_symbol_without_lower_case_mapping() {
    let c = '\u{1F130}';
    assert!(c.is_alphanumeric());
    assert!(c.is_uppercase());
    assert_eq!(slugify("\u{1F130}"), "\u{1F130}");
}
