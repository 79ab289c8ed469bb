use utoipa_gen::serde::RenameRule;

fn check_rename(rule: RenameRule, value: &str, expected: &str) {
    let renamed = rule.rename(value);
    assert_eq!(renamed, expected, "expected case: {:?} => {} != {}", rule, value, expected);
}

fn check_rename_variant(rule: RenameRule, value: &str, expected: &str) {
    let renamed = rule.rename_variant(value);
    assert_eq!(renamed, expected, "expected case: {:?} => {} != {}", rule, value, expected);
}

#[test]
fn rename_all_rename_rules() {
    check_rename(RenameRule::Lower, "single", "single");
    check_rename(RenameRule::Upper, "single", "SINGLE");
    check_rename(RenameRule::Pascal, "single", "Single");
    check_rename(RenameRule::Camel, "single", "single");
    check_rename(RenameRule::Snake, "single", "single");
    check_rename(RenameRule::ScreamingSnake, "single", "SINGLE");
    check_rename(RenameRule::Kebab, "single", "single");
    check_rename(RenameRule::ScreamingKebab, "single", "SINGLE");

    check_rename(RenameRule::Lower, "multi_value", "multi_value");
    check_rename(RenameRule::Upper, "multi_value", "MULTI_VALUE");
    check_rename(RenameRule::Pascal, "multi_value", "MultiValue");
    check_rename(RenameRule::Camel, "multi_value", "multiValue");
    check_rename(RenameRule::Snake, "multi_value", "multi_value");
    check_rename(RenameRule::ScreamingSnake, "multi_value", "MULTI_VALUE");
    check_rename(RenameRule::Kebab, "multi_value", "multi-value");
    check_rename(RenameRule::ScreamingKebab, "multi_value", "MULTI-VALUE");
}

#[test]
fn rename_all_rename_variant_rules() {
    check_rename_variant(RenameRule::Lower, "Single", "single");
    check_rename_variant(RenameRule::Upper, "Single", "SINGLE");
    check_rename_variant(RenameRule::Pascal, "Single", "Single");
    check_rename_variant(RenameRule::Camel, "Single", "single");
    check_rename_variant(RenameRule::Snake, "Single", "single");
    check_rename_variant(RenameRule::ScreamingSnake, "Single", "SINGLE");
    check_rename_variant(RenameRule::Kebab, "Single", "single");
    check_rename_variant(RenameRule::ScreamingKebab, "Single", "SINGLE");

    check_rename_variant(RenameRule::Lower, "MultiValue", "multivalue");
    check_rename_variant(RenameRule::Upper, "MultiValue", "MULTIVALUE");
    check_rename_variant(RenameRule::Pascal, "MultiValue", "MultiValue");
    check_rename_variant(RenameRule::Camel, "MultiValue", "multiValue");
    check_rename_variant(RenameRule::Snake, "MultiValue", "multi_value");
    check_rename_variant(RenameRule::ScreamingSnake, "MultiValue", "MULTI_VALUE");
    check_rename_variant(RenameRule::Kebab, "MultiValue", "multi-value");
    check_rename_variant(RenameRule::ScreamingKebab, "MultiValue", "MULTI-VALUE");
}

#[test]
fn test_serde_rename_rule_from_str() {
    for s in [
        "lowercase",
        "UPPERCASE",
        "Pascal",
        "camelCase",
        "snake_case",
        "SCREAMING_SNAKE_CASE",
        "kebab-case",
        "SCREAMING-KEBAB-CASE",
    ] {
        s.parse::<RenameRule>().unwrap();
    }
}

#[test]
fn rule_names_map_to_their_rules() {
    let expected = [
        ("lowercase", RenameRule::Lower),
        ("UPPERCASE", RenameRule::Upper),
        ("Pascal", RenameRule::Pascal),
        ("camelCase", RenameRule::Camel),
        ("snake_case", RenameRule::Snake),
        ("SCREAMING_SNAKE_CASE", RenameRule::ScreamingSnake),
        ("kebab-case", RenameRule::Kebab),
        ("SCREAMING-KEBAB-CASE", RenameRule::ScreamingKebab),
    ];
    for (name, rule) in expected {
        assert_eq!(RenameRule::parse_rule(name).unwrap(), rule);
    }
}

#[test]
fn unknown_rule_names_are_refused_with_the_list_of_rules() {
    for name in ["", "PascalCase", "camelcase", "Snake_Case", "kebab", "lowercase "] {
        let error = name.parse::<RenameRule>().unwrap_err();
        assert_eq!(
            error.message,
            r#"unexpected rename rule, expected one of: "lowercase", "UPPERCASE", "Pascal", "camelCase", "snake_case", "SCREAMING_SNAKE_CASE", "kebab-case", "SCREAMING-KEBAB-CASE""#
        );
    }
}

#[test]
fn camel_case_drops_every_underscore_and_raises_the_next_letter() {
    check_rename(RenameRule::Camel, "a_b_c", "aBC");
    check_rename(RenameRule::Camel, "multi__value", "multiValue");
    check_rename(RenameRule::Camel, "_leading", "Leading");
    check_rename(RenameRule::Camel, "trailing_", "trailing");
    check_rename(RenameRule::Camel, "with_9_digit", "with9Digit");
    check_rename(RenameRule::Camel, "", "");
}

#[test]
fn pascal_case_raises_the_first_letter_of_the_camel_case_name() {
    check_rename(RenameRule::Pascal, "a", "A");
    check_rename(RenameRule::Pascal, "one_two_three", "OneTwoThree");
    check_rename(RenameRule::Pascal, "_private", "_private");
    check_rename(RenameRule::Pascal, "x_ä", "Xä");
}

#[test]
fn ascii_case_mapping_leaves_other_letters_alone() {
    check_rename(RenameRule::Upper, "grüße_x", "GRüßE_X");
    check_rename(RenameRule::Lower, "ÄB_C", "Äb_c");
    check_rename(RenameRule::Kebab, "a_b__c", "a-b--c");
    check_rename(RenameRule::ScreamingKebab, "a_b", "A-B");
}

#[test]
fn snake_case_of_variants_splits_before_every_uppercase_letter() {
    check_rename_variant(RenameRule::Snake, "HTTPServer", "h_t_t_p_server");
    check_rename_variant(RenameRule::Snake, "Version2Beta", "version2_beta");
    check_rename_variant(RenameRule::Snake, "ÄpfelÖl", "Äpfel_Öl");
    check_rename_variant(RenameRule::ScreamingSnake, "ÄpfelÖl", "ÄPFEL_ÖL");
    check_rename_variant(RenameRule::Kebab, "OneTwoThree", "one-two-three");
    check_rename_variant(RenameRule::Camel, "A", "a");
    check_rename_variant(RenameRule::Camel, "ABC", "aBC");
}

#[test]
fn renaming_twice_is_renaming_once() {
    let rules = [
        RenameRule::Lower,
        RenameRule::Upper,
        RenameRule::Camel,
        RenameRule::Snake,
        RenameRule::ScreamingSnake,
        RenameRule::Pascal,
        RenameRule::Kebab,
        RenameRule::ScreamingKebab,
    ];
    for rule in rules {
        for value in ["single", "multi_value", "a__b_c_", "x"] {
            let once = rule.rename(value);
            assert_eq!(rule.rename(&once), once);
        }
    }
}

#[test]
fn derived_rules_compose_the_basic_ones() {
    let value = "one_two";
    assert_eq!(
        RenameRule::ScreamingKebab.rename(value),
        RenameRule::Upper.rename(&RenameRule::Kebab.rename(value))
    );
    let variant = "OneTwo";
    assert_eq!(
        RenameRule::ScreamingSnake.rename_variant(variant),
        RenameRule::Upper.rename(&RenameRule::Snake.rename_variant(variant))
    );
    assert_eq!(
        RenameRule::Kebab.rename_variant(variant),
        RenameRule::Snake.rename_variant(variant).replace('_', "-")
    );
}

#[test]
fn pascal_case_is_camel_case_with_a_capital() {
    for value in ["multi_value", "a", "one_two_three", "x_"] {
        let camel = RenameRule::Camel.rename(value);
        let mut capitalized = camel[..1].to_ascii_uppercase();
        capitalized.push_str(&camel[1..]);
        assert_eq!(RenameRule::Pascal.rename(value), capitalized);
    }
}

#[test]
fn field_rules_on_the_snake_case_of_a_variant_agree_with_variant_rules() {
    let rules = [
        RenameRule::Camel,
        RenameRule::Pascal,
        RenameRule::Snake,
        RenameRule::ScreamingSnake,
        RenameRule::Kebab,
        RenameRule::ScreamingKebab,
    ];
    for variant in ["MultiValue", "A", "HTTPServer", "Version2Beta", "X9y"] {
        let snake = RenameRule::Snake.rename_variant(variant);
        for rule in rules {
            assert_eq!(rule.rename(&snake), rule.rename_variant(variant));
        }
        assert_eq!(RenameRule::Pascal.rename(&snake), variant);
    }
}

#[test]
fn snake_case_survives_a_round_trip_through_pascal_case() {
    for name in ["multi_value", "a", "one_two3", "x9_y", "http_server"] {
        let pascal = RenameRule::Pascal.rename(name);
        assert_eq!(RenameRule::Snake.rename_variant(&pascal), name);
    }
}

#[test]
fn renaming_a_variant_twice_is_renaming_once() {
    let rules = [
        RenameRule::Lower,
        RenameRule::Upper,
        RenameRule::Pascal,
        RenameRule::Camel,
        RenameRule::Snake,
        RenameRule::Kebab,
    ];
    for rule in rules {
        for variant in ["MultiValue", "HTTPServer", "a_b", "X"] {
            let once = rule.rename_variant(variant);
            assert_eq!(rule.rename_variant(&once), once);
        }
    }
    // The upper-case rules split their own output into words again.
    let once = RenameRule::ScreamingSnake.rename_variant("MultiValue");
    assert_eq!(once, "MULTI_VALUE");
    assert_eq!(RenameRule::ScreamingSnake.rename_variant(&once), "M_U_L_T_I__V_A_L_U_E");
}
