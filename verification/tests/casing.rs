use traceon::{camel, cased, pascal, snake, Case};

#[test]
fn snake_splits_words_at_capitals() {
    assert_eq!(snake("PascalCase"), "pascal_case");
    assert_eq!(snake("camelCase"), "camel_case");
}

#[test]
fn snake_leaves_plain_keys_alone() {
    assert_eq!(snake("snake_case"), "snake_case");
    assert_eq!(snake("plain"), "plain");
    assert_eq!(snake(""), "");
}

#[test]
fn snake_reads_a_run_of_capitals_as_one_word() {
    assert_eq!(snake("SCREAMING_SNAKE_CASE"), "screaming_snake_case");
    assert_eq!(snake("HTMLParser"), "htmlparser");
}

#[test]
fn pascal_capitalises_each_segment() {
    assert_eq!(pascal("snake_case"), "SnakeCase");
    assert_eq!(pascal("camelCase"), "CamelCase");
    assert_eq!(pascal("PascalCase"), "PascalCase");
}

#[test]
fn pascal_keeps_one_capital_per_acronym() {
    assert_eq!(pascal("SCREAMING_SNAKE_CASE"), "ScreamingSnakeCase");
    assert_eq!(pascal("HTMLParser"), "Htmlparser");
    assert_eq!(pascal("__a__b"), "AB");
}

#[test]
fn camel_lowers_the_first_character() {
    assert_eq!(camel("snake_case"), "snakeCase");
    assert_eq!(camel("PascalCase"), "pascalCase");
    assert_eq!(camel("SCREAMING_SNAKE_CASE"), "screamingSnakeCase");
}

#[test]
fn camel_of_nothing_is_nothing() {
    assert_eq!(camel(""), "");
    assert_eq!(camel("___"), "");
}

#[test]
fn cased_follows_the_case() {
    assert_eq!(cased("some_Key", Case::Unchanged), "some_Key");
    assert_eq!(cased("some_key", Case::Camel), "someKey");
    assert_eq!(cased("some_key", Case::Pascal), "SomeKey");
    assert_eq!(cased("SomeKey", Case::Snake), "some_key");
}

#[test]
fn casing_leaves_letters_outside_ascii() {
    assert_eq!(snake("aÉb"), "a_Éb");
    assert_eq!(pascal("éa"), "éa");
    assert_eq!(camel("Éa"), "Éa");
}
