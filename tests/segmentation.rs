use camel::{classify_case, is_uppercase, split_by_case, split_classified, CaseClass};

#[test]
fn test_split_by_case() {
    assert_eq!(split_by_case("", None), Vec::<String>::new());
    assert_eq!(split_by_case("foo", None), ["foo"]);
    assert_eq!(split_by_case("fooBar", None), ["foo", "Bar"]);
    assert_eq!(split_by_case("FooBarBaz", None), ["Foo", "Bar", "Baz"]);
    assert_eq!(split_by_case("FooBARb", None), ["Foo", "BA", "Rb"]);
    assert_eq!(
        split_by_case("foo_bar-baz/qux", None),
        ["foo", "bar", "baz", "qux"]
    );
    assert_eq!(
        split_by_case("foo--bar-Baz", None),
        ["foo", "", "bar", "Baz"]
    );
    assert_eq!(split_by_case("FOO_BAR", None), ["FOO", "BAR"]);
    assert_eq!(split_by_case("foo123-bar", None), ["foo123", "bar"]);
    assert_eq!(split_by_case("FOOBar", None), ["FOO", "Bar"]);
    assert_eq!(split_by_case("ALink", None), ["A", "Link"]);

    assert_eq!(
        split_by_case(r"foo\Bar.fuzz-FIZz", Some(&['\\', '.', '-'])),
        ["foo", "Bar", "fuzz", "FI", "Zz"]
    );

    assert_eq!(
        split_by_case("new-name-value", Some(&['_'])),
        ["new-name-value"]
    );
}

#[test]
fn empty_input_has_no_words() {
    assert_eq!(split_by_case("", None), Vec::<String>::new());
    assert_eq!(split_by_case("", Some(&['x'])), Vec::<String>::new());
    assert_eq!(split_by_case("", Some(&[])), Vec::<String>::new());
}

#[test]
fn uniform_input_is_one_word() {
    assert_eq!(split_by_case("foobar", None), ["foobar"]);
    assert_eq!(split_by_case("12345", None), ["12345"]);
    assert_eq!(split_by_case("FOOBAR", None), ["FOOBAR"]);
    assert_eq!(split_by_case("a1B", None), ["a1B"]);
    assert_eq!(split_by_case("AB1c", None), ["AB1c"]);
}

#[test]
fn single_separator_gives_one_empty_word() {
    assert_eq!(split_by_case("-", None), [""]);
    assert_eq!(split_by_case("--", None), ["", ""]);
    assert_eq!(split_by_case("foo-", None), ["foo"]);
    assert_eq!(split_by_case("-foo", None), ["", "foo"]);
}

#[test]
fn custom_separators_replace_the_defaults() {
    assert_eq!(split_by_case("new-name-value", Some(&['_'])), ["new-name-value"]);
    assert_eq!(split_by_case("a b_c", Some(&[' '])), ["a", "b_c"]);
    assert_eq!(split_by_case("a-b", Some(&[])), ["a-b"]);
}

#[test]
fn digits_do_not_make_case_edges() {
    assert_eq!(split_by_case("foo123B", None), ["foo123B"]);
    assert_eq!(split_by_case("ABC1def", None), ["ABC1def"]);
    assert_eq!(split_by_case("a1B", None), ["a1B"]);
    // No rising edge at `B`, but `a` after it ends the run `foo123B`.
    assert_eq!(split_by_case("foo123Bar", None), ["foo123", "Bar"]);
    assert_eq!(split_by_case("v2Beta", None), ["v2", "Beta"]);
}

#[test]
fn symbols_count_as_lowercase() {
    assert_eq!(split_by_case("foo!Bar", None), ["foo!", "Bar"]);
    assert_eq!(split_by_case("AB!", None), ["A", "B!"]);
}

#[test]
fn falling_edge_counts_characters_not_bytes() {
    assert_eq!(split_by_case("ÄÖü", None), ["Ä", "Öü"]);
    assert_eq!(split_by_case("éÀÉè", None), ["é", "À", "Éè"]);
}

#[test]
fn split_from_given_classes() {
    let cs = ['a', 'B', 'C', 'd', '-', '-', 'e'];
    let classes = [
        CaseClass::Lower,
        CaseClass::Upper,
        CaseClass::Upper,
        CaseClass::Lower,
        CaseClass::Separator,
        CaseClass::Separator,
        CaseClass::Lower,
    ];
    assert_eq!(split_classified(&cs, &classes), ["a", "B", "Cd", "", "e"]);
    assert_eq!(split_classified(&[], &[]), Vec::<String>::new());
    assert_eq!(
        split_classified(&['x', 'Y'], &[CaseClass::Neutral, CaseClass::Upper]),
        ["xY"]
    );
}

#[test]
fn classification_of_characters() {
    assert_eq!(is_uppercase('A'), Some(true));
    assert_eq!(is_uppercase('a'), Some(false));
    assert_eq!(is_uppercase('7'), None);
    assert_eq!(is_uppercase('!'), Some(false));
    assert_eq!(is_uppercase('Ö'), Some(true));
    assert_eq!(classify_case('-', None), CaseClass::Separator);
    assert_eq!(classify_case('.', None), CaseClass::Separator);
    assert_eq!(classify_case('-', Some(&['_'])), CaseClass::Lower);
    assert_eq!(classify_case('Q', None), CaseClass::Upper);
    assert_eq!(classify_case('q', None), CaseClass::Lower);
    assert_eq!(classify_case('0', None), CaseClass::Neutral);
    assert_eq!(classify_case('9', Some(&['9'])), CaseClass::Separator);
}
