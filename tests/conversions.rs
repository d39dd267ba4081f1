use camel::{
    camel_case, flat_case, hello, join_words, kebab_case, lower_first, pascal_case, snake_case, title_case,
    train_case, upper_first,
};

#[test]
fn test_hello() {
    assert_eq!(hello("world"), "Hello, world!");
}

#[test]
fn test_upper_first() {
    assert_eq!(upper_first(""), "");
    assert_eq!(upper_first("foo"), "Foo");
    assert_eq!(upper_first("Foo"), "Foo");
}

#[test]
fn test_lower_first() {
    assert_eq!(lower_first(""), "");
    assert_eq!(lower_first("foo"), "foo");
    assert_eq!(lower_first("Foo"), "foo");
}

#[test]
fn test_camel_case() {
    assert_eq!(camel_case("FooBarBaz", true), "fooBarBaz");
    assert_eq!(camel_case("FOO_BAR", true), "fooBar");
}

#[test]
fn test_kebab_case() {
    assert_eq!(kebab_case(""), "");
    assert_eq!(kebab_case("foo"), "foo");
    assert_eq!(kebab_case("foo/Bar"), "foo-bar");
    assert_eq!(kebab_case("foo-bAr"), "foo-b-ar");
    assert_eq!(kebab_case("foo--bar"), "foo--bar");
    assert_eq!(kebab_case("FooBAR"), "foo-bar");
    assert_eq!(kebab_case("ALink"), "a-link");
    assert_eq!(kebab_case("FOO_BAR"), "foo-bar");
}

#[test]
fn test_snake_case() {
    assert_eq!(snake_case("FooBarBaz"), "foo_bar_baz");
    assert_eq!(snake_case("FOO_BAR"), "foo_bar");
}

#[test]
fn test_flat_case() {
    assert_eq!(flat_case(""), "");
    assert_eq!(flat_case("foo"), "foo");
    assert_eq!(flat_case("foo-bAr"), "foobar");
    assert_eq!(flat_case("FooBARb"), "foobarb");
    assert_eq!(flat_case("foo_bar-baz/qux"), "foobarbazqux");
    assert_eq!(flat_case("FOO_BAR"), "foobar");
    assert_eq!(flat_case("foo--bar-Baz"), "foobarbaz");
}

#[test]
fn test_train_case() {
    assert_eq!(train_case("", false), "");
    assert_eq!(train_case("f", false), "F");
    assert_eq!(train_case("foo", false), "Foo");
    assert_eq!(train_case("foo-bAr", false), "Foo-B-Ar");
    assert_eq!(train_case("AcceptCH", false), "Accept-CH");
    assert_eq!(train_case("foo_bar-baz/qux", false), "Foo-Bar-Baz-Qux");
    assert_eq!(train_case("FOO_BAR", false), "FOO-BAR");
    assert_eq!(train_case("foo--bar-Baz", false), "Foo-Bar-Baz");
    assert_eq!(train_case("WWW-authenticate", false), "WWW-Authenticate");
    assert_eq!(train_case("WWWAuthenticate", false), "WWW-Authenticate");

    assert_eq!(train_case("AcceptCH", true), "Accept-Ch");
    assert_eq!(train_case("FOO_BAR", true), "Foo-Bar");
    assert_eq!(train_case("WWW-authenticate", true), "Www-Authenticate");
}

#[test]
fn test_title_case() {
    assert_eq!(title_case("", false), "");
    assert_eq!(title_case("f", false), "F");
    assert_eq!(title_case("foo", false), "Foo");
    assert_eq!(title_case("foo-bar", false), "Foo Bar");
    assert_eq!(title_case("this-IS-aTitle", false), "This is a Title");
}

#[test]
fn test_pascal_case() {
    assert_eq!(pascal_case("", true), "");
    assert_eq!(pascal_case("foo", true), "Foo");
    assert_eq!(pascal_case("foo-bAr", true), "FooBAr");
    assert_eq!(pascal_case("FooBARb", true), "FooBaRb");
    assert_eq!(pascal_case("foo_bar-baz/qux", true), "FooBarBazQux");
    assert_eq!(pascal_case("FOO_BAR", true), "FooBar");
    assert_eq!(pascal_case("foo--bar-Baz", true), "FooBarBaz");
}

#[test]
fn pascal_case_keeps_inner_case_without_normalize() {
    assert_eq!(pascal_case("fooBAR_baz", false), "FooBARBaz");
    assert_eq!(pascal_case("FooBARb", false), "FooBARb");
}

#[test]
fn camel_case_without_normalize() {
    assert_eq!(camel_case("foo_bar", false), "fooBar");
    assert_eq!(camel_case("XMLHttp", false), "xMLHttp");
}

#[test]
fn snake_case_keeps_doubled_separators() {
    assert_eq!(snake_case("foo__bar"), "foo__bar");
    assert_eq!(snake_case("foo-.bar"), "foo__bar");
}

#[test]
fn kebab_case_of_separators_only() {
    assert_eq!(kebab_case("-"), "");
    assert_eq!(kebab_case("--"), "-");
}

#[test]
fn train_case_of_single_character() {
    assert_eq!(train_case("f", false), "F");
    assert_eq!(train_case("f", true), "F");
}

#[test]
fn title_case_minor_words_stay_lowercase() {
    assert_eq!(title_case("THE-END", true), "The End");
    assert_eq!(title_case("a-tale-of-two", false), "A Tale of Two");
    assert_eq!(title_case("-of--mice", true), "Of Mice");
    assert_eq!(title_case("war_and_peace", false), "War and Peace");
    assert_eq!(title_case("gone-WITH-the-wind", true), "Gone with the Wind");
    assert_eq!(title_case("fooBAR", true), "Foo Bar");
    assert_eq!(title_case("fooBAR", false), "Foo BAR");
}

#[test]
fn first_character_mapping_may_lengthen() {
    assert_eq!(upper_first("ßa"), "SSa");
    assert_eq!(upper_first("éclair"), "Éclair");
    assert_eq!(lower_first("ÀB"), "àB");
    assert_eq!(upper_first("1a"), "1a");
}

#[test]
fn lowercasing_goes_through_every_word() {
    assert_eq!(flat_case("ÀÉ-Ü"), "àéü");
    assert_eq!(kebab_case("ÉtéÉté"), "été-été");
}

#[test]
fn join_puts_separator_between_neighbours() {
    let ws: Vec<String> = vec!["foo".to_string(), String::new(), "bar".to_string()];
    assert_eq!(join_words(&ws, "-"), "foo--bar");
    assert_eq!(join_words(&ws, ""), "foobar");
    assert_eq!(join_words(&vec!["x".to_string()], ", "), "x");
    assert_eq!(join_words(&Vec::new(), "-"), "");
}
