use cosmic_noise::ui::components::uppercase_first;

#[test]
fn test_uppercase_first() {
    assert_eq!(uppercase_first("hello"), "Hello");
    assert_eq!(uppercase_first("HELLO"), "HELLO");
    assert_eq!(uppercase_first(""), "");
    assert_eq!(uppercase_first("a"), "A");
}

#[test]
fn uppercase_first_leaves_non_letters_and_the_rest() {
    assert_eq!(uppercase_first("rain on roof"), "Rain on roof");
    assert_eq!(uppercase_first("1st light"), "1st light");
    assert_eq!(uppercase_first("éclair"), "éclair");
    assert_eq!(uppercase_first(&uppercase_first("wind")), uppercase_first("wind"));
}
