use cronsched::schedule::parser::tokens::TokenStream;

#[test]
fn can_tokenize_asterisk() {
    let stream = TokenStream::tokenize("*");
    assert!(stream.is_ok())
}

#[test]
fn can_tokenize_number() {
    let stream = TokenStream::tokenize("34");
    assert!(stream.is_ok())
}

#[test]
fn garbage_fails() {
    let stream = TokenStream::tokenize("3qd939j-3rl/;f.");
    assert!(stream.is_err())
}

#[test]
fn interval_and_multiple_works() {
    let stream = TokenStream::tokenize("8,3-3,34");
    assert!(stream.is_ok())
}

#[test]
fn interval_and_comma_fails() {
    let stream = TokenStream::tokenize("*,3/,4");
    assert!(stream.is_err())
}

#[test]
fn to_string_works_for_stream() {
    let stream = TokenStream::tokenize("4,5,9,10").unwrap();
    assert_eq!(stream.to_string(), "4,5,9,10")
}
