use drive_async_iterator::input::{drive, Drive, DriveError};
use proc_macro2::{Delimiter, Group, TokenStream, TokenTree};

fn parse(source: &str) -> Result<Drive, DriveError> {
    Drive::parse(source.parse::<TokenStream>().unwrap())
}

fn text(source: &str) -> String {
    source.parse::<TokenStream>().unwrap().to_string()
}

#[test]
fn an_iterator_and_a_body() {
    let drive = parse("futures, { work().await; 42 }").ok().unwrap();
    assert_eq!(drive.iterator.to_string(), "futures");
    assert_eq!(drive.body.to_string(), text("{ work().await; 42 }"));
}

#[test]
fn a_name_for_the_handle() {
    let drive = parse("iter = from_iter([1, 2, 3]), f(iter, 1)").ok().unwrap();
    assert_eq!(drive.iterator.to_string(), text("iter = from_iter([1, 2, 3])"));
    assert_eq!(drive.body.to_string(), text("f(iter, 1)"));
}

#[test]
fn a_comma_at_the_end_is_allowed() {
    let drive = parse("a, b,").ok().unwrap();
    assert_eq!(drive.iterator.to_string(), "a");
    assert_eq!(drive.body.to_string(), "b");
}

#[test]
fn the_iterator_is_missing() {
    assert!(matches!(parse(""), Err(DriveError::Iterator(_))));
    assert!(matches!(parse(", b"), Err(DriveError::Iterator(_))));
}

#[test]
fn the_comma_is_missing() {
    match parse("a") {
        Err(DriveError::Comma(error)) => assert_eq!(error.to_string(), "expected `,`"),
        _ => panic!(),
    }
    match parse("a; b") {
        Err(DriveError::Comma(error)) => assert_eq!(error.to_string(), "expected `,`"),
        _ => panic!(),
    }
}

#[test]
fn the_body_is_missing() {
    assert!(matches!(parse("a,"), Err(DriveError::Body(_))));
    assert!(matches!(parse("a,,"), Err(DriveError::Body(_))));
}

#[test]
fn nothing_may_follow() {
    for (source, trailing) in [("a, b c", "c"), ("a, b,,", ","), ("a, b, c", "c")] {
        match parse(source) {
            Err(DriveError::Trailing(rest, error)) => {
                assert_eq!(rest.to_string(), trailing);
                assert_eq!(error.to_string(), "unexpected trailing tokens after drive body");
            }
            _ => panic!("{}", source),
        }
    }
}

#[test]
fn an_invisible_group_is_one_expression() {
    let sum = "1 + 2".parse::<TokenStream>().unwrap();
    let mut input = TokenStream::from(TokenTree::Group(Group::new(Delimiter::None, sum)));
    input.extend("* 3, b".parse::<TokenStream>().unwrap());
    let drive = Drive::parse(input).ok().unwrap();
    assert_eq!(drive.iterator.into_iter().count(), 3);
    assert_eq!(drive.body.to_string(), "b");
}

#[test]
fn finishing_looks_at_what_is_left() {
    let stream = |source: &str| source.parse::<TokenStream>().unwrap();
    let input = || Drive { iterator: stream("a"), body: stream("b"), unread: None };
    let drive = Drive::finish(input(), stream(""), true).ok().unwrap();
    assert_eq!((drive.iterator.to_string(), drive.body.to_string()), ("a".to_string(), "b".to_string()));
    match Drive::finish(input(), stream("c"), false) {
        Err(rest) => assert_eq!(rest.to_string(), "c"),
        _ => panic!(),
    }
}

#[test]
fn tokens_left_unread_in_a_bracket() {
    // The input is read to the end first.
    assert!(matches!(parse("a[b c] d"), Err(DriveError::Comma(_))));
    assert!(matches!(parse("a, b[c d] e"), Err(DriveError::Trailing(_, _))));
    assert!(parse("a, b[c]").ok().unwrap().unread.is_none());
    let parsed = parse("a, b[c d]").ok().unwrap();
    assert_eq!(parsed.body.to_string(), text("b[c]"));
    assert_eq!(parsed.unread.unwrap().to_string(), "unexpected token, expected `]`");
    assert!(parse("a[b c], d,").ok().unwrap().unread.is_some());
    match drive("a, b[c d]".parse().unwrap()) {
        Err(DriveError::Unread(error)) => assert_eq!(error.to_string(), "unexpected token, expected `]`"),
        _ => panic!(),
    }
}

#[test]
fn the_macro_expands() {
    let expanded = drive("a, b".parse().unwrap()).ok().unwrap();
    assert_eq!(expanded.to_string(), text("println!(\"hello world\");"));
    assert!(matches!(drive("a b".parse().unwrap()), Err(DriveError::Comma(_))));
}

#[test]
fn the_expansion_goes_behind_what_is_there() {
    let parsed = parse("a, b").ok().unwrap();
    let mut tokens: TokenStream = "first;".parse().unwrap();
    parsed.to_tokens(&mut tokens);
    assert_eq!(tokens.to_string(), text("first; println!(\"hello world\");"));
    let mut tokens: TokenStream = "first;".parse().unwrap();
    Drive::write_expansion(&mut tokens, None);
    assert_eq!(tokens.to_string(), text("first;"));
    Drive::write_expansion(&mut tokens, Some("second;".parse().unwrap()));
    assert_eq!(tokens.to_string(), text("first; second;"));
}

#[test]
fn every_error_says_what_is_wrong() {
    let message = |source: &str| drive(source.parse().unwrap()).err().unwrap().into_error().to_string();
    assert_eq!(message(", b"), "expected an expression");
    assert_eq!(message("a; b"), "expected `,`");
    assert_eq!(message("a, ;"), "expected an expression");
    assert_eq!(message("a, b, c"), "unexpected trailing tokens after drive body");
    assert_eq!(message("a, b[c d]"), "unexpected token, expected `]`");
}

#[test]
fn commas_at_the_end_do_not_change_what_is_read() {
    let sources = [
        "a, b",
        "a.., b..",
        "return, break",
        "|x, y| x, f::<A, B>",
        "x as Vec<A, B>, y as dyn T",
        "a < b, c > d",
        "let 0.. = x, let [a, ..] = y",
        "async move { a }, 'l: loop { break 'l }",
        "m!(a, b), &raw const c",
        "-1.5, s { a, ..b }",
    ];
    for source in sources {
        let plain = parse(source).ok().unwrap();
        let comma = parse(&format!("{source},")).ok().unwrap();
        assert_eq!(plain.iterator.to_string(), comma.iterator.to_string());
        assert_eq!(plain.body.to_string(), comma.body.to_string());
        match parse(&format!("{source},,")) {
            Err(DriveError::Trailing(rest, _)) => assert_eq!(rest.to_string(), ","),
            _ => panic!("{}", source),
        }
    }
}
