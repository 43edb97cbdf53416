//! The input of the `drive` macro: `<iterator>, <body>`, with or without a comma at the end.
//!
//! What an expression is, the `syn` crate decides. The grammar around the two expressions is
//! checked here.

use proc_macro2::TokenStream;
use quote::ToTokens;
use syn::parse::{ParseStream, Parser};
use vstd::prelude::*;

use crate::call::apply;

verus! {

/// The brackets around a group of tokens.
pub enum Bracket {
    Parenthesis,
    Brace,
    Square,
    /// No visible bracket. A macro leaves one around an expression that it was given.
    Invisible,
}

/// A token, as far as a parser sees it. A group is its opening bracket, the tokens in it, and its
/// closing bracket.
pub enum Lexeme {
    Open(Bracket),
    Close(Bracket),
    /// A punctuation character, and whether the next one follows it without a space.
    Punct(char, bool),
    /// An identifier or a literal, as it is written.
    Word(Seq<char>),
}

/// `proc_macro2::TokenStream`, a sequence of tokens.
#[verifier::external_type_specification]
#[verifier::external_body]
pub struct ExTokenStream(TokenStream);

/// `syn::Error`, what is wrong with the input, and where.
#[verifier::external_type_specification]
#[verifier::external_body]
pub struct ExError(syn::Error);

/// The tokens in a `proc_macro2::TokenStream`.
pub uninterp spec fn lexemes(stream: TokenStream) -> Seq<Lexeme>;

/// The expression that `syn` reads at the front of `tokens`, as `quote` writes it out, the tokens
/// after it, and whether tokens were left unread in a bracket within it; `None` if there is no
/// expression at the front.
pub uninterp spec fn leading_expr(tokens: Seq<Lexeme>) -> Option<(Seq<Lexeme>, Seq<Lexeme>, bool)>;

/// The tokens after the comma that `syn` reads at the front of `tokens`; `None` if there is no
/// comma at the front.
pub uninterp spec fn leading_comma(tokens: Seq<Lexeme>) -> Option<Seq<Lexeme>>;

/// `syn::Expr`'s `Parse::parse`, followed by `quote::ToTokens::into_token_stream`. The result
/// depends on the tokens in the stream alone, and is named `leading_expr`. Where `syn` leaves
/// tokens unread in a bracket within the expression, its complaint comes with the expression.
///
/// In a stream without invisible brackets, what comes after the expression is the end of the
/// stream. Commas behind such a stream do not change how it is read: `syn` looks for a comma
/// outside brackets only between the parameters of a closure and between generic arguments, which
/// end before the expression does, and where it asks whether the tokens end, a comma counts alike.
#[verifier::external_body]
fn split_expr(stream: TokenStream) -> (split: Result<(TokenStream, TokenStream, Option<syn::Error>), syn::Error>)
    ensures
        split matches Ok((expr, rest, unread)) ==> leading_expr(lexemes(stream)) == Some(
            (lexemes(expr), lexemes(rest), unread is Some),
        ),
        split is Err ==> leading_expr(lexemes(stream)) is None,
        split matches Ok((_, rest, _)) ==> (is_visible(lexemes(stream))
            ==> lexemes(rest).is_suffix_of(lexemes(stream)) && reads_on(lexemes(stream))),
{
    let mut front: Option<(syn::Expr, TokenStream)> = None;
    let parser = |input: ParseStream<'_>| -> syn::Result<()> {
        front = Some((input.parse()?, input.parse()?));
        Ok(())
    };
    let unread = parser.parse2(stream).err();
    match front {
        Some((expr, rest)) => Ok((expr.into_token_stream(), rest, unread)),
        None => Err(unread.unwrap()),
    }
}

/// `syn::token::Comma`'s `Parse::parse`. The result depends on the tokens in the stream alone,
/// and is named `leading_comma`. A comma in front is taken off. There is none in a stream that is
/// empty or begins with another token, unless that is an invisible bracket, which `syn` looks
/// into.
#[verifier::external_body]
fn split_comma(stream: TokenStream) -> (split: Result<TokenStream, syn::Error>)
    ensures
        split matches Ok(rest) ==> leading_comma(lexemes(stream)) == Some(lexemes(rest)),
        split is Err ==> leading_comma(lexemes(stream)) is None,
        begins_with_comma(lexemes(stream)) ==> split is Ok && lexemes(split->Ok_0) == lexemes(stream).skip(1),
        !begins_with_comma(lexemes(stream)) && !begins_invisibly(lexemes(stream)) ==> split is Err,
{
    let front = |input: ParseStream<'_>| -> syn::Result<(syn::token::Comma, TokenStream)> {
        Ok((input.parse()?, input.parse()?))
    };
    let (_, rest) = front.parse2(stream)?;
    Ok(rest)
}

/// `syn::parse::ParseBuffer::error` at the front of a stream: an error with the given message that
/// points at the first token. Nothing is claimed of it.
#[verifier::external_body]
fn error_at(place: (&TokenStream, &'static str)) -> (error: syn::Error) {
    let (stream, message) = place;
    let refuse = |input: ParseStream<'_>| -> syn::Result<()> { Err(input.error(message)) };
    refuse.parse2(stream.clone()).unwrap_err()
}

/// `proc_macro2::TokenStream::is_empty` tells whether there is a token in the stream.
pub assume_specification[ TokenStream::is_empty ](stream: &TokenStream) -> (empty: bool)
    ensures
        empty == (lexemes(*stream).len() == 0),
;

/// `proc_macro2::TokenStream`'s `Clone::clone` gives a stream of the same tokens.
pub assume_specification[ <TokenStream as Clone>::clone ](stream: &TokenStream) -> (cloned: TokenStream)
    ensures
        lexemes(cloned) == lexemes(*stream),
;

/// `proc_macro2::TokenStream::new` gives a stream without tokens.
pub assume_specification[ TokenStream::new ]() -> (stream: TokenStream)
    ensures
        lexemes(stream).len() == 0,
;

/// `proc_macro2::TokenStream`'s `FromStr::from_str` splits source text into tokens. It is claimed
/// only of the text of the expansion that it consists of these six tokens.
#[verifier::external_body]
fn lex(source: &str) -> (tokens: Option<TokenStream>)
    ensures
        source@ == "println!(\"hello world\");"@ ==> tokens is Some
            && lexemes(tokens->Some_0) == Drive::expansion(),
{
    source.parse().ok()
}

/// `proc_macro2::TokenStream`'s `Extend::extend` puts the tokens of `more` behind those of
/// `tokens`.
#[verifier::external_body]
fn append(tokens: &mut TokenStream, more: TokenStream)
    ensures
        lexemes(*final(tokens)) == lexemes(*old(tokens)) + lexemes(more),
{
    tokens.extend(more);
}

/// Whether the token is a comma.
pub open spec fn is_comma(token: Lexeme) -> bool {
    token matches Lexeme::Punct(c, _) && c == ','
}

/// Whether the first token is a comma.
pub open spec fn begins_with_comma(tokens: Seq<Lexeme>) -> bool {
    tokens.len() > 0 && is_comma(tokens[0])
}

/// Whether no bracket among the tokens is invisible.
pub open spec fn is_visible(tokens: Seq<Lexeme>) -> bool {
    forall|k: int| 0 <= k < tokens.len() ==> #[trigger] tokens[k] != Lexeme::Open(Bracket::Invisible)
        && tokens[k] != Lexeme::Close(Bracket::Invisible)
}

/// Whether `syn` reads the same expression at the front of `tokens` when commas follow them.
pub open spec fn reads_on(tokens: Seq<Lexeme>) -> bool {
    forall|commas: Seq<Lexeme>| (forall|k: int| 0 <= k < commas.len() ==> is_comma(#[trigger] commas[k]))
        ==> #[trigger] leading_expr(tokens + commas) == match leading_expr(tokens) {
            Some((expr, rest, unread)) => Some((expr, rest + commas, unread)),
            None => None,
        }
}

/// Whether the first token is an opening bracket that is not visible.
pub open spec fn begins_invisibly(tokens: Seq<Lexeme>) -> bool {
    tokens.len() > 0 && tokens[0] == Lexeme::Open(Bracket::Invisible)
}

/// The tokens after the comma at the front of `tokens`; `None` if there is none. Only behind an
/// invisible bracket is it left to `syn` whether there is one.
pub open spec fn after_comma(tokens: Seq<Lexeme>) -> Option<Seq<Lexeme>> {
    if begins_with_comma(tokens) {
        Some(tokens.skip(1))
    } else if begins_invisibly(tokens) {
        leading_comma(tokens)
    } else {
        None
    }
}

/// Whether `error` may be what is wrong with the expression that `stream` should begin with.
pub closed spec fn expr_error(stream: TokenStream, error: syn::Error) -> bool {
    call_ensures(
        split_expr,
        (stream,),
        Err::<(TokenStream, TokenStream, Option<syn::Error>), syn::Error>(error),
    )
}

/// Whether `error` may be the complaint about the tokens left unread in a bracket within the
/// expression that `stream` begins with.
pub closed spec fn unread_error(stream: TokenStream, error: syn::Error) -> bool {
    exists|expr: TokenStream, rest: TokenStream| #[trigger] call_ensures(
        split_expr,
        (stream,),
        Ok::<(TokenStream, TokenStream, Option<syn::Error>), syn::Error>((expr, rest, Some(error))),
    )
}

/// Whether `error` may be what is wrong with the comma that `stream` should begin with.
pub closed spec fn comma_error(stream: TokenStream, error: syn::Error) -> bool {
    call_ensures(split_comma, (stream,), Err::<TokenStream, syn::Error>(error))
}

/// Whether `rest` may be what is left of `stream` behind the expression that it begins with.
pub closed spec fn left_by_expr(stream: TokenStream, rest: TokenStream) -> bool {
    exists|expr: TokenStream, unread: Option<syn::Error>| #[trigger] call_ensures(
        split_expr,
        (stream,),
        Ok::<(TokenStream, TokenStream, Option<syn::Error>), syn::Error>((expr, rest, unread)),
    )
}

/// Whether `rest` may be what is left of `stream` behind the comma that it begins with.
pub closed spec fn left_by_comma(stream: TokenStream, rest: TokenStream) -> bool {
    call_ensures(split_comma, (stream,), Ok::<TokenStream, syn::Error>(rest))
}

/// Whether `error` may be the complaint about `rest`, the tokens that should not be there.
pub closed spec fn trailing_error(rest: TokenStream, error: syn::Error) -> bool {
    call_ensures(error_at, ((&rest, "unexpected trailing tokens after drive body"),), error)
}

/// The input of the macro.
pub struct Drive {
    /// The iterator, with or without the name for its handle.
    pub iterator: TokenStream,
    /// The body.
    pub body: TokenStream,
    /// The first complaint about tokens left unread in a bracket. The input is read to the end
    /// all the same, but it is not expanded.
    pub unread: Option<syn::Error>,
}

/// What is wrong with the input of the macro.
pub enum DriveError {
    /// There is no iterator.
    Iterator(syn::Error),
    /// There is no comma after the iterator.
    Comma(syn::Error),
    /// There is no body.
    Body(syn::Error),
    /// There is more after the body: these tokens.
    Trailing(TokenStream, syn::Error),
    /// There are tokens in a bracket that are part of no expression.
    Unread(syn::Error),
}

/// The part of the input that is at fault.
pub enum Fault {
    Iterator,
    Comma,
    Body,
    Trailing(Seq<Lexeme>),
    Unread,
}

impl DriveError {
    /// The part of the input that is at fault.
    pub open spec fn fault(self) -> Fault {
        match self {
            DriveError::Iterator(_) => Fault::Iterator,
            DriveError::Comma(_) => Fault::Comma,
            DriveError::Body(_) => Fault::Body,
            DriveError::Trailing(rest, _) => Fault::Trailing(lexemes(rest)),
            DriveError::Unread(_) => Fault::Unread,
        }
    }

    /// Whether the error that this one hands on is about the part of `input` that is at fault.
    pub open spec fn is_about(self, input: TokenStream) -> bool {
        match self {
            DriveError::Iterator(error) => expr_error(input, error),
            DriveError::Comma(error) => exists|rest: TokenStream| #[trigger] comma_error(rest, error)
                && lexemes(rest) == after_iterator(lexemes(input)),
            DriveError::Body(error) => exists|rest: TokenStream| #[trigger] expr_error(rest, error)
                && Some(lexemes(rest)) == after_comma(after_iterator(lexemes(input))),
            DriveError::Trailing(rest, error) => is_left_in(input, rest) && trailing_error(rest, error),
            DriveError::Unread(error) => is_unread_in(input, error),
        }
    }

    /// What to tell the author of the input.
    pub open spec fn error(self) -> syn::Error {
        match self {
            DriveError::Iterator(error) => error,
            DriveError::Comma(error) => error,
            DriveError::Body(error) => error,
            DriveError::Trailing(_, error) => error,
            DriveError::Unread(error) => error,
        }
    }

    /// What to tell the author of the input.
    pub fn into_error(self) -> (error: syn::Error)
        ensures
            error == self.error(),
    {
        match self {
            DriveError::Iterator(error) => error,
            DriveError::Comma(error) => error,
            DriveError::Body(error) => error,
            DriveError::Trailing(_, error) => error,
            DriveError::Unread(error) => error,
        }
    }
}

/// The tokens of the input after the iterator.
pub open spec fn after_iterator(tokens: Seq<Lexeme>) -> Seq<Lexeme> {
    leading_expr(tokens)->Some_0.1
}

/// Whether `error` may be the first complaint about tokens left unread in a bracket in `input`:
/// the one about the iterator, or the one about the body if there is none about the iterator.
pub open spec fn is_unread_in(input: TokenStream, error: syn::Error) -> bool {
    if leading_expr(lexemes(input))->Some_0.2 {
        unread_error(input, error)
    } else {
        exists|rest: TokenStream| #[trigger] unread_error(rest, error)
            && Some(lexemes(rest)) == after_comma(after_iterator(lexemes(input)))
    }
}

/// The tokens of the input that the body is at the front of.
pub open spec fn before_body(tokens: Seq<Lexeme>) -> Seq<Lexeme> {
    after_comma(after_iterator(tokens))->Some_0
}

/// The tokens of the input after the body.
pub open spec fn after_body(tokens: Seq<Lexeme>) -> Seq<Lexeme> {
    leading_expr(before_body(tokens))->Some_0.1
}

/// Whether `rest` may be what is left of `input` behind the body, or behind the comma after it if
/// there is one.
pub open spec fn is_left_in(input: TokenStream, rest: TokenStream) -> bool {
    if after_comma(after_body(lexemes(input))) is Some {
        exists|end: TokenStream| #[trigger] left_by_comma(end, rest) && lexemes(end) == after_body(lexemes(input))
    } else {
        exists|body: TokenStream| #[trigger] left_by_expr(body, rest) && lexemes(body) == before_body(lexemes(input))
    }
}

/// What is left of `tokens`, the tokens after the body, once a comma in front is taken off.
pub open spec fn trailing(tokens: Seq<Lexeme>) -> Seq<Lexeme> {
    match after_comma(tokens) {
        Some(rest) => rest,
        None => tokens,
    }
}

/// The iterator and the body in the input `tokens`, and whether tokens are left unread in a
/// bracket within one of them. The input is an expression, a comma, another expression, perhaps
/// another comma, and nothing else.
pub open spec fn drive_input(tokens: Seq<Lexeme>) -> Result<(Seq<Lexeme>, Seq<Lexeme>, bool), Fault> {
    match leading_expr(tokens) {
        None => Err(Fault::Iterator),
        Some((iterator, rest, unread)) => match after_comma(rest) {
            None => Err(Fault::Comma),
            Some(rest) => match leading_expr(rest) {
                None => Err(Fault::Body),
                Some((body, rest, more_unread)) => if trailing(rest).len() == 0 {
                    Ok((iterator, body, unread || more_unread))
                } else {
                    Err(Fault::Trailing(trailing(rest)))
                },
            },
        },
    }
}

/// What may stand after the body, unless it begins with an invisible bracket: nothing or a single
/// comma, and no other token.
pub proof fn law_end_of_input(
    tokens: Seq<Lexeme>,
    iterator: Seq<Lexeme>,
    middle: Seq<Lexeme>,
    body: Seq<Lexeme>,
    end: Seq<Lexeme>,
)
    requires
        leading_expr(tokens) matches Some((i, rest, _)) && i == iterator && after_comma(rest) == Some(middle),
        leading_expr(middle) matches Some((b, rest, _)) && b == body && rest == end,
        !begins_invisibly(end),
    ensures
        drive_input(tokens) is Ok <==> end.len() == 0 || (end.len() == 1 && begins_with_comma(end)),
        drive_input(tokens) matches Ok((i, b, _)) ==> i == iterator && b == body,
        drive_input(tokens) matches Err(fault) ==> fault == Fault::Trailing(
            if begins_with_comma(end) { end.skip(1) } else { end },
        ),
{
}

/// An expression, a comma and another expression are the iterator and the body. The comma is a
/// token of its own, or `syn` finds it behind an invisible bracket. Behind the body nothing may be
/// left but one more comma, and what is left otherwise is reported.
pub proof fn law_two_expressions(
    tokens: Seq<Lexeme>,
    iterator: Seq<Lexeme>,
    rest: Seq<Lexeme>,
    middle: Seq<Lexeme>,
    body: Seq<Lexeme>,
    end: Seq<Lexeme>,
    unread: (bool, bool),
)
    requires
        leading_expr(tokens) == Some((iterator, rest, unread.0)),
        rest.len() > 0,
        rest[0] == Lexeme::Punct(',', true) || rest[0] == Lexeme::Punct(',', false) ==> middle == rest.skip(1),
        !(rest[0] == Lexeme::Punct(',', true) || rest[0] == Lexeme::Punct(',', false))
            ==> rest[0] == Lexeme::Open(Bracket::Invisible) && leading_comma(rest) == Some(middle),
        leading_expr(middle) == Some((body, end, unread.1)),
    ensures
        end.len() == 0 ==> drive_input(tokens) == Ok::<_, Fault>((iterator, body, unread.0 || unread.1)),
        end.len() > 0 ==> match end[0] {
            Lexeme::Punct(',', _) => if end.len() == 1 {
                drive_input(tokens) == Ok::<_, Fault>((iterator, body, unread.0 || unread.1))
            } else {
                drive_input(tokens) == Err::<(Seq<Lexeme>, Seq<Lexeme>, bool), _>(Fault::Trailing(end.skip(1)))
            },
            Lexeme::Open(Bracket::Invisible) => match leading_comma(end) {
                Some(last) => if last.len() == 0 {
                    drive_input(tokens) == Ok::<_, Fault>((iterator, body, unread.0 || unread.1))
                } else {
                    drive_input(tokens) == Err::<(Seq<Lexeme>, Seq<Lexeme>, bool), _>(Fault::Trailing(last))
                },
                None => drive_input(tokens) == Err::<(Seq<Lexeme>, Seq<Lexeme>, bool), _>(Fault::Trailing(end)),
            },
            _ => drive_input(tokens) == Err::<(Seq<Lexeme>, Seq<Lexeme>, bool), _>(Fault::Trailing(end)),
        },
{
}

/// What is missing is reported, and the first thing that is missing: the iterator, then the comma,
/// then the body.
pub proof fn law_first_missing_part(tokens: Seq<Lexeme>)
    ensures
        leading_expr(tokens) is None ==> drive_input(tokens) == Err::<(Seq<Lexeme>, Seq<Lexeme>, bool), _>(
            Fault::Iterator,
        ),
        leading_expr(tokens) matches Some((_, rest, _)) ==> {
            if rest.len() == 0 {
                drive_input(tokens) == Err::<(Seq<Lexeme>, Seq<Lexeme>, bool), _>(Fault::Comma)
            } else {
                match rest[0] {
                    Lexeme::Punct(',', _) => leading_expr(rest.skip(1)) is None
                        ==> drive_input(tokens) == Err::<(Seq<Lexeme>, Seq<Lexeme>, bool), _>(Fault::Body),
                    Lexeme::Open(Bracket::Invisible) => match leading_comma(rest) {
                        Some(middle) => leading_expr(middle) is None
                            ==> drive_input(tokens) == Err::<(Seq<Lexeme>, Seq<Lexeme>, bool), _>(Fault::Body),
                        None => drive_input(tokens) == Err::<(Seq<Lexeme>, Seq<Lexeme>, bool), _>(Fault::Comma),
                    },
                    _ => drive_input(tokens) == Err::<(Seq<Lexeme>, Seq<Lexeme>, bool), _>(Fault::Comma),
                }
            }
        },
{
}

/// An error names the part of the input that is at fault, and hands on the error it was made from.
pub proof fn law_errors_name_their_part(rest: TokenStream, error: syn::Error)
    ensures
        DriveError::Iterator(error).fault() == Fault::Iterator,
        DriveError::Comma(error).fault() == Fault::Comma,
        DriveError::Body(error).fault() == Fault::Body,
        DriveError::Trailing(rest, error).fault() == Fault::Trailing(lexemes(rest)),
        DriveError::Unread(error).fault() == Fault::Unread,
        DriveError::Iterator(error).error() == error,
        DriveError::Comma(error).error() == error,
        DriveError::Body(error).error() == error,
        DriveError::Trailing(rest, error).error() == error,
        DriveError::Unread(error).error() == error,
{
}

/// An error that `syn` gave comes from the place where the part is missing, and from no other: an
/// expression or a comma is complained about only where `syn` finds none, and unread tokens only
/// where there are some.
pub proof fn law_errors_come_from_their_place(stream: TokenStream, rest: TokenStream, error: syn::Error)
    ensures
        expr_error(stream, error) ==> leading_expr(lexemes(stream)) is None,
        comma_error(stream, error) ==> leading_comma(lexemes(stream)) is None,
        unread_error(stream, error) ==> (leading_expr(lexemes(stream)) matches Some((_, _, unread)) && unread),
        left_by_expr(stream, rest) ==> (leading_expr(lexemes(stream)) matches Some((_, behind, _))
            && behind == lexemes(rest)),
        left_by_comma(stream, rest) ==> leading_comma(lexemes(stream)) == Some(lexemes(rest)),
{
}

/// The errors that are handed on are those of the calls that failed, unchanged. Only the one about
/// tokens that should not be there is made here, with these words, at the first of the tokens.
proof fn law_errors_are_handed_on(stream: TokenStream, error: syn::Error)
    ensures
        expr_error(stream, error) ==> call_ensures(
            split_expr,
            (stream,),
            Err::<(TokenStream, TokenStream, Option<syn::Error>), syn::Error>(error),
        ),
        comma_error(stream, error) ==> call_ensures(split_comma, (stream,), Err::<TokenStream, syn::Error>(error)),
        unread_error(stream, error) ==> exists|expr: TokenStream, rest: TokenStream| #[trigger] call_ensures(
            split_expr,
            (stream,),
            Ok::<(TokenStream, TokenStream, Option<syn::Error>), syn::Error>((expr, rest, Some(error))),
        ),
        trailing_error(stream, error) ==> call_ensures(
            error_at,
            ((&stream, "unexpected trailing tokens after drive body"),),
            error,
        ),
{
}

/// An error about an input is about the part that it names: the one at which reading the input
/// stops, or the first with unread tokens in it.
pub proof fn law_errors_are_about_their_part(input: TokenStream, refused: DriveError)
    requires
        refused.is_about(input),
    ensures
        refused is Iterator ==> leading_expr(lexemes(input)) is None,
        leading_expr(lexemes(input)) matches Some((_, behind, unread)) ==> {
            &&& refused is Comma ==> leading_comma(behind) is None
            &&& refused matches DriveError::Unread(error) ==> (unread ==> unread_error(input, error))
            &&& behind.len() > 0 && is_comma(behind[0]) ==> {
                &&& refused is Body ==> leading_expr(behind.skip(1)) is None
                &&& refused is Unread && !unread ==> (leading_expr(behind.skip(1)) matches Some((_, _, more_unread))
                    && more_unread)
                &&& refused matches DriveError::Unread(error) ==> (!unread
                    ==> exists|rest: TokenStream| #[trigger] unread_error(rest, error)
                        && lexemes(rest) == behind.skip(1))
                &&& refused matches DriveError::Trailing(rest, _) ==> (leading_expr(behind.skip(1)) matches Some((_, end, _))
                    ==> {
                        &&& end.len() == 0 ==> lexemes(rest).len() == 0
                        &&& end.len() > 0 ==> match end[0] {
                            Lexeme::Punct(',', _) => lexemes(rest) == end.skip(1),
                            Lexeme::Open(Bracket::Invisible) => lexemes(rest) == match leading_comma(end) {
                                Some(last) => last,
                                None => end,
                            },
                            _ => lexemes(rest) == end,
                        }
                    })
            }
        },
{
}

/// Whether one comma more at the end of the input changes nothing, and two are an error.
pub open spec fn takes_one_comma(tokens: Seq<Lexeme>) -> bool {
    &&& forall|c: Lexeme| is_comma(c) ==> #[trigger] drive_input(tokens.push(c)) == drive_input(tokens)
    &&& forall|c: Lexeme, d: Lexeme| is_comma(c) && is_comma(d)
        ==> #[trigger] drive_input(tokens.push(c).push(d)) == Err::<(Seq<Lexeme>, Seq<Lexeme>, bool), Fault>(
            Fault::Trailing(seq![d]),
        )
}

proof fn lemma_takes_one_comma(tokens: Seq<Lexeme>)
    requires
        drive_input(tokens) is Ok,
        is_visible(tokens),
        tokens.len() > 0 ==> !is_comma(tokens.last()),
        reads_on(tokens),
        after_iterator(tokens).is_suffix_of(tokens),
        reads_on(before_body(tokens)),
        after_body(tokens).is_suffix_of(before_body(tokens)),
    ensures
        takes_one_comma(tokens),
{
    let rest = after_iterator(tokens);
    let body = before_body(tokens);
    let end = after_body(tokens);
    assert(rest.len() > 0);
    assert(rest[0] == tokens[tokens.len() - rest.len()]);
    assert(begins_with_comma(rest));
    assert(end.len() == 0) by {
        if end.len() > 0 {
            assert(end[0] == body[body.len() - end.len()]);
            assert(begins_with_comma(end));
            assert(end.last() == body.last());
            assert(body.last() == rest.last());
            assert(rest.last() == tokens.last());
        }
    }
    assert forall|commas: Seq<Lexeme>| commas.len() > 0
        && (forall|k: int| 0 <= k < commas.len() ==> is_comma(#[trigger] commas[k]))
        implies #[trigger] drive_input(tokens + commas) == (if commas.len() == 1 {
        drive_input(tokens)
    } else {
        Err(Fault::Trailing(commas.skip(1)))
    }) by {
        assert((rest + commas).skip(1) == body + commas);
        assert(end + commas == commas);
    }
    assert forall|c: Lexeme| is_comma(c) implies #[trigger] drive_input(tokens.push(c)) == drive_input(tokens) by {
        assert(tokens.push(c) == tokens + seq![c]);
    }
    assert forall|c: Lexeme, d: Lexeme| is_comma(c) && is_comma(d) implies #[trigger] drive_input(
        tokens.push(c).push(d),
    ) == Err::<(Seq<Lexeme>, Seq<Lexeme>, bool), Fault>(Fault::Trailing(seq![d])) by {
        assert(tokens.push(c).push(d) == tokens + seq![c, d]);
        assert(seq![c, d].skip(1) == seq![d]);
    }
}

impl Drive {
    /// The tokens that the macro stands for.
    pub open spec fn expansion() -> Seq<Lexeme> {
        seq![
            Lexeme::Word("println"@),
            Lexeme::Punct('!', false),
            Lexeme::Open(Bracket::Parenthesis),
            Lexeme::Word("\"hello world\""@),
            Lexeme::Close(Bracket::Parenthesis),
            Lexeme::Punct(';', false),
        ]
    }

    /// Writes what the macro stands for behind `tokens`.
    pub fn to_tokens(&self, tokens: &mut TokenStream)
        ensures
            lexemes(*final(tokens)) == lexemes(*old(tokens)) + Drive::expansion(),
    {
        Drive::write_expansion(tokens, lex("println!(\"hello world\");"));
    }

    /// Writes `expansion`, if it is there, behind `tokens`.
    pub fn write_expansion(tokens: &mut TokenStream, expansion: Option<TokenStream>)
        ensures
            match expansion {
                Some(expansion) => lexemes(*final(tokens)) == lexemes(*old(tokens)) + lexemes(expansion),
                None => *final(tokens) == *old(tokens),
            },
    {
        if let Some(expansion) = expansion {
            append(tokens, expansion);
        }
    }

    /// Reads the input of the macro.
    ///
    /// One comma more at the end of an input that is accepted and does not end in one changes
    /// nothing, and two are an error, as long as there are no invisible brackets.
    pub fn parse(input: TokenStream) -> (parsed: Result<Drive, DriveError>)
        ensures
            match parsed {
                Ok(drive) => {
                    &&& drive_input(lexemes(input)) == Ok::<_, Fault>(
                        (lexemes(drive.iterator), lexemes(drive.body), drive.unread is Some),
                    )
                    &&& drive.unread matches Some(error) ==> is_unread_in(input, error)
                },
                Err(error) => {
                    &&& drive_input(lexemes(input)) == Err::<(Seq<Lexeme>, Seq<Lexeme>, bool), Fault>(
                        error.fault(),
                    )
                    &&& error.is_about(input)
                },
            },
            parsed is Ok && is_visible(lexemes(input)) && !is_comma(lexemes(input).last())
                ==> takes_one_comma(lexemes(input)),
    {
        let (iterator, rest, unread) = match read_expr(input) {
            Ok(split) => split,
            Err(error) => return Err(DriveError::Iterator(error)),
        };
        let ghost behind_iterator = rest;
        let rest = match read_comma(rest) {
            Ok(rest) => rest,
            Err(error) => {
                let refused = DriveError::Comma(error);
                assert(comma_error(behind_iterator, refused->Comma_0));
                return Err(refused);
            },
        };
        let ghost behind_comma = rest;
        let (body, rest, more_unread) = match read_expr(rest) {
            Ok(split) => split,
            Err(error) => {
                let refused = DriveError::Body(error);
                assert(expr_error(behind_comma, refused->Body_0));
                return Err(refused);
            },
        };
        let unread = match unread {
            Some(error) => Some(error),
            None => more_unread,
        };
        let rest = match read_comma(rest.clone()) {
            Ok(rest) => rest,
            Err(_) => rest,
        };
        let at_end = rest.is_empty();
        match Drive::finish(Drive { iterator, body, unread }, rest, at_end) {
            Ok(drive) => {
                proof {
                    let tokens = lexemes(input);
                    if is_visible(tokens) && !is_comma(tokens.last()) {
                        let behind = lexemes(behind_iterator);
                        let offset = tokens.len() - behind.len();
                        assert forall|k: int| 0 <= k < behind.len() implies #[trigger] behind[k] == tokens[k + offset] by {}
                        assert(!begins_invisibly(behind));
                        assert(lexemes(behind_comma) == behind.skip(1));
                        assert forall|k: int| 0 <= k < lexemes(behind_comma).len() implies
                            #[trigger] lexemes(behind_comma)[k] == tokens[k + 1 + offset] by {
                            assert(behind[k + 1] == tokens[k + 1 + offset]);
                        }
                        assert(is_visible(lexemes(behind_comma)));
                        lemma_takes_one_comma(tokens);
                    }
                }
                Ok(drive)
            },
            Err(rest) => {
                let error = apply(error_at, (&rest, "unexpected trailing tokens after drive body"));
                Err(DriveError::Trailing(rest, error))
            },
        }
    }

    /// The input `drive`, if `at_end` says that nothing is left in `rest`, the tokens after it;
    /// otherwise these tokens.
    pub fn finish(drive: Drive, rest: TokenStream, at_end: bool) -> (parsed: Result<Drive, TokenStream>)
        ensures
            parsed == if at_end {
                Ok::<Drive, TokenStream>(drive)
            } else {
                Err(rest)
            },
    {
        if at_end {
            Ok(drive)
        } else {
            Err(rest)
        }
    }
}

/// Reads an expression at the front of `stream`.
fn read_expr(stream: TokenStream) -> (split: Result<(TokenStream, TokenStream, Option<syn::Error>), syn::Error>)
    ensures
        split matches Ok((expr, rest, unread)) ==> {
            &&& leading_expr(lexemes(stream)) == Some((lexemes(expr), lexemes(rest), unread is Some))
            &&& unread matches Some(error) ==> unread_error(stream, error)
            &&& left_by_expr(stream, rest)
            &&& is_visible(lexemes(stream))
                ==> lexemes(rest).is_suffix_of(lexemes(stream)) && reads_on(lexemes(stream))
        },
        split matches Err(error) ==> leading_expr(lexemes(stream)) is None && expr_error(stream, error),
{
    apply(split_expr, stream)
}

/// Reads a comma at the front of `stream`.
fn read_comma(stream: TokenStream) -> (split: Result<TokenStream, syn::Error>)
    ensures
        split matches Ok(rest) ==> after_comma(lexemes(stream)) == Some(lexemes(rest)) && left_by_comma(stream, rest),
        split matches Err(error) ==> after_comma(lexemes(stream)) is None && comma_error(stream, error),
{
    apply(split_comma, stream)
}

/// What the macro stands for, given its input.
pub fn drive(input: TokenStream) -> (expanded: Result<TokenStream, DriveError>)
    ensures
        match expanded {
            Ok(tokens) => {
                &&& drive_input(lexemes(input)) matches Ok((_, _, unread)) && !unread
                &&& lexemes(tokens) == Drive::expansion()
            },
            Err(error) => {
                &&& match drive_input(lexemes(input)) {
                    Ok((_, _, unread)) => unread && error is Unread,
                    Err(fault) => error.fault() == fault,
                }
                &&& error.is_about(input)
            },
        },
{
    match Drive::parse(input) {
        Ok(parsed) => match parsed.unread {
            Some(error) => Err(DriveError::Unread(error)),
            None => {
                let mut tokens = TokenStream::new();
                parsed.to_tokens(&mut tokens);
                Ok(tokens)
            },
        },
        Err(error) => Err(error),
    }
}

} // verus!
