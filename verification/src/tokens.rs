//! Streams of tokens, and what the language's own grammar takes off their front.

use crate::tokens::ExprPart::{Call, Group, MethodCall, Other, Paren, Path, Reference, Try};
use proc_macro2::{Delimiter, Spacing, TokenStream, TokenTree};
use quote::ToTokens;
use syn::parse::Parser;
use syn::parse2;
use syn::punctuated::Punctuated;
use syn::Expr;
use syn::Expr::{
    Call as OfCall, Group as OfGroup, MethodCall as OfMethodCall, Paren as OfParen, Path as OfPath,
    Reference as OfReference, Try as OfTry,
};
use vstd::prelude::*;

verus! {

/// A stream of tokens, as `proc_macro2` holds it.
#[verifier::external_type_specification]
#[verifier::external_body]
pub struct ExTokenStream(proc_macro2::TokenStream);

/// A token, with the stream inside it where it is a group.
#[derive(Debug)]
pub enum Token {
    Word(String),
    /// A punctuation mark, joint where another follows at once.
    Mark { text: char, joint: bool },
    Value(String),
    Parentheses(TokenStream),
    Braces(TokenStream),
    Brackets(TokenStream),
    /// A group with nothing around it that can be seen.
    Bare(TokenStream),
}

/// What a token is, apart from where it stands in a file.
pub enum TokenText {
    Word(Seq<char>),
    Mark(char, bool),
    Value(Seq<char>),
    Parentheses(Seq<TokenText>),
    Braces(Seq<TokenText>),
    Brackets(Seq<TokenText>),
    Bare(Seq<TokenText>),
}

/// The tokens that a stream holds.
pub uninterp spec fn stream_tokens(stream: TokenStream) -> Seq<TokenText>;

impl View for Token {
    type V = TokenText;

    open spec fn view(&self) -> TokenText {
        match self {
            Token::Word(text) => TokenText::Word(text@),
            Token::Mark { text, joint } => TokenText::Mark(*text, *joint),
            Token::Value(text) => TokenText::Value(text@),
            Token::Parentheses(inner) => TokenText::Parentheses(stream_tokens(*inner)),
            Token::Braces(inner) => TokenText::Braces(stream_tokens(*inner)),
            Token::Brackets(inner) => TokenText::Brackets(stream_tokens(*inner)),
            Token::Bare(inner) => TokenText::Bare(stream_tokens(*inner)),
        }
    }
}

/// What tokens are.
pub open spec fn shown(tokens: Seq<Token>) -> Seq<TokenText> {
    tokens.map_values(|t: Token| t@)
}

/// A text, where there is one.
pub open spec fn shown_text(text: Option<String>) -> Option<Seq<char>> {
    match text {
        Some(text) => Some(text@),
        None => None,
    }
}

/// What was taken off the front of a stream, and what is left of it; nothing where there was nothing, and
/// a message where it is not there.
pub open spec fn shown_front(r: Result<Option<(TokenStream, TokenStream)>, String>) -> Result<
    Option<(Seq<TokenText>, Seq<TokenText>)>,
    Seq<char>,
> {
    match r {
        Ok(Some((taken, rest))) => Ok(Some((stream_tokens(taken), stream_tokens(rest)))),
        Ok(None) => Ok(None),
        Err(message) => Err(message@),
    }
}

/// The identifier that was taken off the front of a stream, and what is left of it; nothing where there
/// was nothing, and a message where it is not there.
pub open spec fn shown_ident(r: Result<Option<(String, TokenStream)>, String>) -> Result<
    Option<(Seq<char>, Seq<TokenText>)>,
    Seq<char>,
> {
    match r {
        Ok(Some((name, rest))) => Ok(Some((name@, stream_tokens(rest)))),
        Ok(None) => Ok(None),
        Err(message) => Err(message@),
    }
}

/// The expression that `syn` reads at the front of tokens, and the tokens behind it; nothing where there
/// are none, and its message where no expression is there.
pub uninterp spec fn expr_front(tokens: Seq<TokenText>) -> Result<
    Option<(Seq<TokenText>, Seq<TokenText>)>,
    Seq<char>,
>;

/// The type that `syn` reads at the front of tokens, and the tokens behind it; nothing where there are
/// none, and its message where no type is there.
pub uninterp spec fn type_front(tokens: Seq<TokenText>) -> Result<
    Option<(Seq<TokenText>, Seq<TokenText>)>,
    Seq<char>,
>;

/// The visibility that `syn` reads at the front of tokens, and the tokens behind it; nothing where there
/// are none, and its message where what is there begins like one and is none.
pub uninterp spec fn visibility_front(tokens: Seq<TokenText>) -> Result<
    Option<(Seq<TokenText>, Seq<TokenText>)>,
    Seq<char>,
>;

/// The identifier that `syn` reads at the front of tokens, and the tokens behind it; nothing where there
/// are none, and its message where no identifier is there.
pub uninterp spec fn ident_front(tokens: Seq<TokenText>) -> Result<
    Option<(Seq<char>, Seq<TokenText>)>,
    Seq<char>,
>;

/// What `syn` says is wrong with tokens as an expression; nothing where they are one.
pub uninterp spec fn expr_error(tokens: Seq<TokenText>) -> Option<Seq<char>>;

/// What `syn` says is wrong with tokens as a type; nothing where they are one.
pub uninterp spec fn type_error(tokens: Seq<TokenText>) -> Option<Seq<char>>;

/// What `syn` says is wrong with tokens as an identifier; nothing where they are one.
pub uninterp spec fn ident_error(tokens: Seq<TokenText>) -> Option<Seq<char>>;

/// What `syn` takes an expression for; nothing where the tokens are none.
pub uninterp spec fn expr_part(tokens: Seq<TokenText>) -> Option<PartText>;

/// Goes through a `proc_macro2::TokenStream` with its `into_iter`, and keeps of each token what the crate
/// tells of it: the text of a word or a literal, the character of a punctuation mark and whether it is
/// joint with the next, what stands around a group and the stream inside. These are the tokens that the
/// stream holds.
#[verifier::external_body]
pub(crate) fn list_tokens(stream: &TokenStream) -> (r: Vec<Token>)
    ensures
        shown(r@) == stream_tokens(*stream),
{
    let read = |tree| match tree {
        TokenTree::Ident(word) => Token::Word(word.to_string()),
        TokenTree::Punct(mark) => {
            Token::Mark { text: mark.as_char(), joint: mark.spacing() == Spacing::Joint }
        },
        TokenTree::Literal(value) => Token::Value(value.to_string()),
        TokenTree::Group(group) => (match group.delimiter() {
            Delimiter::Parenthesis => Token::Parentheses,
            Delimiter::Brace => Token::Braces,
            Delimiter::Bracket => Token::Brackets,
            Delimiter::None => Token::Bare,
        })(group.stream()),
    };
    stream.clone().into_iter().map(read).collect()
}

/// A `proc_macro2::TokenStream` of the `count` tokens from `from` on, taken from another by its
/// `into_iter` and put together by `from_iter`, which keeps them and their order.
#[verifier::external_body]
pub(crate) fn take_tokens(stream: &TokenStream, from: usize, count: usize) -> (r: TokenStream)
    requires
        from + count <= stream_tokens(*stream).len(),
    ensures
        stream_tokens(r) == stream_tokens(*stream).subrange(from as int, from + count),
{
    TokenStream::from_iter(stream.clone().into_iter().skip(from).take(count))
}

/// A `proc_macro2::TokenStream` of the tokens of one and, behind them, those of another, put together by
/// `from_iter`, which keeps them and their order.
#[verifier::external_body]
pub(crate) fn join_tokens(first: TokenStream, second: TokenStream) -> (r: TokenStream)
    ensures
        stream_tokens(r) == stream_tokens(first) + stream_tokens(second),
{
    TokenStream::from_iter([first, second])
}

/// Reads an expression at the front of the tokens, and keeps the others, with the `parse_terminated` of
/// `syn::punctuated::Punctuated` for an expression and, as what stands behind it, a `TokenStream`, which
/// is all the rest. The expression comes out as the tokens that `quote::ToTokens` makes of it. What comes out
/// is only claimed to depend on the tokens alone, to be nothing only where there are no tokens, and what
/// is left to weigh no more than what was there.
#[verifier::external_body]
pub(crate) fn take_expr(stream: &TokenStream) -> (r: Result<Option<(TokenStream, TokenStream)>, String>)
    ensures
        shown_front(r) == expr_front(stream_tokens(*stream)),
        r matches Ok(None) ==> stream_tokens(*stream).len() == 0,
        r matches Ok(Some((taken, rest))) ==> weight(stream_tokens(rest)) <= weight(
            stream_tokens(*stream),
        ),
{
    match Punctuated::<Expr, TokenStream>::parse_terminated.parse2(stream.clone()) {
        Ok(found) => Ok(found.into_pairs().next().map(|pair| pair.into_tuple()).map(
            |(read, rest)| (read.into_token_stream(), rest.unwrap_or_default()),
        )),
        Err(error) => Err(error.to_string()),
    }
}

/// Reads a type at the front of the tokens, and keeps the others, with the `parse_terminated` of
/// `syn::punctuated::Punctuated` for a type and, as what stands behind it, a `TokenStream`, which
/// is all the rest. The type comes out as the tokens that `quote::ToTokens` makes of it. What comes out
/// is only claimed to depend on the tokens alone, to be nothing only where there are no tokens, and what
/// is left to weigh no more than what was there.
#[verifier::external_body]
pub(crate) fn take_type(stream: &TokenStream) -> (r: Result<Option<(TokenStream, TokenStream)>, String>)
    ensures
        shown_front(r) == type_front(stream_tokens(*stream)),
        r matches Ok(None) ==> stream_tokens(*stream).len() == 0,
        r matches Ok(Some((taken, rest))) ==> weight(stream_tokens(rest)) <= weight(
            stream_tokens(*stream),
        ),
{
    match Punctuated::<syn::Type, TokenStream>::parse_terminated.parse2(stream.clone()) {
        Ok(found) => Ok(found.into_pairs().next().map(|pair| pair.into_tuple()).map(
            |(read, rest)| (read.into_token_stream(), rest.unwrap_or_default()),
        )),
        Err(error) => Err(error.to_string()),
    }
}

/// Reads a visibility at the front of the tokens, and keeps the others, with the `parse_terminated` of
/// `syn::punctuated::Punctuated` for a visibility and, as what stands behind it, a `TokenStream`, which is
/// all the rest. The visibility comes out as the tokens that `quote::ToTokens` makes of it. What comes out
/// is only claimed to depend on the tokens alone.
#[verifier::external_body]
pub(crate) fn take_visibility(stream: &TokenStream) -> (r: Result<
    Option<(TokenStream, TokenStream)>,
    String,
>)
    ensures
        shown_front(r) == visibility_front(stream_tokens(*stream)),
{
    match Punctuated::<syn::Visibility, TokenStream>::parse_terminated.parse2(stream.clone()) {
        Ok(found) => Ok(found.into_pairs().next().map(|pair| pair.into_tuple()).map(
            |(read, rest)| (read.into_token_stream(), rest.unwrap_or_default()),
        )),
        Err(error) => Err(error.to_string()),
    }
}

/// Reads an identifier at the front of the tokens, which a keyword is not, and keeps the others, with the
/// `parse_terminated` of `syn::punctuated::Punctuated` for an identifier and, as what stands behind it, a
/// `TokenStream`, which is all the rest. What comes out is claimed to depend on the tokens alone, and to be
/// nothing only where there are no tokens; an identifier is the first token, a word, and what is left are
/// those behind it. Which words are keywords is left unsaid.
#[verifier::external_body]
pub(crate) fn take_ident(stream: &TokenStream) -> (r: Result<Option<(String, TokenStream)>, String>)
    ensures
        shown_ident(r) == ident_front(stream_tokens(*stream)),
        r matches Ok(None) ==> stream_tokens(*stream).len() == 0,
        r matches Ok(Some((name, rest))) ==> front(stream_tokens(*stream)) == Some(
            (TokenText::Word(name@), stream_tokens(rest)),
        ),
{
    match Punctuated::<syn::Ident, TokenStream>::parse_terminated.parse2(stream.clone()) {
        Ok(found) => Ok(found.into_pairs().next().map(|pair| pair.into_tuple()).map(
            |(read, rest)| (read.to_string(), rest.unwrap_or_default()),
        )),
        Err(error) => Err(error.to_string()),
    }
}

/// Asks `syn::parse2` whether the tokens are an expression, and for its message where they are none. The
/// answer is only claimed to depend on the tokens alone, and no tokens to be no expression.
#[verifier::external_body]
pub(crate) fn check_expr(stream: &TokenStream) -> (r: Option<String>)
    ensures
        shown_text(r) == expr_error(stream_tokens(*stream)),
        stream_tokens(*stream).len() == 0 ==> r is Some,
{
    parse2::<Expr>(stream.clone()).err().map(|error| error.to_string())
}

/// Asks `syn::parse2` whether the tokens are a type, and for its message where they are none. The answer
/// is only claimed to depend on the tokens alone, and no tokens to be no type.
#[verifier::external_body]
pub(crate) fn check_type(stream: &TokenStream) -> (r: Option<String>)
    ensures
        shown_text(r) == type_error(stream_tokens(*stream)),
        stream_tokens(*stream).len() == 0 ==> r is Some,
{
    parse2::<syn::Type>(stream.clone()).err().map(|error| error.to_string())
}

/// Asks `syn::parse2` whether the tokens are an identifier, and for its message where they are none. The
/// answer is only claimed to depend on the tokens alone, and no tokens to be no identifier.
#[verifier::external_body]
pub(crate) fn check_ident(stream: &TokenStream) -> (r: Option<String>)
    ensures
        shown_text(r) == ident_error(stream_tokens(*stream)),
        stream_tokens(*stream).len() == 0 ==> r is Some,
{
    parse2::<syn::Ident>(stream.clone()).err().map(|error| error.to_string())
}

/// An expression, as far as it matters where its value comes from.
#[derive(Debug)]
pub enum ExprPart {
    /// What is called, and the arguments.
    Call(TokenStream, Vec<TokenStream>),
    /// What a method is called on, the method, and the other arguments.
    MethodCall(TokenStream, String, Vec<TokenStream>),
    Paren(TokenStream),
    /// In a group with nothing around it that can be seen.
    Group(TokenStream),
    Reference(TokenStream),
    Try(TokenStream),
    /// The identifiers of a path.
    Path(Vec<String>),
    Other,
}

/// An expression's part, with what its tokens are.
pub enum PartText {
    Call(Seq<TokenText>, Seq<Seq<TokenText>>),
    MethodCall(Seq<TokenText>, Seq<char>, Seq<Seq<TokenText>>),
    Paren(Seq<TokenText>),
    Group(Seq<TokenText>),
    Reference(Seq<TokenText>),
    Try(Seq<TokenText>),
    Path(Seq<Seq<char>>),
    Other,
}

/// What the tokens of streams are.
pub open spec fn shown_streams(streams: Seq<TokenStream>) -> Seq<Seq<TokenText>> {
    streams.map_values(|s: TokenStream| stream_tokens(s))
}

impl View for ExprPart {
    type V = PartText;

    open spec fn view(&self) -> PartText {
        match self {
            ExprPart::Call(callee, args) => PartText::Call(
                stream_tokens(*callee),
                shown_streams(args@),
            ),
            ExprPart::MethodCall(receiver, method, args) => PartText::MethodCall(
                stream_tokens(*receiver),
                method@,
                shown_streams(args@),
            ),
            ExprPart::Paren(inner) => PartText::Paren(stream_tokens(*inner)),
            ExprPart::Group(inner) => PartText::Group(stream_tokens(*inner)),
            ExprPart::Reference(inner) => PartText::Reference(stream_tokens(*inner)),
            ExprPart::Try(inner) => PartText::Try(stream_tokens(*inner)),
            ExprPart::Path(segments) => PartText::Path(segments@.map_values(|s: String| s@)),
            ExprPart::Other => PartText::Other,
        }
    }
}

/// An expression's part, where there is one, with what its tokens are.
pub open spec fn shown_part(part: Option<ExprPart>) -> Option<PartText> {
    match part {
        Some(part) => Some(part@),
        None => None,
    }
}

/// Reads an expression with `syn::parse2` and keeps its fields, each expression in it as the tokens that
/// `quote::ToTokens` makes of it. What comes out is only claimed to depend on the tokens alone.
#[verifier::external_body]
pub(crate) fn read_expr(stream: TokenStream) -> (r: Option<ExprPart>)
    ensures
        shown_part(r) == expr_part(stream_tokens(stream)),
{
    Some(match parse2(stream).ok()? {
        OfCall(e) => Call(e.func.to_token_stream(), e.args.iter().map(Expr::to_token_stream).collect()),
        OfMethodCall(e) => MethodCall(
            e.receiver.to_token_stream(),
            e.method.to_string(),
            e.args.iter().map(Expr::to_token_stream).collect(),
        ),
        OfParen(e) => Paren(e.expr.to_token_stream()),
        OfGroup(e) => Group(e.expr.to_token_stream()),
        OfReference(e) => Reference(e.expr.to_token_stream()),
        OfTry(e) => Try(e.expr.to_token_stream()),
        OfPath(e) => Path(e.path.segments.iter().map(|s| s.ident.to_string()).collect()),
        _ => Other,
    })
}

/// How many tokens there are, with those in groups that have nothing around them that can be seen.
pub open spec fn weight(tokens: Seq<TokenText>) -> nat
    decreases tokens,
{
    if tokens.len() == 0 {
        0
    } else {
        let first = match tokens[0] {
            TokenText::Bare(inner) => 1 + weight(inner),
            _ => 1,
        };
        first + weight(tokens.subrange(1, tokens.len() as int))
    }
}

proof fn weights_add(a: Seq<TokenText>, b: Seq<TokenText>)
    ensures
        weight(a + b) == weight(a) + weight(b),
    decreases a.len(),
{
    let all = a + b;
    if a.len() == 0 {
        assert(all == b);
    } else {
        let rest = a.subrange(1, a.len() as int);
        weights_add(rest, b);
        assert(all.subrange(1, all.len() as int) == rest + b);
        assert(all[0] == a[0]);
    }
}

/// The tokens with the group at their front put aside, where that has nothing around it that can be seen.
pub open spec fn opened(tokens: Seq<TokenText>) -> Seq<TokenText> {
    match tokens[0] {
        TokenText::Bare(inner) => inner + tokens.subrange(1, tokens.len() as int),
        _ => tokens,
    }
}

/// To look into a group leaves fewer tokens.
pub proof fn opening_lightens(tokens: Seq<TokenText>)
    requires
        tokens.len() > 0,
        tokens[0] is Bare,
    ensures
        weight(opened(tokens)) < weight(tokens),
{
    weights_add(tokens[0]->Bare_0, tokens.subrange(1, tokens.len() as int));
}

/// The first token and those behind it. A group with nothing around it that can be seen is looked into,
/// and passed over where nothing is in it.
pub open spec fn front(tokens: Seq<TokenText>) -> Option<(TokenText, Seq<TokenText>)>
    decreases weight(tokens),
{
    if tokens.len() == 0 {
        None
    } else if tokens[0] is Bare {
        proof {
            opening_lightens(tokens);
        }
        front(opened(tokens))
    } else {
        Some((tokens[0], tokens.subrange(1, tokens.len() as int)))
    }
}

/// What is behind the first token weighs less than all.
pub proof fn front_lightens(tokens: Seq<TokenText>)
    ensures
        front(tokens) matches Some((token, rest)) ==> weight(rest) < weight(tokens),
    decreases weight(tokens),
{
    if tokens.len() > 0 && tokens[0] is Bare {
        opening_lightens(tokens);
        front_lightens(opened(tokens));
    }
}

/// Takes the first token off the stream.
pub fn take_front(stream: &TokenStream) -> (r: Option<(Token, TokenStream)>)
    ensures
        match front(stream_tokens(*stream)) {
            Some((token, rest)) => r matches Some(found) && found.0@ == token && stream_tokens(
                found.1,
            ) == rest && weight(rest) < weight(stream_tokens(*stream)),
            None => r is None,
        },
    decreases weight(stream_tokens(*stream)),
{
    let ghost tokens = stream_tokens(*stream);
    let mut list: Vec<Token> = list_tokens(stream);
    let count: usize = list.len();
    if count == 0 {
        return None;
    }
    assert(shown(list@)[0] == list@[0]@);
    let first: Token = list.remove(0);
    let rest: TokenStream = take_tokens(stream, 1, count - 1);
    match first {
        Token::Bare(inner) => {
            proof {
                opening_lightens(tokens);
            }
            let inside: TokenStream = join_tokens(inner, rest);
            take_front(&inside)
        },
        other => Some((other, rest)),
    }
}

/// Whether the stream holds no tokens.
pub fn is_empty(stream: &TokenStream) -> (r: bool)
    ensures
        r == (stream_tokens(*stream).len() == 0),
{
    let list: Vec<Token> = list_tokens(stream);
    assert(shown(list@).len() == list@.len());
    list.len() == 0
}

/// A copy of the stream.
pub fn copy_stream(stream: &TokenStream) -> (r: TokenStream)
    ensures
        stream_tokens(r) == stream_tokens(*stream),
{
    let list: Vec<Token> = list_tokens(stream);
    assert(shown(list@).len() == list@.len());
    let copy: TokenStream = take_tokens(stream, 0, list.len());
    assert(stream_tokens(copy) == stream_tokens(*stream));
    copy
}

} // verus!
