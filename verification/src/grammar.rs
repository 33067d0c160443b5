//! The declaration of a pipeline, read from its tokens.

use crate::text::{concat, same};
use crate::tokens::{
    check_expr, check_ident, check_type, copy_stream, expr_error, expr_front, front, front_lightens,
    ident_error, ident_front, is_empty, shown_streams, stream_tokens, take_expr, take_front, take_ident,
    take_type, take_visibility, type_error, type_front, visibility_front, weight, Token, TokenText,
};
use proc_macro2::TokenStream;
use vstd::prelude::*;

verus! {

/// What the grammar expects at a place.
#[derive(Clone, Copy, Debug, PartialEq, Eq, Structural)]
pub enum Expectation {
    Struct,
    Equals,
    Semicolon,
    Comma,
    Arrow,
    Braces,
    Parentheses,
    /// Nothing more.
    End,
}

/// What is wrong with a declaration.
#[derive(Debug)]
pub enum GrammarFault {
    /// Something else stands at a place.
    Expected(Expectation),
    /// The tokens end at a place.
    Ended(Expectation),
    /// What the language's own grammar says of a part.
    Part(String),
    TypeKey,
    FieldKey,
    ExternalTypes,
    ExternalMethod,
    ReusableTokens,
    ReusableTwice,
    MissingInput,
    MissingOutput,
    MissingError,
    MissingConfig,
    MissingNodes,
}

/// What is wrong with a declaration, as texts.
pub enum FaultText {
    Expected(Expectation),
    Ended(Expectation),
    Part(Seq<char>),
    TypeKey,
    FieldKey,
    ExternalTypes,
    ExternalMethod,
    ReusableTokens,
    ReusableTwice,
    MissingInput,
    MissingOutput,
    MissingError,
    MissingConfig,
    MissingNodes,
}

impl View for GrammarFault {
    type V = FaultText;

    open spec fn view(&self) -> FaultText {
        match self {
            GrammarFault::Expected(e) => FaultText::Expected(*e),
            GrammarFault::Ended(e) => FaultText::Ended(*e),
            GrammarFault::Part(message) => FaultText::Part(message@),
            GrammarFault::TypeKey => FaultText::TypeKey,
            GrammarFault::FieldKey => FaultText::FieldKey,
            GrammarFault::ExternalTypes => FaultText::ExternalTypes,
            GrammarFault::ExternalMethod => FaultText::ExternalMethod,
            GrammarFault::ReusableTokens => FaultText::ReusableTokens,
            GrammarFault::ReusableTwice => FaultText::ReusableTwice,
            GrammarFault::MissingInput => FaultText::MissingInput,
            GrammarFault::MissingOutput => FaultText::MissingOutput,
            GrammarFault::MissingError => FaultText::MissingError,
            GrammarFault::MissingConfig => FaultText::MissingConfig,
            GrammarFault::MissingNodes => FaultText::MissingNodes,
        }
    }
}

/// What is said of an expectation that was not met.
pub open spec fn expectation_text(expected: Expectation) -> Seq<char> {
    match expected {
        Expectation::Struct => "expected `struct`"@,
        Expectation::Equals => "expected `=`"@,
        Expectation::Semicolon => "expected `;`"@,
        Expectation::Comma => "expected `,`"@,
        Expectation::Arrow => "expected `->`"@,
        Expectation::Braces => "expected curly braces"@,
        Expectation::Parentheses => "expected parentheses"@,
        Expectation::End => "unexpected token"@,
    }
}

fn expectation_message(expected: Expectation) -> (r: String)
    ensures
        r@ == expectation_text(expected),
{
    match expected {
        Expectation::Struct => "expected `struct`".to_owned(),
        Expectation::Equals => "expected `=`".to_owned(),
        Expectation::Semicolon => "expected `;`".to_owned(),
        Expectation::Comma => "expected `,`".to_owned(),
        Expectation::Arrow => "expected `->`".to_owned(),
        Expectation::Braces => "expected curly braces".to_owned(),
        Expectation::Parentheses => "expected parentheses".to_owned(),
        Expectation::End => "unexpected token".to_owned(),
    }
}

/// What is said of a fault.
pub open spec fn fault_message(fault: FaultText) -> Seq<char> {
    match fault {
        FaultText::Expected(expected) => expectation_text(expected),
        FaultText::Ended(expected) => "unexpected end of input, "@ + expectation_text(expected),
        FaultText::Part(message) => message,
        FaultText::TypeKey => "expected Input, Output, or Error"@,
        FaultText::FieldKey => "expected config, nodes, graph, or return_state assignment"@,
        FaultText::ExternalTypes => "expected exactly two external node types"@,
        FaultText::ExternalMethod => {
            "external nodes only support `.with_reusable_output(factory)`"@
        },
        FaultText::ReusableTokens => "unexpected tokens in with_reusable_output"@,
        FaultText::ReusableTwice => {
            "external nodes support at most one `.with_reusable_output(...)` chain"@
        },
        FaultText::MissingInput => "missing `type Input = ...;`"@,
        FaultText::MissingOutput => "missing `type Output = ...;`"@,
        FaultText::MissingError => "missing `type Error = ...;`"@,
        FaultText::MissingConfig => "missing `config = ...;`"@,
        FaultText::MissingNodes => "missing `nodes = ...;`"@,
    }
}

impl GrammarFault {
    /// What is said of the fault.
    pub fn describe(self) -> (r: String)
        ensures
            r@ == fault_message(self@),
    {
        match self {
            GrammarFault::Expected(expected) => expectation_message(expected),
            GrammarFault::Ended(expected) => concat(
                "unexpected end of input, ",
                expectation_message(expected).as_str(),
            ),
            GrammarFault::Part(message) => message,
            GrammarFault::TypeKey => "expected Input, Output, or Error".to_owned(),
            GrammarFault::FieldKey => {
                "expected config, nodes, graph, or return_state assignment".to_owned()
            },
            GrammarFault::ExternalTypes => "expected exactly two external node types".to_owned(),
            GrammarFault::ExternalMethod => {
                "external nodes only support `.with_reusable_output(factory)`".to_owned()
            },
            GrammarFault::ReusableTokens => "unexpected tokens in with_reusable_output".to_owned(),
            GrammarFault::ReusableTwice => {
                "external nodes support at most one `.with_reusable_output(...)` chain".to_owned()
            },
            GrammarFault::MissingInput => "missing `type Input = ...;`".to_owned(),
            GrammarFault::MissingOutput => "missing `type Output = ...;`".to_owned(),
            GrammarFault::MissingError => "missing `type Error = ...;`".to_owned(),
            GrammarFault::MissingConfig => "missing `config = ...;`".to_owned(),
            GrammarFault::MissingNodes => "missing `nodes = ...;`".to_owned(),
        }
    }
}

/// One end of an edge of the graph.
#[derive(Debug)]
pub enum Endpoint {
    Input,
    Output,
    Node(String),
}

/// One end of an edge, as text.
pub enum EndpointText {
    Input,
    Output,
    Node(Seq<char>),
}

impl View for Endpoint {
    type V = EndpointText;

    open spec fn view(&self) -> EndpointText {
        match self {
            Endpoint::Input => EndpointText::Input,
            Endpoint::Output => EndpointText::Output,
            Endpoint::Node(name) => EndpointText::Node(name@),
        }
    }
}

/// The ends of edges, as texts.
pub open spec fn shown_ends(ends: Seq<Endpoint>) -> Seq<EndpointText> {
    ends.map_values(|e: Endpoint| e@)
}

/// An edge of the graph, from each of some ends to each of others.
#[derive(Debug)]
pub struct Edge {
    pub from: Vec<Endpoint>,
    pub to: Vec<Endpoint>,
}

/// An edge, as texts.
pub struct EdgeText {
    pub from: Seq<EndpointText>,
    pub to: Seq<EndpointText>,
}

impl View for Edge {
    type V = EdgeText;

    open spec fn view(&self) -> EdgeText {
        EdgeText { from: shown_ends(self.from@), to: shown_ends(self.to@) }
    }
}

/// Edges, as texts.
pub open spec fn shown_edges(edges: Seq<Edge>) -> Seq<EdgeText> {
    edges.map_values(|e: Edge| e@)
}

/// What a named node is.
#[derive(Debug)]
pub enum NamedNodeKind {
    /// What the expression gives.
    Managed(TokenStream),
    /// It is run from outside, and takes and gives these types.
    External { input: TokenStream, output: TokenStream, reusable_factory: Option<TokenStream> },
}

/// What a named node is, as texts.
pub enum NodeKindText {
    Managed(Seq<TokenText>),
    External {
        input: Seq<TokenText>,
        output: Seq<TokenText>,
        reusable_factory: Option<Seq<TokenText>>,
    },
}

/// A named node.
#[derive(Debug)]
pub struct NamedNode {
    pub name: String,
    pub kind: NamedNodeKind,
}

/// A named node, as texts.
pub struct NodeText {
    pub name: Seq<char>,
    pub kind: NodeKindText,
}

impl View for NamedNodeKind {
    type V = NodeKindText;

    open spec fn view(&self) -> NodeKindText {
        match self {
            NamedNodeKind::Managed(expr) => NodeKindText::Managed(stream_tokens(*expr)),
            NamedNodeKind::External { input, output, reusable_factory } => NodeKindText::External {
                input: stream_tokens(*input),
                output: stream_tokens(*output),
                reusable_factory: shown_run(*reusable_factory),
            },
        }
    }
}

impl View for NamedNode {
    type V = NodeText;

    open spec fn view(&self) -> NodeText {
        NodeText { name: self.name@, kind: self.kind@ }
    }
}

/// Named nodes, as texts.
pub open spec fn shown_nodes(nodes: Seq<NamedNode>) -> Seq<NodeText> {
    nodes.map_values(|n: NamedNode| n@)
}

/// The nodes of a declaration.
#[derive(Debug)]
pub enum NodeDecls {
    /// One after the other.
    Linear(Vec<TokenStream>),
    /// By name, joined by a graph.
    Named(Vec<NamedNode>),
}

/// The nodes of a declaration, as texts.
pub enum DeclsText {
    Linear(Seq<Seq<TokenText>>),
    Named(Seq<NodeText>),
}

impl View for NodeDecls {
    type V = DeclsText;

    open spec fn view(&self) -> DeclsText {
        match self {
            NodeDecls::Linear(runs) => DeclsText::Linear(shown_streams(runs@)),
            NodeDecls::Named(nodes) => DeclsText::Named(shown_nodes(nodes@)),
        }
    }
}

/// Whether the result shows as that one.
pub open spec fn shows<T: View>(r: Result<T, GrammarFault>, expected: Result<T::V, FaultText>) -> bool {
    match expected {
        Ok(value) => r matches Ok(v) && v@ == value,
        Err(fault) => r matches Err(f) && f@ == fault,
    }
}

/// Whether the result of reading something off a stream shows as that.
pub open spec fn shows_read<T: View>(
    r: Result<(T, TokenStream), GrammarFault>,
    expected: Result<(T::V, Seq<TokenText>), FaultText>,
) -> bool {
    match expected {
        Ok((value, rest)) => r matches Ok(found) && found.0@ == value && stream_tokens(found.1) == rest,
        Err(fault) => r matches Err(f) && f@ == fault,
    }
}

/// The identifier at the front, and what is behind it.
pub open spec fn ident_read(tokens: Seq<TokenText>) -> Result<(Seq<char>, Seq<TokenText>), FaultText> {
    match ident_front(tokens) {
        Err(message) => Err(FaultText::Part(message)),
        Ok(Some(found)) => Ok(found),
        Ok(None) => Err(FaultText::Part(ident_error(tokens)->0)),
    }
}

fn read_ident(stream: &TokenStream) -> (r: Result<(String, TokenStream), GrammarFault>)
    ensures
        shows_read(r, ident_read(stream_tokens(*stream))),
        r matches Ok((name, rest)) ==> weight(stream_tokens(rest)) < weight(
            stream_tokens(*stream),
        ),
{
    proof {
        front_lightens(stream_tokens(*stream));
    }
    match take_ident(stream) {
        Err(message) => Err(GrammarFault::Part(message)),
        Ok(Some(found)) => Ok(found),
        Ok(None) => match check_ident(stream) {
            Some(message) => Err(GrammarFault::Part(message)),
            None => Err(GrammarFault::Expected(Expectation::End)),
        },
    }
}

/// What is behind the punctuation mark at the front, where it is that one, joint or not.
pub open spec fn mark_read(tokens: Seq<TokenText>, mark: char) -> Option<Seq<TokenText>> {
    match front(tokens) {
        Some((TokenText::Mark(text, joint), rest)) => if text == mark {
            Some(rest)
        } else {
            None
        },
        _ => None,
    }
}

/// Whether what is left of a stream is that.
pub open spec fn leaves(r: Option<TokenStream>, rest: Option<Seq<TokenText>>) -> bool {
    match rest {
        Some(rest) => r matches Some(stream) && stream_tokens(stream) == rest,
        None => r is None,
    }
}

fn read_mark(stream: &TokenStream, mark: char) -> (r: Option<TokenStream>)
    ensures
        leaves(r, mark_read(stream_tokens(*stream), mark)),
        r matches Some(rest) ==> weight(stream_tokens(rest)) < weight(stream_tokens(*stream)),
{
    match take_front(stream) {
        Some((Token::Mark { text, joint: _ }, rest)) => if text == mark {
            Some(rest)
        } else {
            None
        },
        _ => None,
    }
}

/// What is behind the arrow at the front, where there is one.
pub open spec fn arrow_read(tokens: Seq<TokenText>) -> Option<Seq<TokenText>> {
    match front(tokens) {
        Some((TokenText::Mark(text, joint), rest)) => if text == '-' && joint {
            mark_read(rest, '>')
        } else {
            None
        },
        _ => None,
    }
}

fn read_arrow(stream: &TokenStream) -> (r: Option<TokenStream>)
    ensures
        leaves(r, arrow_read(stream_tokens(*stream))),
        r matches Some(rest) ==> weight(stream_tokens(rest)) < weight(stream_tokens(*stream)),
{
    match take_front(stream) {
        Some((Token::Mark { text, joint }, rest)) => if text == '-' && joint {
            read_mark(&rest, '>')
        } else {
            None
        },
        _ => None,
    }
}

/// What is behind the word at the front, where it is that one.
pub open spec fn word_read(tokens: Seq<TokenText>, word: Seq<char>) -> Option<Seq<TokenText>> {
    match front(tokens) {
        Some((TokenText::Word(text), rest)) => if text == word {
            Some(rest)
        } else {
            None
        },
        _ => None,
    }
}

fn read_word(stream: &TokenStream, word: &str) -> (r: Option<TokenStream>)
    ensures
        leaves(r, word_read(stream_tokens(*stream), word@)),
        r matches Some(rest) ==> weight(stream_tokens(rest)) < weight(stream_tokens(*stream)),
{
    match take_front(stream) {
        Some((Token::Word(text), rest)) => if same(text.as_str(), word) {
            Some(rest)
        } else {
            None
        },
        _ => None,
    }
}

/// What is inside the parentheses at the front, and behind them, where there are any.
pub open spec fn parentheses_read(tokens: Seq<TokenText>) -> Option<(Seq<TokenText>, Seq<TokenText>)> {
    match front(tokens) {
        Some((TokenText::Parentheses(inner), rest)) => Some((inner, rest)),
        _ => None,
    }
}

/// What is inside the braces at the front, and behind them, where there are any.
pub open spec fn braces_read(tokens: Seq<TokenText>) -> Option<(Seq<TokenText>, Seq<TokenText>)> {
    match front(tokens) {
        Some((TokenText::Braces(inner), rest)) => Some((inner, rest)),
        _ => None,
    }
}

/// What is inside the brackets at the front, and behind them, where there are any.
pub open spec fn brackets_read(tokens: Seq<TokenText>) -> Option<(Seq<TokenText>, Seq<TokenText>)> {
    match front(tokens) {
        Some((TokenText::Brackets(inner), rest)) => Some((inner, rest)),
        _ => None,
    }
}

/// Whether these are a stream inside a group and one behind it.
pub open spec fn are_parts(
    r: Option<(TokenStream, TokenStream)>,
    parts: Option<(Seq<TokenText>, Seq<TokenText>)>,
) -> bool {
    match parts {
        Some((inner, rest)) => r matches Some(found) && stream_tokens(found.0) == inner
            && stream_tokens(found.1) == rest,
        None => r is None,
    }
}

fn read_parentheses(stream: &TokenStream) -> (r: Option<(TokenStream, TokenStream)>)
    ensures
        are_parts(r, parentheses_read(stream_tokens(*stream))),
        r matches Some((inner, rest)) ==> weight(stream_tokens(rest)) < weight(
            stream_tokens(*stream),
        ),
{
    match take_front(stream) {
        Some((Token::Parentheses(inner), rest)) => Some((inner, rest)),
        _ => None,
    }
}

fn read_braces(stream: &TokenStream) -> (r: Option<(TokenStream, TokenStream)>)
    ensures
        are_parts(r, braces_read(stream_tokens(*stream))),
        r matches Some((inner, rest)) ==> weight(stream_tokens(rest)) < weight(
            stream_tokens(*stream),
        ),
{
    match take_front(stream) {
        Some((Token::Braces(inner), rest)) => Some((inner, rest)),
        _ => None,
    }
}

fn read_brackets(stream: &TokenStream) -> (r: Option<(TokenStream, TokenStream)>)
    ensures
        are_parts(r, brackets_read(stream_tokens(*stream))),
        r matches Some((inner, rest)) ==> weight(stream_tokens(rest)) < weight(
            stream_tokens(*stream),
        ),
{
    match take_front(stream) {
        Some((Token::Brackets(inner), rest)) => Some((inner, rest)),
        _ => None,
    }
}

/// What is wrong where that is expected at the front.
pub open spec fn missing(tokens: Seq<TokenText>, expected: Expectation) -> FaultText {
    if tokens.len() == 0 {
        FaultText::Ended(expected)
    } else {
        FaultText::Expected(expected)
    }
}

fn missing_fault(stream: &TokenStream, expected: Expectation) -> (r: GrammarFault)
    ensures
        r@ == missing(stream_tokens(*stream), expected),
{
    if is_empty(stream) {
        GrammarFault::Ended(expected)
    } else {
        GrammarFault::Expected(expected)
    }
}

/// Whether the result of reading tokens off a stream shows as that.
pub open spec fn shows_run(
    r: Result<(TokenStream, TokenStream), GrammarFault>,
    expected: Result<(Seq<TokenText>, Seq<TokenText>), FaultText>,
) -> bool {
    match expected {
        Ok((run, rest)) => r matches Ok(found) && stream_tokens(found.0) == run && stream_tokens(
            found.1,
        ) == rest,
        Err(fault) => r matches Err(f) && f@ == fault,
    }
}

/// The expression at the front, and what is behind it.
pub open spec fn expr_read(tokens: Seq<TokenText>) -> Result<
    (Seq<TokenText>, Seq<TokenText>),
    FaultText,
> {
    match expr_front(tokens) {
        Err(message) => Err(FaultText::Part(message)),
        Ok(Some(found)) => Ok(found),
        Ok(None) => Err(FaultText::Part(expr_error(tokens)->0)),
    }
}

fn read_expr(stream: &TokenStream) -> (r: Result<(TokenStream, TokenStream), GrammarFault>)
    ensures
        shows_run(r, expr_read(stream_tokens(*stream))),
        r matches Ok((run, rest)) ==> weight(stream_tokens(rest)) <= weight(
            stream_tokens(*stream),
        ),
{
    match take_expr(stream) {
        Err(message) => Err(GrammarFault::Part(message)),
        Ok(Some(found)) => Ok(found),
        Ok(None) => match check_expr(stream) {
            Some(message) => Err(GrammarFault::Part(message)),
            None => Err(GrammarFault::Expected(Expectation::End)),
        },
    }
}

/// The type at the front, and what is behind it.
pub open spec fn type_read(tokens: Seq<TokenText>) -> Result<
    (Seq<TokenText>, Seq<TokenText>),
    FaultText,
> {
    match type_front(tokens) {
        Err(message) => Err(FaultText::Part(message)),
        Ok(Some(found)) => Ok(found),
        Ok(None) => Err(FaultText::Part(type_error(tokens)->0)),
    }
}

fn read_type(stream: &TokenStream) -> (r: Result<(TokenStream, TokenStream), GrammarFault>)
    ensures
        shows_run(r, type_read(stream_tokens(*stream))),
        r matches Ok((run, rest)) ==> weight(stream_tokens(rest)) <= weight(
            stream_tokens(*stream),
        ),
{
    match take_type(stream) {
        Err(message) => Err(GrammarFault::Part(message)),
        Ok(Some(found)) => Ok(found),
        Ok(None) => match check_type(stream) {
            Some(message) => Err(GrammarFault::Part(message)),
            None => Err(GrammarFault::Expected(Expectation::End)),
        },
    }
}

/// The end of an edge that an identifier names.
pub open spec fn endpoint_of(name: Seq<char>) -> EndpointText {
    if name == "input"@ {
        EndpointText::Input
    } else if name == "output"@ {
        EndpointText::Output
    } else {
        EndpointText::Node(name)
    }
}

fn make_endpoint(name: String) -> (r: Endpoint)
    ensures
        r@ == endpoint_of(name@),
{
    if same(name.as_str(), "input") {
        Endpoint::Input
    } else if same(name.as_str(), "output") {
        Endpoint::Output
    } else {
        Endpoint::Node(name)
    }
}

/// What comes of a list once these items stand before it.
pub open spec fn prepended<T>(items: Seq<T>, rest: Result<Seq<T>, FaultText>) -> Result<
    Seq<T>,
    FaultText,
> {
    match rest {
        Ok(list) => Ok(items + list),
        Err(fault) => Err(fault),
    }
}

/// A comma is missing.
pub open spec fn no_comma() -> FaultText {
    FaultText::Expected(Expectation::Comma)
}

/// A semicolon is missing.
pub open spec fn no_semicolon() -> FaultText {
    FaultText::Expected(Expectation::Semicolon)
}

/// The ends of edges: identifiers with commas between them, and maybe one behind.
pub open spec fn ends_read(tokens: Seq<TokenText>) -> Result<Seq<EndpointText>, FaultText>
    decreases weight(tokens),
{
    if tokens.len() == 0 {
        Ok(Seq::empty())
    } else {
        match ident_read(tokens) {
            Err(fault) => Err(fault),
            Ok((name, rest)) => if rest.len() == 0 {
                Ok(seq![endpoint_of(name)])
            } else {
                match mark_read(rest, ',') {
                    None => Err(no_comma()),
                    Some(next) => if weight(next) < weight(tokens) {
                        prepended(seq![endpoint_of(name)], ends_read(next))
                    } else {
                        Ok(seq![endpoint_of(name)])
                    },
                }
            },
        }
    }
}

fn parse_ends(stream: TokenStream) -> (r: Result<Vec<Endpoint>, GrammarFault>)
    ensures
        match ends_read(stream_tokens(stream)) {
            Ok(list) => r matches Ok(v) && shown_ends(v@) == list,
            Err(fault) => r matches Err(f) && f@ == fault,
        },
{
    let ghost all = ends_read(stream_tokens(stream));
    let mut ends: Vec<Endpoint> = Vec::new();
    let mut left: TokenStream = stream;
    proof {
        if let Ok(list) = all {
            assert(shown_ends(ends@) + list == list);
        }
    }
    while !is_empty(&left)
        invariant
            all == ends_read(stream_tokens(stream)),
            all == prepended(shown_ends(ends@), ends_read(stream_tokens(left))),
        decreases weight(stream_tokens(left)),
    {
        let (name, rest): (String, TokenStream) = match read_ident(&left) {
            Ok(found) => found,
            Err(fault) => {
                return Err(fault);
            },
        };
        let ghost before = shown_ends(ends@);
        let end: Endpoint = make_endpoint(name);
        let ghost item = end@;
        ends.push(end);
        assert(shown_ends(ends@) == before.push(item));
        if is_empty(&rest) {
            assert(before + seq![item] == before.push(item));
            return Ok(ends);
        }
        let next: TokenStream = match read_mark(&rest, ',') {
            Some(next) => next,
            None => {
                return Err(GrammarFault::Expected(Expectation::Comma));
            },
        };
        proof {
            if let Ok(list) = ends_read(stream_tokens(next)) {
                assert(before + (seq![item] + list) == before.push(item) + list);
            }
        }
        left = next;
    }
    assert(shown_ends(ends@) + Seq::<EndpointText>::empty() == shown_ends(ends@));
    Ok(ends)
}

/// The ends of edges at the front, in brackets or one alone, and what is behind them.
pub open spec fn end_list(tokens: Seq<TokenText>) -> Result<
    (Seq<EndpointText>, Seq<TokenText>),
    FaultText,
> {
    match brackets_read(tokens) {
        Some((inner, rest)) => match ends_read(inner) {
            Ok(list) => Ok((list, rest)),
            Err(fault) => Err(fault),
        },
        None => match ident_read(tokens) {
            Ok((name, rest)) => Ok((seq![endpoint_of(name)], rest)),
            Err(fault) => Err(fault),
        },
    }
}

fn parse_end_list(stream: &TokenStream) -> (r: Result<(Vec<Endpoint>, TokenStream), GrammarFault>)
    ensures
        match end_list(stream_tokens(*stream)) {
            Ok((list, rest)) => r matches Ok(v) && shown_ends(v.0@) == list && stream_tokens(v.1)
                == rest && weight(rest) <= weight(stream_tokens(*stream)),
            Err(fault) => r matches Err(f) && f@ == fault,
        },
{
    if let Some((inner, rest)) = read_brackets(stream) {
        return match parse_ends(inner) {
            Ok(ends) => Ok((ends, rest)),
            Err(fault) => Err(fault),
        };
    }
    match read_ident(stream) {
        Ok((name, rest)) => {
            let end: Endpoint = make_endpoint(name);
            let mut ends: Vec<Endpoint> = Vec::new();
            let ghost item = end@;
            ends.push(end);
            assert(shown_ends(ends@) == seq![item]);
            Ok((ends, rest))
        },
        Err(fault) => Err(fault),
    }
}

/// The edge at the front, and what is behind it.
pub open spec fn edge_read(tokens: Seq<TokenText>) -> Result<(EdgeText, Seq<TokenText>), FaultText> {
    match end_list(tokens) {
        Err(fault) => Err(fault),
        Ok((from, rest)) => match arrow_read(rest) {
            None => Err(FaultText::Expected(Expectation::Arrow)),
            Some(behind) => match end_list(behind) {
                Err(fault) => Err(fault),
                Ok((to, left)) => Ok((EdgeText { from, to }, left)),
            },
        },
    }
}

fn parse_edge(stream: &TokenStream) -> (r: Result<(Edge, TokenStream), GrammarFault>)
    ensures
        shows_read(r, edge_read(stream_tokens(*stream))),
        r matches Ok((edge, rest)) ==> weight(stream_tokens(rest)) < weight(
            stream_tokens(*stream),
        ),
{
    let (from, rest): (Vec<Endpoint>, TokenStream) = match parse_end_list(stream) {
        Ok(found) => found,
        Err(fault) => {
            return Err(fault);
        },
    };
    let behind: TokenStream = match read_arrow(&rest) {
        Some(behind) => behind,
        None => {
            return Err(GrammarFault::Expected(Expectation::Arrow));
        },
    };
    match parse_end_list(&behind) {
        Ok((to, left)) => Ok((Edge { from, to }, left)),
        Err(fault) => Err(fault),
    }
}

/// Edges with semicolons between them, and maybe one behind.
pub open spec fn edges_read(tokens: Seq<TokenText>) -> Result<Seq<EdgeText>, FaultText>
    decreases weight(tokens),
{
    if tokens.len() == 0 {
        Ok(Seq::empty())
    } else {
        match edge_read(tokens) {
            Err(fault) => Err(fault),
            Ok((edge, rest)) => if rest.len() == 0 {
                Ok(seq![edge])
            } else {
                match mark_read(rest, ';') {
                    None => Err(no_semicolon()),
                    Some(next) => if weight(next) < weight(tokens) {
                        prepended(seq![edge], edges_read(next))
                    } else {
                        Ok(seq![edge])
                    },
                }
            },
        }
    }
}

fn parse_edges(stream: TokenStream) -> (r: Result<Vec<Edge>, GrammarFault>)
    ensures
        match edges_read(stream_tokens(stream)) {
            Ok(list) => r matches Ok(v) && shown_edges(v@) == list,
            Err(fault) => r matches Err(f) && f@ == fault,
        },
{
    let ghost all = edges_read(stream_tokens(stream));
    let mut edges: Vec<Edge> = Vec::new();
    let mut left: TokenStream = stream;
    proof {
        if let Ok(list) = all {
            assert(shown_edges(edges@) + list == list);
        }
    }
    while !is_empty(&left)
        invariant
            all == edges_read(stream_tokens(stream)),
            all == prepended(shown_edges(edges@), edges_read(stream_tokens(left))),
        decreases weight(stream_tokens(left)),
    {
        let (edge, rest): (Edge, TokenStream) = match parse_edge(&left) {
            Ok(found) => found,
            Err(fault) => {
                return Err(fault);
            },
        };
        let ghost before = shown_edges(edges@);
        let ghost item = edge@;
        edges.push(edge);
        assert(shown_edges(edges@) == before.push(item));
        if is_empty(&rest) {
            assert(before + seq![item] == before.push(item));
            return Ok(edges);
        }
        let next: TokenStream = match read_mark(&rest, ';') {
            Some(next) => next,
            None => {
                return Err(GrammarFault::Expected(Expectation::Semicolon));
            },
        };
        proof {
            if let Ok(list) = edges_read(stream_tokens(next)) {
                assert(before + (seq![item] + list) == before.push(item) + list);
            }
        }
        left = next;
    }
    assert(shown_edges(edges@) + Seq::<EdgeText>::empty() == shown_edges(edges@));
    Ok(edges)
}

/// Expressions with commas between them, and maybe one behind.
pub open spec fn exprs_read(tokens: Seq<TokenText>) -> Result<Seq<Seq<TokenText>>, FaultText>
    decreases weight(tokens),
{
    if tokens.len() == 0 {
        Ok(Seq::empty())
    } else {
        match expr_read(tokens) {
            Err(fault) => Err(fault),
            Ok((expr, rest)) => if rest.len() == 0 {
                Ok(seq![expr])
            } else {
                match mark_read(rest, ',') {
                    None => Err(no_comma()),
                    Some(next) => if weight(next) < weight(tokens) {
                        prepended(seq![expr], exprs_read(next))
                    } else {
                        Ok(seq![expr])
                    },
                }
            },
        }
    }
}

fn parse_exprs(stream: TokenStream) -> (r: Result<Vec<TokenStream>, GrammarFault>)
    ensures
        match exprs_read(stream_tokens(stream)) {
            Ok(list) => r matches Ok(v) && shown_streams(v@) == list,
            Err(fault) => r matches Err(f) && f@ == fault,
        },
{
    let ghost all = exprs_read(stream_tokens(stream));
    let mut runs: Vec<TokenStream> = Vec::new();
    let mut left: TokenStream = stream;
    proof {
        if let Ok(list) = all {
            assert(shown_streams(runs@) + list == list);
        }
    }
    while !is_empty(&left)
        invariant
            all == exprs_read(stream_tokens(stream)),
            all == prepended(shown_streams(runs@), exprs_read(stream_tokens(left))),
        decreases weight(stream_tokens(left)),
    {
        let (run, rest): (TokenStream, TokenStream) = match read_expr(&left) {
            Ok(found) => found,
            Err(fault) => {
                return Err(fault);
            },
        };
        let ghost before = shown_streams(runs@);
        let ghost item = stream_tokens(run);
        runs.push(run);
        assert(shown_streams(runs@) == before.push(item));
        if is_empty(&rest) {
            assert(before + seq![item] == before.push(item));
            return Ok(runs);
        }
        let next: TokenStream = match read_mark(&rest, ',') {
            Some(next) => next,
            None => {
                return Err(GrammarFault::Expected(Expectation::Comma));
            },
        };
        proof {
            if let Ok(list) = exprs_read(stream_tokens(next)) {
                assert(before + (seq![item] + list) == before.push(item) + list);
            }
        }
        left = next;
    }
    assert(shown_streams(runs@) + Seq::<Seq<TokenText>>::empty() == shown_streams(runs@));
    Ok(runs)
}

/// Two types with a comma between them, and nothing more.
pub open spec fn type_pair(tokens: Seq<TokenText>) -> Result<
    (Seq<TokenText>, Seq<TokenText>),
    FaultText,
> {
    match type_read(tokens) {
        Err(fault) => Err(fault),
        Ok((first, rest)) => match mark_read(rest, ',') {
            None => Err(no_comma()),
            Some(behind) => match type_read(behind) {
                Err(fault) => Err(fault),
                Ok((second, left)) => if left.len() > 0 {
                    Err(FaultText::ExternalTypes)
                } else {
                    Ok((first, second))
                },
            },
        },
    }
}

fn parse_type_pair(stream: &TokenStream) -> (r: Result<(TokenStream, TokenStream), GrammarFault>)
    ensures
        shows_run(r, type_pair(stream_tokens(*stream))),
{
    let (first, rest): (TokenStream, TokenStream) = match read_type(stream) {
        Ok(found) => found,
        Err(fault) => {
            return Err(fault);
        },
    };
    let behind: TokenStream = match read_mark(&rest, ',') {
        Some(behind) => behind,
        None => {
            return Err(GrammarFault::Expected(Expectation::Comma));
        },
    };
    match read_type(&behind) {
        Err(fault) => Err(fault),
        Ok((second, left)) => if is_empty(&left) {
            Ok((first, second))
        } else {
            Err(GrammarFault::ExternalTypes)
        },
    }
}

/// An expression, maybe with a comma behind it, and nothing more.
pub open spec fn lone_expr(tokens: Seq<TokenText>) -> Result<Seq<TokenText>, FaultText> {
    match expr_read(tokens) {
        Err(fault) => Err(fault),
        Ok((expr, rest)) => {
            let left = match mark_read(rest, ',') {
                Some(behind) => behind,
                None => rest,
            };
            if left.len() > 0 {
                Err(FaultText::ReusableTokens)
            } else {
                Ok(expr)
            }
        },
    }
}

fn parse_lone_expr(stream: &TokenStream) -> (r: Result<TokenStream, GrammarFault>)
    ensures
        match lone_expr(stream_tokens(*stream)) {
            Ok(expr) => r matches Ok(v) && stream_tokens(v) == expr,
            Err(fault) => r matches Err(f) && f@ == fault,
        },
{
    let (expr, rest): (TokenStream, TokenStream) = match read_expr(stream) {
        Ok(found) => found,
        Err(fault) => {
            return Err(fault);
        },
    };
    let left: TokenStream = match read_mark(&rest, ',') {
        Some(behind) => behind,
        None => rest,
    };
    if is_empty(&left) {
        Ok(expr)
    } else {
        Err(GrammarFault::ReusableTokens)
    }
}

/// The factory that stands in a chain at the front, if there is one, and what is behind it.
pub open spec fn factory_read(tokens: Seq<TokenText>) -> Result<
    (Option<Seq<TokenText>>, Seq<TokenText>),
    FaultText,
> {
    match mark_read(tokens, '.') {
        None => Ok((None, tokens)),
        Some(behind) => match ident_read(behind) {
            Err(fault) => Err(fault),
            Ok((method, call)) => if method != "with_reusable_output"@ {
                Err(FaultText::ExternalMethod)
            } else {
                match parentheses_read(call) {
                    None => Err(missing(call, Expectation::Parentheses)),
                    Some((inner, left)) => match lone_expr(inner) {
                        Err(fault) => Err(fault),
                        Ok(factory) => if mark_read(left, '.') is Some {
                            Err(FaultText::ReusableTwice)
                        } else {
                            Ok((Some(factory), left))
                        },
                    },
                }
            },
        },
    }
}

fn parse_factory(stream: TokenStream) -> (r: Result<(Option<TokenStream>, TokenStream), GrammarFault>)
    ensures
        match factory_read(stream_tokens(stream)) {
            Ok((factory, rest)) => r matches Ok(v) && shown_run(v.0) == factory && stream_tokens(v.1)
                == rest && weight(rest) <= weight(stream_tokens(stream)),
            Err(fault) => r matches Err(f) && f@ == fault,
        },
{
    let behind: TokenStream = match read_mark(&stream, '.') {
        Some(behind) => behind,
        None => {
            return Ok((None, stream));
        },
    };
    let (method, call): (String, TokenStream) = match read_ident(&behind) {
        Ok(found) => found,
        Err(fault) => {
            return Err(fault);
        },
    };
    if !same(method.as_str(), "with_reusable_output") {
        return Err(GrammarFault::ExternalMethod);
    }
    let (inner, left): (TokenStream, TokenStream) = match read_parentheses(&call) {
        Some(found) => found,
        None => {
            return Err(missing_fault(&call, Expectation::Parentheses));
        },
    };
    match parse_lone_expr(&inner) {
        Err(fault) => Err(fault),
        Ok(factory) => if read_mark(&left, '.').is_some() {
            Err(GrammarFault::ReusableTwice)
        } else {
            Ok((Some(factory), left))
        },
    }
}

/// What is inside the parentheses of a node that is run from outside, and behind them, where one stands
/// at the front.
pub open spec fn external_read(tokens: Seq<TokenText>) -> Option<(Seq<TokenText>, Seq<TokenText>)> {
    match word_read(tokens, "external_node"@) {
        Some(rest) => parentheses_read(rest),
        None => None,
    }
}

fn read_external(stream: &TokenStream) -> (r: Option<(TokenStream, TokenStream)>)
    ensures
        are_parts(r, external_read(stream_tokens(*stream))),
        r matches Some((inner, rest)) ==> weight(stream_tokens(rest)) < weight(
            stream_tokens(*stream),
        ),
{
    match read_word(stream, "external_node") {
        Some(rest) => read_parentheses(&rest),
        None => None,
    }
}

/// The kind of node at the front, and what is behind it.
pub open spec fn kind_read(tokens: Seq<TokenText>) -> Result<(NodeKindText, Seq<TokenText>), FaultText> {
    match external_read(tokens) {
        Some((inner, rest)) => match type_pair(inner) {
            Err(fault) => Err(fault),
            Ok((input, output)) => match factory_read(rest) {
                Err(fault) => Err(fault),
                Ok((reusable_factory, left)) => Ok(
                    (NodeKindText::External { input, output, reusable_factory }, left),
                ),
            },
        },
        None => match expr_read(tokens) {
            Err(fault) => Err(fault),
            Ok((expr, rest)) => Ok((NodeKindText::Managed(expr), rest)),
        },
    }
}

/// The named node at the front, and what is behind it.
pub open spec fn node_read(tokens: Seq<TokenText>) -> Result<(NodeText, Seq<TokenText>), FaultText> {
    match ident_read(tokens) {
        Err(fault) => Err(fault),
        Ok((name, rest)) => match mark_read(rest, '=') {
            None => Err(FaultText::Expected(Expectation::Equals)),
            Some(behind) => match kind_read(behind) {
                Err(fault) => Err(fault),
                Ok((kind, left)) => Ok((NodeText { name, kind }, left)),
            },
        },
    }
}

fn parse_kind(stream: &TokenStream) -> (r: Result<(NamedNodeKind, TokenStream), GrammarFault>)
    ensures
        shows_read(r, kind_read(stream_tokens(*stream))),
        r matches Ok((kind, rest)) ==> weight(stream_tokens(rest)) <= weight(
            stream_tokens(*stream),
        ),
{
    let (inner, rest): (TokenStream, TokenStream) = match read_external(stream) {
        Some(found) => found,
        None => {
            return match read_expr(stream) {
                Ok((expr, rest)) => Ok((NamedNodeKind::Managed(expr), rest)),
                Err(fault) => Err(fault),
            };
        },
    };
    let (input, output): (TokenStream, TokenStream) = match parse_type_pair(&inner) {
        Ok(pair) => pair,
        Err(fault) => {
            return Err(fault);
        },
    };
    match parse_factory(rest) {
        Ok((reusable_factory, left)) => Ok(
            (NamedNodeKind::External { input, output, reusable_factory }, left),
        ),
        Err(fault) => Err(fault),
    }
}

fn parse_named_node(stream: &TokenStream) -> (r: Result<(NamedNode, TokenStream), GrammarFault>)
    ensures
        shows_read(r, node_read(stream_tokens(*stream))),
        r matches Ok((node, rest)) ==> weight(stream_tokens(rest)) < weight(
            stream_tokens(*stream),
        ),
{
    let (name, rest): (String, TokenStream) = match read_ident(stream) {
        Ok(found) => found,
        Err(fault) => {
            return Err(fault);
        },
    };
    let behind: TokenStream = match read_mark(&rest, '=') {
        Some(behind) => behind,
        None => {
            return Err(GrammarFault::Expected(Expectation::Equals));
        },
    };
    match parse_kind(&behind) {
        Ok((kind, left)) => Ok((NamedNode { name, kind }, left)),
        Err(fault) => Err(fault),
    }
}

/// Named nodes with commas between them, and maybe one behind.
pub open spec fn nodes_read(tokens: Seq<TokenText>) -> Result<Seq<NodeText>, FaultText>
    decreases weight(tokens),
{
    if tokens.len() == 0 {
        Ok(Seq::empty())
    } else {
        match node_read(tokens) {
            Err(fault) => Err(fault),
            Ok((node, rest)) => if rest.len() == 0 {
                Ok(seq![node])
            } else {
                match mark_read(rest, ',') {
                    None => Err(no_comma()),
                    Some(next) => if weight(next) < weight(tokens) {
                        prepended(seq![node], nodes_read(next))
                    } else {
                        Ok(seq![node])
                    },
                }
            },
        }
    }
}

fn parse_named_nodes(stream: TokenStream) -> (r: Result<Vec<NamedNode>, GrammarFault>)
    ensures
        match nodes_read(stream_tokens(stream)) {
            Ok(list) => r matches Ok(v) && shown_nodes(v@) == list,
            Err(fault) => r matches Err(f) && f@ == fault,
        },
{
    let ghost all = nodes_read(stream_tokens(stream));
    let mut nodes: Vec<NamedNode> = Vec::new();
    let mut left: TokenStream = stream;
    proof {
        if let Ok(list) = all {
            assert(shown_nodes(nodes@) + list == list);
        }
    }
    while !is_empty(&left)
        invariant
            all == nodes_read(stream_tokens(stream)),
            all == prepended(shown_nodes(nodes@), nodes_read(stream_tokens(left))),
        decreases weight(stream_tokens(left)),
    {
        let (node, rest): (NamedNode, TokenStream) = match parse_named_node(&left) {
            Ok(found) => found,
            Err(fault) => {
                return Err(fault);
            },
        };
        let ghost before = shown_nodes(nodes@);
        let ghost item = node@;
        nodes.push(node);
        assert(shown_nodes(nodes@) == before.push(item));
        if is_empty(&rest) {
            assert(before + seq![item] == before.push(item));
            return Ok(nodes);
        }
        let next: TokenStream = match read_mark(&rest, ',') {
            Some(next) => next,
            None => {
                return Err(GrammarFault::Expected(Expectation::Comma));
            },
        };
        proof {
            if let Ok(list) = nodes_read(stream_tokens(next)) {
                assert(before + (seq![item] + list) == before.push(item) + list);
            }
        }
        left = next;
    }
    assert(shown_nodes(nodes@) + Seq::<NodeText>::empty() == shown_nodes(nodes@));
    Ok(nodes)
}

/// What the fields of a declaration say so far.
pub struct Fields {
    pub input: Option<TokenStream>,
    pub output: Option<TokenStream>,
    pub error: Option<TokenStream>,
    pub config: Option<TokenStream>,
    pub nodes: Option<NodeDecls>,
    pub graph: Option<Vec<Edge>>,
    pub return_state: Option<TokenStream>,
}

/// What the fields of a declaration say so far, as texts.
pub struct FieldsText {
    pub input: Option<Seq<TokenText>>,
    pub output: Option<Seq<TokenText>>,
    pub error: Option<Seq<TokenText>>,
    pub config: Option<Seq<TokenText>>,
    pub nodes: Option<DeclsText>,
    pub graph: Option<Seq<EdgeText>>,
    pub return_state: Option<Seq<TokenText>>,
}

/// A run of tokens, where there is one, as texts.
pub open spec fn shown_run(run: Option<TokenStream>) -> Option<Seq<TokenText>> {
    match run {
        Some(run) => Some(stream_tokens(run)),
        None => None,
    }
}

impl View for Fields {
    type V = FieldsText;

    open spec fn view(&self) -> FieldsText {
        FieldsText {
            input: shown_run(self.input),
            output: shown_run(self.output),
            error: shown_run(self.error),
            config: shown_run(self.config),
            nodes: match self.nodes {
                Some(nodes) => Some(nodes@),
                None => None,
            },
            graph: match self.graph {
                Some(edges) => Some(shown_edges(edges@)),
                None => None,
            },
            return_state: shown_run(self.return_state),
        }
    }
}

/// The fields once the type is read whose key is at the front, and what is behind it.
pub open spec fn type_field(tokens: Seq<TokenText>, fields: FieldsText) -> Result<
    (FieldsText, Seq<TokenText>),
    FaultText,
> {
    match ident_read(tokens) {
        Err(fault) => Err(fault),
        Ok((key, rest)) => match mark_read(rest, '=') {
            None => Err(FaultText::Expected(Expectation::Equals)),
            Some(behind) => match type_read(behind) {
                Err(fault) => Err(fault),
                Ok((value, left)) => match mark_read(left, ';') {
                    None => Err(no_semicolon()),
                    Some(next) => if key == "Input"@ {
                        Ok((FieldsText { input: Some(value), ..fields }, next))
                    } else if key == "Output"@ {
                        Ok((FieldsText { output: Some(value), ..fields }, next))
                    } else if key == "Error"@ {
                        Ok((FieldsText { error: Some(value), ..fields }, next))
                    } else {
                        Err(FaultText::TypeKey)
                    },
                },
            },
        },
    }
}

/// The nodes at the front: expressions in brackets, or named nodes in braces; and what is behind them.
pub open spec fn decls_read(tokens: Seq<TokenText>) -> Result<(DeclsText, Seq<TokenText>), FaultText> {
    match brackets_read(tokens) {
        Some((inner, rest)) => match exprs_read(inner) {
            Ok(list) => Ok((DeclsText::Linear(list), rest)),
            Err(fault) => Err(fault),
        },
        None => match braces_read(tokens) {
            Some((inner, rest)) => match nodes_read(inner) {
                Ok(list) => Ok((DeclsText::Named(list), rest)),
                Err(fault) => Err(fault),
            },
            None => Err(missing(tokens, Expectation::Braces)),
        },
    }
}

/// The edges in braces at the front, and what is behind them.
pub open spec fn graph_read(tokens: Seq<TokenText>) -> Result<
    (Seq<EdgeText>, Seq<TokenText>),
    FaultText,
> {
    match braces_read(tokens) {
        Some((inner, rest)) => match edges_read(inner) {
            Ok(list) => Ok((list, rest)),
            Err(fault) => Err(fault),
        },
        None => Err(missing(tokens, Expectation::Braces)),
    }
}

/// The fields once that of the key is read whose value is at the front, and what is behind it but for the
/// semicolon.
pub open spec fn value_read(tokens: Seq<TokenText>, key: Seq<char>, fields: FieldsText) -> Result<
    (FieldsText, Seq<TokenText>),
    FaultText,
> {
    if key == "config"@ {
        match expr_read(tokens) {
            Err(fault) => Err(fault),
            Ok((config, rest)) => Ok((FieldsText { config: Some(config), ..fields }, rest)),
        }
    } else if key == "nodes"@ {
        match decls_read(tokens) {
            Err(fault) => Err(fault),
            Ok((nodes, rest)) => Ok((FieldsText { nodes: Some(nodes), ..fields }, rest)),
        }
    } else if key == "graph"@ {
        match graph_read(tokens) {
            Err(fault) => Err(fault),
            Ok((edges, rest)) => Ok((FieldsText { graph: Some(edges), ..fields }, rest)),
        }
    } else if key == "return_state"@ {
        match type_read(tokens) {
            Err(fault) => Err(fault),
            Ok((state, rest)) => Ok((FieldsText { return_state: Some(state), ..fields }, rest)),
        }
    } else {
        Err(FaultText::FieldKey)
    }
}

/// The fields once that at the front is read, and what is behind it.
pub open spec fn field_read(tokens: Seq<TokenText>, fields: FieldsText) -> Result<
    (FieldsText, Seq<TokenText>),
    FaultText,
> {
    match word_read(tokens, "type"@) {
        Some(rest) => type_field(rest, fields),
        None => match ident_read(tokens) {
            Err(fault) => Err(fault),
            Ok((key, rest)) => match mark_read(rest, '=') {
                None => Err(FaultText::Expected(Expectation::Equals)),
                Some(behind) => match value_read(behind, key, fields) {
                    Err(fault) => Err(fault),
                    Ok((more, left)) => match mark_read(left, ';') {
                        None => Err(no_semicolon()),
                        Some(next) => Ok((more, next)),
                    },
                },
            },
        },
    }
}

/// The fields once all are read. A later field of the same key takes the place of an earlier one.
pub open spec fn fields_read(tokens: Seq<TokenText>, fields: FieldsText) -> Result<
    FieldsText,
    FaultText,
>
    decreases weight(tokens),
{
    if tokens.len() == 0 {
        Ok(fields)
    } else {
        match field_read(tokens, fields) {
            Err(fault) => Err(fault),
            Ok((more, next)) => if weight(next) < weight(tokens) {
                fields_read(next, more)
            } else {
                Ok(more)
            },
        }
    }
}

/// Whether the result of reading a field shows as that.
pub open spec fn shows_field(
    r: Result<TokenStream, GrammarFault>,
    fields: Fields,
    expected: Result<(FieldsText, Seq<TokenText>), FaultText>,
) -> bool {
    match expected {
        Ok((text, rest)) => r matches Ok(left) && stream_tokens(left) == rest && fields@ == text,
        Err(fault) => r matches Err(f) && f@ == fault,
    }
}

fn parse_type_field(stream: &TokenStream, fields: &mut Fields) -> (r: Result<TokenStream, GrammarFault>)
    ensures
        shows_field(r, *final(fields), type_field(stream_tokens(*stream), old(fields)@)),
        r matches Ok(next) ==> weight(stream_tokens(next)) < weight(stream_tokens(*stream)),
{
    let (key, rest): (String, TokenStream) = match read_ident(stream) {
        Ok(found) => found,
        Err(fault) => {
            return Err(fault);
        },
    };
    let behind: TokenStream = match read_mark(&rest, '=') {
        Some(behind) => behind,
        None => {
            return Err(GrammarFault::Expected(Expectation::Equals));
        },
    };
    let (value, left): (TokenStream, TokenStream) = match read_type(&behind) {
        Ok(found) => found,
        Err(fault) => {
            return Err(fault);
        },
    };
    let next: TokenStream = match read_mark(&left, ';') {
        Some(next) => next,
        None => {
            return Err(GrammarFault::Expected(Expectation::Semicolon));
        },
    };
    if same(key.as_str(), "Input") {
        fields.input = Some(value);
    } else if same(key.as_str(), "Output") {
        fields.output = Some(value);
    } else if same(key.as_str(), "Error") {
        fields.error = Some(value);
    } else {
        return Err(GrammarFault::TypeKey);
    }
    Ok(next)
}

fn parse_decls(stream: &TokenStream) -> (r: Result<(NodeDecls, TokenStream), GrammarFault>)
    ensures
        shows_read(r, decls_read(stream_tokens(*stream))),
        r matches Ok((nodes, rest)) ==> weight(stream_tokens(rest)) <= weight(
            stream_tokens(*stream),
        ),
{
    if let Some((inner, rest)) = read_brackets(stream) {
        return match parse_exprs(inner) {
            Ok(runs) => Ok((NodeDecls::Linear(runs), rest)),
            Err(fault) => Err(fault),
        };
    }
    match read_braces(stream) {
        Some((inner, rest)) => match parse_named_nodes(inner) {
            Ok(nodes) => Ok((NodeDecls::Named(nodes), rest)),
            Err(fault) => Err(fault),
        },
        None => Err(missing_fault(stream, Expectation::Braces)),
    }
}

fn parse_graph(stream: &TokenStream) -> (r: Result<(Vec<Edge>, TokenStream), GrammarFault>)
    ensures
        match graph_read(stream_tokens(*stream)) {
            Ok((list, rest)) => r matches Ok(v) && shown_edges(v.0@) == list && stream_tokens(v.1)
                == rest && weight(rest) <= weight(stream_tokens(*stream)),
            Err(fault) => r matches Err(f) && f@ == fault,
        },
{
    match read_braces(stream) {
        Some((inner, rest)) => match parse_edges(inner) {
            Ok(edges) => Ok((edges, rest)),
            Err(fault) => Err(fault),
        },
        None => Err(missing_fault(stream, Expectation::Braces)),
    }
}

fn parse_value(stream: &TokenStream, key: &str, fields: &mut Fields) -> (r: Result<
    TokenStream,
    GrammarFault,
>)
    ensures
        shows_field(r, *final(fields), value_read(stream_tokens(*stream), key@, old(fields)@)),
        r matches Ok(rest) ==> weight(stream_tokens(rest)) <= weight(stream_tokens(*stream)),
{
    if same(key, "config") {
        match read_expr(stream) {
            Ok((config, rest)) => {
                fields.config = Some(config);
                Ok(rest)
            },
            Err(fault) => Err(fault),
        }
    } else if same(key, "nodes") {
        match parse_decls(stream) {
            Ok((nodes, rest)) => {
                fields.nodes = Some(nodes);
                Ok(rest)
            },
            Err(fault) => Err(fault),
        }
    } else if same(key, "graph") {
        match parse_graph(stream) {
            Ok((edges, rest)) => {
                fields.graph = Some(edges);
                Ok(rest)
            },
            Err(fault) => Err(fault),
        }
    } else if same(key, "return_state") {
        match read_type(stream) {
            Ok((state, rest)) => {
                fields.return_state = Some(state);
                Ok(rest)
            },
            Err(fault) => Err(fault),
        }
    } else {
        Err(GrammarFault::FieldKey)
    }
}

fn parse_field(stream: &TokenStream, fields: &mut Fields) -> (r: Result<TokenStream, GrammarFault>)
    ensures
        shows_field(r, *final(fields), field_read(stream_tokens(*stream), old(fields)@)),
        r matches Ok(next) ==> weight(stream_tokens(next)) < weight(stream_tokens(*stream)),
{
    if let Some(rest) = read_word(stream, "type") {
        return parse_type_field(&rest, fields);
    }
    let (key, rest): (String, TokenStream) = match read_ident(stream) {
        Ok(found) => found,
        Err(fault) => {
            return Err(fault);
        },
    };
    let behind: TokenStream = match read_mark(&rest, '=') {
        Some(behind) => behind,
        None => {
            return Err(GrammarFault::Expected(Expectation::Equals));
        },
    };
    match parse_value(&behind, key.as_str(), fields) {
        Err(fault) => Err(fault),
        Ok(left) => match read_mark(&left, ';') {
            Some(next) => Ok(next),
            None => Err(GrammarFault::Expected(Expectation::Semicolon)),
        },
    }
}

fn parse_fields(stream: TokenStream) -> (r: Result<Fields, GrammarFault>)
    ensures
        shows(r, fields_read(stream_tokens(stream), no_fields())),
{
    let ghost all = fields_read(stream_tokens(stream), no_fields());
    let mut fields: Fields = Fields {
        input: None,
        output: None,
        error: None,
        config: None,
        nodes: None,
        graph: None,
        return_state: None,
    };
    let mut left: TokenStream = stream;
    while !is_empty(&left)
        invariant
            all == fields_read(stream_tokens(stream), no_fields()),
            all == fields_read(stream_tokens(left), fields@),
        decreases weight(stream_tokens(left)),
    {
        match parse_field(&left, &mut fields) {
            Ok(next) => {
                left = next;
            },
            Err(fault) => {
                return Err(fault);
            },
        }
    }
    Ok(fields)
}

/// No field is read yet.
pub open spec fn no_fields() -> FieldsText {
    FieldsText {
        input: None,
        output: None,
        error: None,
        config: None,
        nodes: None,
        graph: None,
        return_state: None,
    }
}

/// The declaration of a pipeline.
#[derive(Debug)]
pub struct PipelineInput {
    pub vis: TokenStream,
    pub name: String,
    pub input: TokenStream,
    pub output: TokenStream,
    pub error: TokenStream,
    pub config: TokenStream,
    pub nodes: NodeDecls,
    pub graph: Option<Vec<Edge>>,
    pub return_state: Option<TokenStream>,
}

/// The declaration of a pipeline, as texts.
pub struct PipelineText {
    pub vis: Seq<TokenText>,
    pub name: Seq<char>,
    pub input: Seq<TokenText>,
    pub output: Seq<TokenText>,
    pub error: Seq<TokenText>,
    pub config: Seq<TokenText>,
    pub nodes: DeclsText,
    pub graph: Option<Seq<EdgeText>>,
    pub return_state: Option<Seq<TokenText>>,
}

impl View for PipelineInput {
    type V = PipelineText;

    open spec fn view(&self) -> PipelineText {
        PipelineText {
            vis: stream_tokens(self.vis),
            name: self.name@,
            input: stream_tokens(self.input),
            output: stream_tokens(self.output),
            error: stream_tokens(self.error),
            config: stream_tokens(self.config),
            nodes: self.nodes@,
            graph: match self.graph {
                Some(edges) => Some(shown_edges(edges@)),
                None => None,
            },
            return_state: shown_run(self.return_state),
        }
    }
}

/// A declaration with these fields. Five of them must be there.
pub open spec fn completed(
    vis: Seq<TokenText>,
    name: Seq<char>,
    fields: FieldsText,
) -> Result<PipelineText, FaultText> {
    if fields.input is None {
        Err(FaultText::MissingInput)
    } else if fields.output is None {
        Err(FaultText::MissingOutput)
    } else if fields.error is None {
        Err(FaultText::MissingError)
    } else if fields.config is None {
        Err(FaultText::MissingConfig)
    } else if fields.nodes is None {
        Err(FaultText::MissingNodes)
    } else {
        Ok(
            PipelineText {
                vis,
                name,
                input: fields.input->0,
                output: fields.output->0,
                error: fields.error->0,
                config: fields.config->0,
                nodes: fields.nodes->0,
                graph: fields.graph,
                return_state: fields.return_state,
            },
        )
    }
}

/// A declaration with these fields, or the first of the five that is missing.
pub fn complete(vis: TokenStream, name: String, fields: Fields) -> (r: Result<PipelineInput, GrammarFault>)
    ensures
        shows(r, completed(stream_tokens(vis), name@, fields@)),
{
    let input: TokenStream = match fields.input {
        Some(input) => input,
        None => {
            return Err(GrammarFault::MissingInput);
        },
    };
    let output: TokenStream = match fields.output {
        Some(output) => output,
        None => {
            return Err(GrammarFault::MissingOutput);
        },
    };
    let error: TokenStream = match fields.error {
        Some(error) => error,
        None => {
            return Err(GrammarFault::MissingError);
        },
    };
    let config: TokenStream = match fields.config {
        Some(config) => config,
        None => {
            return Err(GrammarFault::MissingConfig);
        },
    };
    let nodes: NodeDecls = match fields.nodes {
        Some(nodes) => nodes,
        None => {
            return Err(GrammarFault::MissingNodes);
        },
    };
    Ok(
        PipelineInput {
            vis,
            name,
            input,
            output,
            error,
            config,
            nodes,
            graph: fields.graph,
            return_state: fields.return_state,
        },
    )
}

/// The visibility at the front, which may be none, and what is behind it; both are nothing where there are
/// no tokens.
pub open spec fn visibility_read(tokens: Seq<TokenText>) -> Result<
    (Seq<TokenText>, Seq<TokenText>),
    FaultText,
> {
    match visibility_front(tokens) {
        Err(message) => Err(FaultText::Part(message)),
        Ok(Some(found)) => Ok(found),
        Ok(None) => Ok((tokens, tokens)),
    }
}

/// The declaration that these tokens are: a visibility, the word `struct`, a name, and the fields in
/// braces, and nothing more but groups in which nothing is.
pub open spec fn pipeline_of(tokens: Seq<TokenText>) -> Result<PipelineText, FaultText> {
    match visibility_read(tokens) {
        Err(fault) => Err(fault),
        Ok((vis, item)) => match word_read(item, "struct"@) {
            None => Err(missing(item, Expectation::Struct)),
            Some(named) => match ident_read(named) {
                Err(fault) => Err(fault),
                Ok((name, body)) => match braces_read(body) {
                    None => Err(missing(body, Expectation::Braces)),
                    Some((inner, rest)) => match fields_read(inner, no_fields()) {
                        Err(fault) => Err(fault),
                        Ok(fields) => match completed(vis, name, fields) {
                            Err(fault) => Err(fault),
                            Ok(pipeline) => if front(rest) is Some {
                                Err(FaultText::Expected(Expectation::End))
                            } else {
                                Ok(pipeline)
                            },
                        },
                    },
                },
            },
        },
    }
}

/// Reads the declaration of a pipeline.
pub fn parse_pipeline(stream: &TokenStream) -> (r: Result<PipelineInput, GrammarFault>)
    ensures
        shows(r, pipeline_of(stream_tokens(*stream))),
{
    let (vis, item): (TokenStream, TokenStream) = match take_visibility(stream) {
        Err(message) => {
            return Err(GrammarFault::Part(message));
        },
        Ok(Some(found)) => found,
        Ok(None) => (copy_stream(stream), copy_stream(stream)),
    };
    let named: TokenStream = match read_word(&item, "struct") {
        Some(named) => named,
        None => {
            return Err(missing_fault(&item, Expectation::Struct));
        },
    };
    let (name, body): (String, TokenStream) = match read_ident(&named) {
        Ok(found) => found,
        Err(fault) => {
            return Err(fault);
        },
    };
    let (inner, rest): (TokenStream, TokenStream) = match read_braces(&body) {
        Some(found) => found,
        None => {
            return Err(missing_fault(&body, Expectation::Braces));
        },
    };
    let fields: Fields = match parse_fields(inner) {
        Ok(fields) => fields,
        Err(fault) => {
            return Err(fault);
        },
    };
    let pipeline: PipelineInput = match complete(vis, name, fields) {
        Ok(pipeline) => pipeline,
        Err(fault) => {
            return Err(fault);
        },
    };
    if take_front(&rest).is_some() {
        return Err(GrammarFault::Expected(Expectation::End));
    }
    Ok(pipeline)
}

} // verus!
