//! How the declaration of a pipeline is read.
//!
//! What stands at the front of tokens is told by `front`, and by what is read there as an identifier, an
//! expression, a type or a visibility.

use crate::grammar::{
    complete, decls_read, edge_read, edges_read, end_list, endpoint_of, ends_read, exprs_read,
    factory_read, field_read, fields_read, graph_read, kind_read, lone_expr, node_read, nodes_read,
    parse_pipeline, shown_edges, type_pair, DeclsText, EdgeText, EndpointText, Expectation,
    FaultText, Fields, FieldsText, GrammarFault, NodeKindText, NodeText, PipelineInput,
    PipelineText,
};
use crate::tokens::{
    copy_stream, expr_front, front, ident_front, is_empty, stream_tokens, take_front, type_front,
    visibility_front, weight, Token, TokenText,
};
use proc_macro2::TokenStream;
use vstd::prelude::*;

verus! {

/// Nothing is at the front of no tokens; a group that cannot be seen is looked into; any other token is
/// at the front of what is behind it.
pub proof fn unseen_groups_are_opened(token: TokenText, rest: Seq<TokenText>)
    ensures
        front(Seq::<TokenText>::empty()) is None,
        token matches TokenText::Bare(inner) ==> front(seq![token] + rest) == front(inner + rest),
        !(token is Bare) ==> front(seq![token] + rest) == Some((token, rest)),
{
    let all = seq![token] + rest;
    assert(all[0] == token);
    assert(all.skip(1) == rest);
}

/// Whether that mark is at the front, and `rest` is behind it.
pub open spec fn at_mark(tokens: Seq<TokenText>, mark: char, rest: Seq<TokenText>) -> bool {
    front(tokens) matches Some((TokenText::Mark(text, joint), behind)) && text == mark && behind == rest
}

/// Whether that mark is not at the front.
pub open spec fn not_at_mark(tokens: Seq<TokenText>, mark: char) -> bool {
    !(front(tokens) matches Some((TokenText::Mark(text, joint), behind)) && text == mark)
}

/// Whether an arrow is at the front, and `rest` is behind it: a minus that is joint with what follows, and
/// a greater sign.
pub open spec fn at_arrow(tokens: Seq<TokenText>, rest: Seq<TokenText>) -> bool {
    front(tokens) matches Some((TokenText::Mark(text, joint), behind)) && text == '-' && joint
        && at_mark(behind, '>', rest)
}

/// Whether that identifier is at the front, and `rest` is behind it.
pub open spec fn at_ident(tokens: Seq<TokenText>, name: Seq<char>, rest: Seq<TokenText>) -> bool {
    ident_front(tokens) == Ok::<_, Seq<char>>(Some((name, rest)))
}

/// Whether that expression is at the front, and `rest` is behind it.
pub open spec fn at_expr(tokens: Seq<TokenText>, expr: Seq<TokenText>, rest: Seq<TokenText>) -> bool {
    expr_front(tokens) == Ok::<_, Seq<char>>(Some((expr, rest)))
}

/// Whether that type is at the front, and `rest` is behind it.
pub open spec fn at_type(tokens: Seq<TokenText>, ty: Seq<TokenText>, rest: Seq<TokenText>) -> bool {
    type_front(tokens) == Ok::<_, Seq<char>>(Some((ty, rest)))
}

/// The two ends of the pipeline have names of their own; any other name is that of a node.
pub proof fn ends_are_named(name: Seq<char>)
    ensures
        endpoint_of("input"@) == EndpointText::Input,
        endpoint_of("output"@) == EndpointText::Output,
        name != "input"@ && name != "output"@ ==> endpoint_of(name) == EndpointText::Node(name),
{
    reveal_strlit("input");
    reveal_strlit("output");
    assert("input"@.len() != "output"@.len());
}

/// Identifiers with commas between them are the ends of edges, in order; another mark is a fault.
pub proof fn ends_are_listed(
    tokens: Seq<TokenText>,
    name: Seq<char>,
    rest: Seq<TokenText>,
    next: Seq<TokenText>,
)
    requires
        tokens.len() > 0,
        at_ident(tokens, name, rest),
    ensures
        ends_read(Seq::<TokenText>::empty()) == Ok::<Seq<EndpointText>, FaultText>(Seq::empty()),
        rest.len() == 0 ==> ends_read(tokens) == Ok::<_, FaultText>(seq![endpoint_of(name)]),
        rest.len() > 0 && not_at_mark(rest, ',') ==> ends_read(tokens) == Err::<
            Seq<EndpointText>,
            _,
        >(FaultText::Expected(Expectation::Comma)),
        rest.len() > 0 && at_mark(rest, ',', next) && weight(next) < weight(tokens)
            ==> match ends_read(next) {
            Ok(list) => ends_read(tokens) == Ok::<_, FaultText>(seq![endpoint_of(name)] + list),
            Err(fault) => ends_read(tokens) == Err::<Seq<EndpointText>, _>(fault),
        },
{
}

/// An edge leads from a list in brackets or one end, over an arrow, to a list in brackets or one end.
pub proof fn edges_lead_over_arrows(
    tokens: Seq<TokenText>,
    from: Seq<EndpointText>,
    rest: Seq<TokenText>,
    behind: Seq<TokenText>,
    to: Seq<EndpointText>,
    left: Seq<TokenText>,
)
    requires
        end_list(tokens) == Ok::<_, FaultText>((from, rest)),
    ensures
        at_arrow(rest, behind) && end_list(behind) == Ok::<_, FaultText>((to, left)) ==> edge_read(
            tokens,
        ) == Ok::<_, FaultText>((EdgeText { from, to }, left)),
        !(exists|b: Seq<TokenText>| at_arrow(rest, b)) ==> edge_read(tokens) == Err::<
            (EdgeText, Seq<TokenText>),
            _,
        >(FaultText::Expected(Expectation::Arrow)),
{
    if edge_read(tokens) != Err::<(EdgeText, Seq<TokenText>), _>(
        FaultText::Expected(Expectation::Arrow),
    ) {
        if let Some((TokenText::Mark(text, joint), after)) = front(rest) {
            if let Some((TokenText::Mark(second, j), b)) = front(after) {
                if text == '-' && joint && second == '>' {
                    assert(at_mark(after, '>', b));
                    assert(at_arrow(rest, b));
                }
            }
        }
    }
}

/// The ends of an edge stand in brackets, or one stands alone.
pub proof fn ends_stand_alone_or_in_brackets(
    tokens: Seq<TokenText>,
    inner: Seq<TokenText>,
    rest: Seq<TokenText>,
    name: Seq<char>,
)
    ensures
        front(tokens) == Some((TokenText::Brackets(inner), rest)) ==> match ends_read(inner) {
            Ok(list) => end_list(tokens) == Ok::<_, FaultText>((list, rest)),
            Err(fault) => end_list(tokens) == Err::<(Seq<EndpointText>, Seq<TokenText>), _>(fault),
        },
        !(front(tokens) matches Some((TokenText::Brackets(i), r))) && at_ident(tokens, name, rest)
            ==> end_list(tokens) == Ok::<_, FaultText>((seq![endpoint_of(name)], rest)),
{
}

/// Edges stand in order with semicolons between them; another mark is a fault.
pub proof fn edges_are_listed(
    tokens: Seq<TokenText>,
    edge: EdgeText,
    rest: Seq<TokenText>,
    next: Seq<TokenText>,
)
    requires
        tokens.len() > 0,
        edge_read(tokens) == Ok::<_, FaultText>((edge, rest)),
    ensures
        edges_read(Seq::<TokenText>::empty()) == Ok::<Seq<EdgeText>, FaultText>(Seq::empty()),
        rest.len() == 0 ==> edges_read(tokens) == Ok::<_, FaultText>(seq![edge]),
        rest.len() > 0 && not_at_mark(rest, ';') ==> edges_read(tokens) == Err::<Seq<EdgeText>, _>(
            FaultText::Expected(Expectation::Semicolon),
        ),
        rest.len() > 0 && at_mark(rest, ';', next) && weight(next) < weight(tokens)
            ==> match edges_read(next) {
            Ok(list) => edges_read(tokens) == Ok::<_, FaultText>(seq![edge] + list),
            Err(fault) => edges_read(tokens) == Err::<Seq<EdgeText>, _>(fault),
        },
{
}

/// Expressions stand in order with commas between them; another mark is a fault.
pub proof fn expressions_are_listed(
    tokens: Seq<TokenText>,
    expr: Seq<TokenText>,
    rest: Seq<TokenText>,
    next: Seq<TokenText>,
)
    requires
        tokens.len() > 0,
        at_expr(tokens, expr, rest),
    ensures
        exprs_read(Seq::<TokenText>::empty()) == Ok::<Seq<Seq<TokenText>>, FaultText>(Seq::empty()),
        rest.len() == 0 ==> exprs_read(tokens) == Ok::<_, FaultText>(seq![expr]),
        rest.len() > 0 && not_at_mark(rest, ',') ==> exprs_read(tokens) == Err::<
            Seq<Seq<TokenText>>,
            _,
        >(FaultText::Expected(Expectation::Comma)),
        rest.len() > 0 && at_mark(rest, ',', next) && weight(next) < weight(tokens)
            ==> match exprs_read(next) {
            Ok(list) => exprs_read(tokens) == Ok::<_, FaultText>(seq![expr] + list),
            Err(fault) => exprs_read(tokens) == Err::<Seq<Seq<TokenText>>, _>(fault),
        },
{
}

/// Named nodes stand in order with commas between them; another mark is a fault.
pub proof fn named_nodes_are_listed(
    tokens: Seq<TokenText>,
    node: NodeText,
    rest: Seq<TokenText>,
    next: Seq<TokenText>,
)
    requires
        tokens.len() > 0,
        node_read(tokens) == Ok::<_, FaultText>((node, rest)),
    ensures
        nodes_read(Seq::<TokenText>::empty()) == Ok::<Seq<NodeText>, FaultText>(Seq::empty()),
        rest.len() == 0 ==> nodes_read(tokens) == Ok::<_, FaultText>(seq![node]),
        rest.len() > 0 && not_at_mark(rest, ',') ==> nodes_read(tokens) == Err::<Seq<NodeText>, _>(
            FaultText::Expected(Expectation::Comma),
        ),
        rest.len() > 0 && at_mark(rest, ',', next) && weight(next) < weight(tokens)
            ==> match nodes_read(next) {
            Ok(list) => nodes_read(tokens) == Ok::<_, FaultText>(seq![node] + list),
            Err(fault) => nodes_read(tokens) == Err::<Seq<NodeText>, _>(fault),
        },
{
}

/// A named node is its name, an equals sign, and what it is.
pub proof fn nodes_are_named(
    tokens: Seq<TokenText>,
    name: Seq<char>,
    rest: Seq<TokenText>,
    behind: Seq<TokenText>,
    kind: NodeKindText,
    left: Seq<TokenText>,
)
    requires
        at_ident(tokens, name, rest),
    ensures
        not_at_mark(rest, '=') ==> node_read(tokens) == Err::<(NodeText, Seq<TokenText>), _>(
            FaultText::Expected(Expectation::Equals),
        ),
        at_mark(rest, '=', behind) && kind_read(behind) == Ok::<_, FaultText>((kind, left))
            ==> node_read(tokens) == Ok::<_, FaultText>((NodeText { name, kind }, left)),
{
}

/// A node that is run from outside is the word `external_node` with the types that it takes and gives, in
/// that order, in parentheses; anything else is an expression whose node the pipeline runs.
pub proof fn external_nodes_have_two_types(
    tokens: Seq<TokenText>,
    rest: Seq<TokenText>,
    inner: Seq<TokenText>,
    behind: Seq<TokenText>,
    input: Seq<TokenText>,
    comma: Seq<TokenText>,
    second: Seq<TokenText>,
    output: Seq<TokenText>,
    left: Seq<TokenText>,
    expr: Seq<TokenText>,
)
    ensures
        front(tokens) == Some((TokenText::Word("external_node"@), rest)) && front(rest) == Some(
            (TokenText::Parentheses(inner), behind),
        ) && at_type(inner, input, comma) && at_mark(comma, ',', second) && at_type(
            second,
            output,
            left,
        ) ==> {
            &&& left.len() == 0 ==> match factory_read(behind) {
                Ok((reusable_factory, end)) => kind_read(tokens) == Ok::<_, FaultText>(
                    (NodeKindText::External { input, output, reusable_factory }, end),
                ),
                Err(fault) => kind_read(tokens) == Err::<(NodeKindText, Seq<TokenText>), _>(fault),
            }
            &&& left.len() > 0 ==> kind_read(tokens) == Err::<(NodeKindText, Seq<TokenText>), _>(
                FaultText::ExternalTypes,
            )
        },
        !(front(tokens) matches Some((TokenText::Word(w), r)) && w == "external_node"@) && at_expr(
            tokens,
            expr,
            left,
        ) ==> kind_read(tokens) == Ok::<_, FaultText>((NodeKindText::Managed(expr), left)),
{
}

/// What makes outputs is given by one call of `with_reusable_output` on the node, with one expression;
/// another method, or a second call, is a fault.
pub proof fn factories_are_given_once(
    tokens: Seq<TokenText>,
    behind: Seq<TokenText>,
    method: Seq<char>,
    call: Seq<TokenText>,
    inner: Seq<TokenText>,
    left: Seq<TokenText>,
    factory: Seq<TokenText>,
    rest: Seq<TokenText>,
)
    ensures
        not_at_mark(tokens, '.') ==> factory_read(tokens) == Ok::<_, FaultText>(
            (None::<Seq<TokenText>>, tokens),
        ),
        at_mark(tokens, '.', behind) && at_ident(behind, method, call) ==> {
            &&& method != "with_reusable_output"@ ==> factory_read(tokens) == Err::<
                (Option<Seq<TokenText>>, Seq<TokenText>),
                _,
            >(FaultText::ExternalMethod)
            &&& method == "with_reusable_output"@ && front(call) == Some(
                (TokenText::Parentheses(inner), left),
            ) && at_expr(inner, factory, rest) && rest.len() == 0 && front(rest) is None ==> {
                &&& not_at_mark(left, '.') ==> factory_read(tokens) == Ok::<_, FaultText>(
                    (Some(factory), left),
                )
                &&& !not_at_mark(left, '.') ==> factory_read(tokens) == Err::<
                    (Option<Seq<TokenText>>, Seq<TokenText>),
                    _,
                >(FaultText::ReusableTwice)
            }
        },
{
}

/// The types of a pipeline are declared by the word `type`, a key, an equals sign, the type and a
/// semicolon; each key sets its own type, and another is a fault.
pub proof fn types_are_declared(
    tokens: Seq<TokenText>,
    fields: FieldsText,
    keyed: Seq<TokenText>,
    key: Seq<char>,
    equals: Seq<TokenText>,
    value: Seq<TokenText>,
    ty: Seq<TokenText>,
    end: Seq<TokenText>,
    next: Seq<TokenText>,
)
    requires
        front(tokens) == Some((TokenText::Word("type"@), keyed)),
        at_ident(keyed, key, equals),
        at_mark(equals, '=', value),
        at_type(value, ty, end),
        at_mark(end, ';', next),
    ensures
        key == "Input"@ ==> field_read(tokens, fields) == Ok::<_, FaultText>(
            (FieldsText { input: Some(ty), ..fields }, next),
        ),
        key == "Output"@ ==> field_read(tokens, fields) == Ok::<_, FaultText>(
            (FieldsText { output: Some(ty), ..fields }, next),
        ),
        key == "Error"@ ==> field_read(tokens, fields) == Ok::<_, FaultText>(
            (FieldsText { error: Some(ty), ..fields }, next),
        ),
        key != "Input"@ && key != "Output"@ && key != "Error"@ ==> field_read(tokens, fields)
            == Err::<(FieldsText, Seq<TokenText>), _>(FaultText::TypeKey),
{
    reveal_strlit("Input");
    reveal_strlit("Output");
    reveal_strlit("Error");
    assert("Input"@[0] != "Error"@[0]);
}

/// The other fields are a key, an equals sign, what is read by that key, and a semicolon; another key is a
/// fault.
pub proof fn values_are_assigned(
    tokens: Seq<TokenText>,
    fields: FieldsText,
    key: Seq<char>,
    equals: Seq<TokenText>,
    value: Seq<TokenText>,
    run: Seq<TokenText>,
    nodes: DeclsText,
    edges: Seq<EdgeText>,
    end: Seq<TokenText>,
    next: Seq<TokenText>,
)
    requires
        !(front(tokens) matches Some((TokenText::Word(w), r)) && w == "type"@),
        at_ident(tokens, key, equals),
        at_mark(equals, '=', value),
        at_mark(end, ';', next),
    ensures
        key == "config"@ && at_expr(value, run, end) ==> field_read(tokens, fields) == Ok::<
            _,
            FaultText,
        >((FieldsText { config: Some(run), ..fields }, next)),
        key == "nodes"@ && decls_read(value) == Ok::<_, FaultText>((nodes, end)) ==> field_read(
            tokens,
            fields,
        ) == Ok::<_, FaultText>((FieldsText { nodes: Some(nodes), ..fields }, next)),
        key == "graph"@ && graph_read(value) == Ok::<_, FaultText>((edges, end)) ==> field_read(
            tokens,
            fields,
        ) == Ok::<_, FaultText>((FieldsText { graph: Some(edges), ..fields }, next)),
        key == "return_state"@ && at_type(value, run, end) ==> field_read(tokens, fields) == Ok::<
            _,
            FaultText,
        >((FieldsText { return_state: Some(run), ..fields }, next)),
        key != "config"@ && key != "nodes"@ && key != "graph"@ && key != "return_state"@
            ==> field_read(tokens, fields) == Err::<(FieldsText, Seq<TokenText>), _>(
            FaultText::FieldKey,
        ),
{
    reveal_strlit("config");
    reveal_strlit("nodes");
    reveal_strlit("graph");
    reveal_strlit("return_state");
    assert("nodes"@[0] != "graph"@[0]);
    assert("config"@.len() == 6 && "nodes"@.len() == 5 && "graph"@.len() == 5);
    assert("return_state"@.len() == 12);
}

/// Nodes in brackets follow one another, and nodes in braces have names; a graph stands in braces.
pub proof fn nodes_stand_in_brackets_or_braces(
    tokens: Seq<TokenText>,
    inner: Seq<TokenText>,
    rest: Seq<TokenText>,
)
    ensures
        front(tokens) == Some((TokenText::Brackets(inner), rest)) ==> match exprs_read(inner) {
            Ok(list) => decls_read(tokens) == Ok::<_, FaultText>((DeclsText::Linear(list), rest)),
            Err(fault) => decls_read(tokens) == Err::<(DeclsText, Seq<TokenText>), _>(fault),
        },
        front(tokens) == Some((TokenText::Braces(inner), rest)) ==> match nodes_read(inner) {
            Ok(list) => decls_read(tokens) == Ok::<_, FaultText>((DeclsText::Named(list), rest)),
            Err(fault) => decls_read(tokens) == Err::<(DeclsText, Seq<TokenText>), _>(fault),
        },
        front(tokens) == Some((TokenText::Braces(inner), rest)) ==> match edges_read(inner) {
            Ok(list) => graph_read(tokens) == Ok::<_, FaultText>((list, rest)),
            Err(fault) => graph_read(tokens) == Err::<(Seq<EdgeText>, Seq<TokenText>), _>(fault),
        },
        !(front(tokens) matches Some((TokenText::Braces(i), r))) ==> graph_read(tokens) is Err,
{
}

/// Fields are read one after the other, up to the end or the first fault; a later one takes the place of
/// an earlier one of the same key.
pub proof fn fields_are_read_in_order(
    tokens: Seq<TokenText>,
    fields: FieldsText,
    more: FieldsText,
    next: Seq<TokenText>,
)
    ensures
        tokens.len() == 0 ==> fields_read(tokens, fields) == Ok::<_, FaultText>(fields),
        tokens.len() > 0 && field_read(tokens, fields) == Ok::<_, FaultText>((more, next)) && weight(
            next,
        ) < weight(tokens) ==> fields_read(tokens, fields) == fields_read(next, more),
        tokens.len() > 0 ==> (field_read(tokens, fields) matches Err(fault) ==> fields_read(
            tokens,
            fields,
        ) == Err::<FieldsText, _>(fault)),
{
}

/// A declaration needs its three types, its config and its nodes, and the first that is missing is told;
/// with them it is what its fields say.
pub proof fn five_fields_are_needed(
    vis: TokenStream,
    name: String,
    fields: Fields,
    r: Result<PipelineInput, GrammarFault>,
)
    requires
        call_ensures(complete, (vis, name, fields), r),
    ensures
        fields.input is None ==> (r matches Err(fault) && fault is MissingInput),
        fields.input is Some && fields.output is None ==> (r matches Err(fault)
            && fault is MissingOutput),
        fields.input is Some && fields.output is Some && fields.error is None ==> (r matches Err(
            fault,
        ) && fault is MissingError),
        fields.input is Some && fields.output is Some && fields.error is Some && fields.config is None
            ==> (r matches Err(fault) && fault is MissingConfig),
        fields.input is Some && fields.output is Some && fields.error is Some && fields.config is Some
            && fields.nodes is None ==> (r matches Err(fault) && fault is MissingNodes),
        fields.input is Some && fields.output is Some && fields.error is Some && fields.config is Some
            && fields.nodes is Some ==> r is Ok,
        r matches Ok(pipeline) ==> {
            &&& stream_tokens(pipeline.vis) == stream_tokens(vis)
            &&& pipeline.name@ == name@
            &&& stream_tokens(pipeline.input) == stream_tokens(fields.input->0)
            &&& stream_tokens(pipeline.output) == stream_tokens(fields.output->0)
            &&& stream_tokens(pipeline.error) == stream_tokens(fields.error->0)
            &&& stream_tokens(pipeline.config) == stream_tokens(fields.config->0)
            &&& pipeline.nodes@ == fields.nodes->0@
            &&& fields.graph is Some <==> pipeline.graph is Some
            &&& fields.graph is Some ==> shown_edges(pipeline.graph->0@) == shown_edges(
                fields.graph->0@,
            )
            &&& fields.return_state is Some <==> pipeline.return_state is Some
            &&& fields.return_state is Some ==> stream_tokens(pipeline.return_state->0)
                == stream_tokens(fields.return_state->0)
        },
{
}

/// A declaration is a visibility, the word `struct`, a name, and its fields in braces, with nothing behind
/// them.
pub proof fn declarations_are_read(
    stream: &TokenStream,
    vis: Seq<TokenText>,
    item: Seq<TokenText>,
    named: Seq<TokenText>,
    name: Seq<char>,
    body: Seq<TokenText>,
    inner: Seq<TokenText>,
    rest: Seq<TokenText>,
    fields: FieldsText,
    r: Result<PipelineInput, GrammarFault>,
)
    requires
        call_ensures(parse_pipeline, (stream,), r),
        visibility_front(stream_tokens(*stream)) == Ok::<_, Seq<char>>(Some((vis, item))),
        front(item) == Some((TokenText::Word("struct"@), named)),
        at_ident(named, name, body),
        front(body) == Some((TokenText::Braces(inner), rest)),
    ensures
        ({
            let none = FieldsText {
                input: None,
                output: None,
                error: None,
                config: None,
                nodes: None,
                graph: None,
                return_state: None,
            };
            &&& fields_read(inner, none) matches Err(fault) ==> (r matches Err(f) && f@ == fault)
            &&& fields_read(inner, none) == Ok::<_, FaultText>(fields) && fields.input is Some
                && fields.output is Some && fields.error is Some && fields.config is Some
                && fields.nodes is Some ==> {
                &&& front(rest) is Some ==> (r matches Err(fault) && fault@ == FaultText::Expected(
                    Expectation::End,
                ))
                &&& front(rest) is None ==> (r matches Ok(pipeline) && pipeline@ == (PipelineText {
                    vis,
                    name,
                    input: fields.input->0,
                    output: fields.output->0,
                    error: fields.error->0,
                    config: fields.config->0,
                    nodes: fields.nodes->0,
                    graph: fields.graph,
                    return_state: fields.return_state,
                }))
            }
            &&& fields_read(inner, none) == Ok::<_, FaultText>(fields) && (fields.input is None
                || fields.output is None || fields.error is None || fields.config is None
                || fields.nodes is None) ==> r is Err
        }),
{
}

/// Without the word `struct`, a name or braces there is no declaration.
pub proof fn declarations_need_their_parts(
    stream: &TokenStream,
    vis: Seq<TokenText>,
    item: Seq<TokenText>,
    named: Seq<TokenText>,
    name: Seq<char>,
    body: Seq<TokenText>,
    r: Result<PipelineInput, GrammarFault>,
)
    requires
        call_ensures(parse_pipeline, (stream,), r),
        visibility_front(stream_tokens(*stream)) == Ok::<_, Seq<char>>(Some((vis, item))),
    ensures
        !(front(item) matches Some((TokenText::Word(w), n)) && w == "struct"@) ==> (r matches Err(
            fault,
        ) && fault@ == if item.len() == 0 {
            FaultText::Ended(Expectation::Struct)
        } else {
            FaultText::Expected(Expectation::Struct)
        }),
        front(item) == Some((TokenText::Word("struct"@), named)) && at_ident(named, name, body) && !(
        front(body) matches Some((TokenText::Braces(i), rest))) ==> (r matches Err(fault) && fault@
            == if body.len() == 0 {
            FaultText::Ended(Expectation::Braces)
        } else {
            FaultText::Expected(Expectation::Braces)
        }),
{
}

/// Each fault of a declaration is told by its own words.
pub proof fn declaration_faults_are_told(fault: GrammarFault, r: String)
    requires
        call_ensures(GrammarFault::describe, (fault,), r),
    ensures
        ({
            let expected = |e: Expectation|
                match e {
                    Expectation::Struct => "expected `struct`"@,
                    Expectation::Equals => "expected `=`"@,
                    Expectation::Semicolon => "expected `;`"@,
                    Expectation::Comma => "expected `,`"@,
                    Expectation::Arrow => "expected `->`"@,
                    Expectation::Braces => "expected curly braces"@,
                    Expectation::Parentheses => "expected parentheses"@,
                    Expectation::End => "unexpected token"@,
                };
            r@ == match fault {
                GrammarFault::Expected(e) => expected(e),
                GrammarFault::Ended(e) => "unexpected end of input, "@ + expected(e),
                GrammarFault::Part(message) => message@,
                GrammarFault::TypeKey => "expected Input, Output, or Error"@,
                GrammarFault::FieldKey => "expected config, nodes, graph, or return_state assignment"@,
                GrammarFault::ExternalTypes => "expected exactly two external node types"@,
                GrammarFault::ExternalMethod => {
                    "external nodes only support `.with_reusable_output(factory)`"@
                },
                GrammarFault::ReusableTokens => "unexpected tokens in with_reusable_output"@,
                GrammarFault::ReusableTwice => {
                    "external nodes support at most one `.with_reusable_output(...)` chain"@
                },
                GrammarFault::MissingInput => "missing `type Input = ...;`"@,
                GrammarFault::MissingOutput => "missing `type Output = ...;`"@,
                GrammarFault::MissingError => "missing `type Error = ...;`"@,
                GrammarFault::MissingConfig => "missing `config = ...;`"@,
                GrammarFault::MissingNodes => "missing `nodes = ...;`"@,
            }
        }),
{
}

/// The token that is taken off a stream is the one at its front, and a copy holds the same tokens.
pub proof fn tokens_are_taken_off_the_front(
    stream: &TokenStream,
    taken: Option<(Token, TokenStream)>,
    empty: bool,
    copy: TokenStream,
)
    requires
        call_ensures(take_front, (stream,), taken),
        call_ensures(is_empty, (stream,), empty),
        call_ensures(copy_stream, (stream,), copy),
    ensures
        taken is None <==> front(stream_tokens(*stream)) is None,
        taken matches Some((token, rest)) ==> front(stream_tokens(*stream)) == Some(
            (token@, stream_tokens(rest)),
        ),
        empty <==> stream_tokens(*stream).len() == 0,
        stream_tokens(copy) == stream_tokens(*stream),
{
}

/// An argument of `with_reusable_output` may have a comma behind it, and nothing more.
pub proof fn factories_stand_alone(
    tokens: Seq<TokenText>,
    expr: Seq<TokenText>,
    rest: Seq<TokenText>,
    behind: Seq<TokenText>,
)
    requires
        at_expr(tokens, expr, rest),
    ensures
        not_at_mark(rest, ',') && rest.len() == 0 ==> lone_expr(tokens) == Ok::<_, FaultText>(expr),
        not_at_mark(rest, ',') && rest.len() > 0 ==> lone_expr(tokens) == Err::<Seq<TokenText>, _>(
            FaultText::ReusableTokens,
        ),
        at_mark(rest, ',', behind) && behind.len() == 0 ==> lone_expr(tokens) == Ok::<_, FaultText>(
            expr,
        ),
        at_mark(rest, ',', behind) && behind.len() > 0 ==> lone_expr(tokens) == Err::<
            Seq<TokenText>,
            _,
        >(FaultText::ReusableTokens),
{
}

/// Two types have a comma between them.
pub proof fn types_have_a_comma_between(
    tokens: Seq<TokenText>,
    first: Seq<TokenText>,
    rest: Seq<TokenText>,
    behind: Seq<TokenText>,
    second: Seq<TokenText>,
    left: Seq<TokenText>,
)
    requires
        at_type(tokens, first, rest),
    ensures
        not_at_mark(rest, ',') ==> type_pair(tokens) == Err::<(Seq<TokenText>, Seq<TokenText>), _>(
            FaultText::Expected(Expectation::Comma),
        ),
        at_mark(rest, ',', behind) && at_type(behind, second, left) && left.len() == 0 ==> type_pair(
            tokens,
        ) == Ok::<_, FaultText>((first, second)),
{
}

/// What is wrong with an identifier, an expression or a type is told in the words of the language's own
/// grammar, wherever one of them is read.
pub proof fn parts_are_told_of(tokens: Seq<TokenText>, message: Seq<char>, fields: FieldsText)
    requires
        tokens.len() > 0,
    ensures
        ident_front(tokens) == Err::<Option<(Seq<char>, Seq<TokenText>)>, _>(message) ==> {
            &&& ends_read(tokens) == Err::<Seq<EndpointText>, _>(FaultText::Part(message))
            &&& node_read(tokens) == Err::<(NodeText, Seq<TokenText>), _>(FaultText::Part(message))
            &&& !(front(tokens) matches Some((TokenText::Word(w), r)) && w == "type"@) ==> field_read(
                tokens,
                fields,
            ) == Err::<(FieldsText, Seq<TokenText>), _>(FaultText::Part(message))
        },
        expr_front(tokens) == Err::<Option<(Seq<TokenText>, Seq<TokenText>)>, _>(message) ==> {
            &&& exprs_read(tokens) == Err::<Seq<Seq<TokenText>>, _>(FaultText::Part(message))
            &&& !(front(tokens) matches Some((TokenText::Word(w), r)) && w == "external_node"@)
                ==> kind_read(tokens) == Err::<(NodeKindText, Seq<TokenText>), _>(
                FaultText::Part(message),
            )
        },
        type_front(tokens) == Err::<Option<(Seq<TokenText>, Seq<TokenText>)>, _>(message)
            ==> type_pair(tokens) == Err::<(Seq<TokenText>, Seq<TokenText>), _>(
            FaultText::Part(message),
        ),
{
}

/// A field needs an equals sign behind its key and a semicolon behind its value.
pub proof fn fields_need_their_marks(
    tokens: Seq<TokenText>,
    fields: FieldsText,
    keyed: Seq<TokenText>,
    key: Seq<char>,
    equals: Seq<TokenText>,
    value: Seq<TokenText>,
    run: Seq<TokenText>,
    end: Seq<TokenText>,
)
    ensures
        front(tokens) == Some((TokenText::Word("type"@), keyed)) && at_ident(keyed, key, equals) ==> {
            &&& not_at_mark(equals, '=') ==> field_read(tokens, fields) == Err::<
                (FieldsText, Seq<TokenText>),
                _,
            >(FaultText::Expected(Expectation::Equals))
            &&& at_mark(equals, '=', value) && at_type(value, run, end) && not_at_mark(end, ';')
                ==> field_read(tokens, fields) == Err::<(FieldsText, Seq<TokenText>), _>(
                FaultText::Expected(Expectation::Semicolon),
            )
        },
        !(front(tokens) matches Some((TokenText::Word(w), r)) && w == "type"@) && at_ident(
            tokens,
            key,
            equals,
        ) ==> {
            &&& not_at_mark(equals, '=') ==> field_read(tokens, fields) == Err::<
                (FieldsText, Seq<TokenText>),
                _,
            >(FaultText::Expected(Expectation::Equals))
            &&& at_mark(equals, '=', value) && key == "config"@ && at_expr(value, run, end)
                && not_at_mark(end, ';') ==> field_read(tokens, fields) == Err::<
                (FieldsText, Seq<TokenText>),
                _,
            >(FaultText::Expected(Expectation::Semicolon))
        },
{
}

/// Where braces or parentheses are missing, it is told whether the tokens end there or something else
/// stands there.
pub proof fn missing_groups_are_told(
    tokens: Seq<TokenText>,
    behind: Seq<TokenText>,
    call: Seq<TokenText>,
)
    ensures
        ({
            let braces = if tokens.len() == 0 {
                FaultText::Ended(Expectation::Braces)
            } else {
                FaultText::Expected(Expectation::Braces)
            };
            &&& !(front(tokens) matches Some((TokenText::Braces(i), r))) ==> graph_read(tokens)
                == Err::<(Seq<EdgeText>, Seq<TokenText>), _>(braces)
            &&& !(front(tokens) matches Some((TokenText::Braces(i), r))) && !(front(
                tokens,
            ) matches Some((TokenText::Brackets(i), r))) ==> decls_read(tokens) == Err::<
                (DeclsText, Seq<TokenText>),
                _,
            >(braces)
        }),
        at_mark(tokens, '.', behind) && at_ident(behind, "with_reusable_output"@, call) && !(front(
            call,
        ) matches Some((TokenText::Parentheses(i), r))) ==> factory_read(tokens) == Err::<
            (Option<Seq<TokenText>>, Seq<TokenText>),
            _,
        >(
            if call.len() == 0 {
                FaultText::Ended(Expectation::Parentheses)
            } else {
                FaultText::Expected(Expectation::Parentheses)
            },
        ),
{
}

} // verus!
