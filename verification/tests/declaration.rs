use piper::construction::{
    expand_linear_graph, expand_named_graph, plan_code, BuildStep, Returned,
};
use piper::expand::{
    check_named_graph, dest_key, detect_cycles, source_key, validate_endpoint, ExpandFault,
};
use piper::expansion::{
    external_ident, find_state_node, link_ident, named_return_state_mergeable, plan_expansion,
    run_ident, ExpansionPlan,
};
use piper::grammar::{
    complete, parse_pipeline, Edge, Endpoint, Expectation, Fields, GrammarFault, NamedNode,
    NamedNodeKind, NodeDecls, PipelineInput,
};
use piper::merging::{
    call_declares_state_merge, expr_declares_state_merge, expr_path_last_ident, look_through,
    part_declares_state_merge,
};
use piper::tokens::{copy_stream, is_empty, take_front, ExprPart, Token};
use piper::union_find::KeyTable;
use piper::wiring::{plan_wiring, WiringPlan};
use proc_macro2::{Delimiter, Group, TokenStream, TokenTree};
use std::str::FromStr;

const HEAD: &str = "type Input = u8; type Output = u16; type Error = MacroError; config = config();";

fn declaration(name: &str, rest: &str) -> String {
    format!("pub struct {name} {{ {HEAD} {rest} }}")
}

fn stream(text: &str) -> TokenStream {
    TokenStream::from_str(text).unwrap()
}

fn parsed(rest: &str) -> PipelineInput {
    parse_pipeline(&stream(&declaration("Sample", rest))).unwrap()
}

fn fault(text: &str) -> GrammarFault {
    parse_pipeline(&stream(text)).expect_err("the declaration should be refused")
}

fn node_fault(rest: &str) -> GrammarFault {
    fault(&declaration("Sample", rest))
}

fn text_of(tokens: &TokenStream) -> String {
    tokens.to_string().split_whitespace().collect()
}

fn refused(rest: &str) -> ExpandFault {
    plan_expansion(&parsed(rest)).expect_err("the graph should be refused")
}

fn names(pipeline: &PipelineInput) -> Vec<String> {
    match &pipeline.nodes {
        NodeDecls::Named(nodes) => nodes.iter().map(|node| node.name.clone()).collect(),
        NodeDecls::Linear(_) => panic!("the nodes have no names"),
    }
}

fn graph_parts(pipeline: &PipelineInput) -> (&Vec<NamedNode>, &Vec<Edge>) {
    match (&pipeline.nodes, &pipeline.graph) {
        (NodeDecls::Named(nodes), Some(edges)) => (nodes, edges),
        _ => panic!("not a graph"),
    }
}

fn wiring(rest: &str) -> WiringPlan {
    match plan_expansion(&parsed(rest)).unwrap().0 {
        ExpansionPlan::Named(plan) => plan,
        ExpansionPlan::Linear { .. } => panic!("not a graph"),
    }
}

const DIAMOND: &str = "nodes = {
        widen = anchor(Widen).max_threads(1),
        left = node(\"left\", Keep),
        right = anchor(node(\"right\", Keep)).fixed_threads(1),
        out = node(\"out\", Keep),
    };
    graph = {
        input -> widen;
        widen -> [left, right];
        [left, right] -> out;
        out -> output;
    };";

#[test]
fn pipeline_macro_compiles() {
    let direct = parsed("nodes = [anchor(Widen).max_threads(1), Keep];");
    let (plan, returns) = plan_expansion(&direct).unwrap();
    assert!(matches!(plan, ExpansionPlan::Linear { nodes: 2 }));
    assert_eq!(returns, None);

    let named = parsed("nodes = [anchor(node(\"widen\", Widen)).max_threads(1), node(\"keep\", Keep)];");
    assert!(matches!(plan_expansion(&named).unwrap().0, ExpansionPlan::Linear { nodes: 2 }));

    let inline = parsed(
        "nodes = [
            anchor(inline_node(
                \"widen\",
                || -> std::result::Result<(), MacroError> { Ok(()) },
                |_state: &mut (), input: u8, ctx: &mut NodeContext<u16, MacroError>| {
                    ctx.emit(input as u16);
                    Ok(())
                },
            )).max_threads(1),
        ];",
    );
    assert!(matches!(plan_expansion(&inline).unwrap().0, ExpansionPlan::Linear { nodes: 1 }));

    let graph = parsed(DIAMOND);
    assert_eq!(names(&graph), ["widen", "left", "right", "out"]);
    assert!(matches!(plan_expansion(&graph).unwrap().0, ExpansionPlan::Named(_)));

    let state = parsed(
        "nodes = [Widen, node(\"count\", CountingKeep).fixed_threads(1)]; return_state = usize;",
    );
    assert_eq!(plan_expansion(&state).unwrap().1, Some(false));

    let merged = parsed(
        "nodes = [
            Widen,
            node_with_state_merge(\"count\", CountingKeep, merge_usize).fixed_threads(1),
        ];
        return_state = usize;",
    );
    assert_eq!(plan_expansion(&merged).unwrap().1, Some(true));

    let external = parsed(
        "nodes = {
            external = external_node(u8, BufferLease<Vec<u16>>)
                .with_reusable_output(|| Vec::<u16>::new()),
        };
        graph = {
            input -> external;
            external -> output;
        };",
    );
    let (nodes, _) = graph_parts(&external);
    let NamedNodeKind::External { input, output, reusable_factory } = &nodes[0].kind else {
        panic!("not an external node");
    };
    assert_eq!(text_of(input), "u8");
    assert_eq!(text_of(output), "BufferLease<Vec<u16>>");
    assert_eq!(text_of(reusable_factory.as_ref().unwrap()), "||Vec::<u16>::new()");
    assert!(plan_expansion(&external).is_ok());
}

#[test]
fn state_pipeline_without_merge_has_no_join_merged() {
    let pipeline = parsed("nodes = [node(\"count\", Count).fixed_threads(1)]; return_state = usize;");
    assert_eq!(plan_expansion(&pipeline).unwrap().1, Some(false));
}

#[test]
fn return_state_rejects_multiple_output_producers() {
    let fault = refused(
        "nodes = {
            left = node(\"left\", Pass),
            right = node(\"right\", Pass),
        };
        graph = {
            input -> [left, right];
            [left, right] -> output;
        };
        return_state = usize;",
    );
    assert_eq!(fault, ExpandFault::StateProducers);
    assert!(fault.describe().contains("return_state requires exactly one managed node"));
}

#[test]
fn the_parts_of_a_declaration_are_kept() {
    let text = declaration("Parts", "nodes = [a(1, 2), b]; return_state = Vec<usize>;");
    let pipeline = parse_pipeline(&stream(&text)).unwrap();
    assert_eq!(text_of(&pipeline.vis), "pub");
    assert_eq!(pipeline.name, "Parts");
    assert_eq!(text_of(&pipeline.input), "u8");
    assert_eq!(text_of(&pipeline.output), "u16");
    assert_eq!(text_of(&pipeline.error), "MacroError");
    assert_eq!(text_of(&pipeline.config), "config()");
    assert_eq!(text_of(&pipeline.return_state.unwrap()), "Vec<usize>");
    assert!(pipeline.graph.is_none());
    let NodeDecls::Linear(runs) = &pipeline.nodes else {
        panic!("the nodes have no names");
    };
    let shown: Vec<String> = runs.iter().map(text_of).collect();
    assert_eq!(shown, ["a(1,2)", "b"]);
}

#[test]
fn a_visibility_may_be_left_out_or_restricted() {
    let body = format!("{{ {HEAD} nodes = [a]; }}");
    let private = parse_pipeline(&stream(&format!("struct Sample {body}"))).unwrap();
    assert!(private.vis.is_empty());
    let restricted = parse_pipeline(&stream(&format!("pub(crate) struct Sample {body}"))).unwrap();
    assert_eq!(text_of(&restricted.vis), "pub(crate)");
    assert!(matches!(fault(&format!("static struct Sample {body}")), GrammarFault::Expected(_)));
}

#[test]
fn a_repeated_field_counts_last() {
    let pipeline = parsed("type Input = u64; nodes = [a]; nodes = [b, c];");
    assert_eq!(text_of(&pipeline.input), "u64");
    assert!(matches!(plan_expansion(&pipeline).unwrap().0, ExpansionPlan::Linear { nodes: 2 }));
}

#[test]
fn commas_inside_a_type_do_not_end_it() {
    let pipeline = parsed(
        "nodes = { out = external_node(HashMap<u8, u16>, (u8, u16)) };
        graph = { input -> out; out -> output };",
    );
    let (nodes, edges) = graph_parts(&pipeline);
    let NamedNodeKind::External { input, output, reusable_factory } = &nodes[0].kind else {
        panic!("not an external node");
    };
    assert_eq!(text_of(input), "HashMap<u8,u16>");
    assert_eq!(text_of(output), "(u8,u16)");
    assert!(reusable_factory.is_none());
    assert_eq!(edges.len(), 2);
    assert!(matches!(edges[0].from[0], Endpoint::Input));
    assert!(matches!(edges[1].to[0], Endpoint::Output));
}

#[test]
fn a_node_may_be_called_like_the_word_for_external_ones() {
    let pipeline = parsed(
        "nodes = { a = external_node };
        graph = { input -> a; a -> output; };",
    );
    let (nodes, _) = graph_parts(&pipeline);
    assert!(matches!(&nodes[0].kind, NamedNodeKind::Managed(tokens) if text_of(tokens) == "external_node"));
}

#[test]
fn other_declarations_are_refused() {
    assert!(matches!(fault("enum Sample {}"), GrammarFault::Expected(Expectation::Struct)));
    assert!(matches!(fault("pub struct 5 {}"), GrammarFault::Part(_)));
    assert!(matches!(fault("pub struct Sample ;"), GrammarFault::Expected(Expectation::Braces)));
    let tail = format!("{} rest", declaration("Sample", "nodes = [a];"));
    assert!(matches!(fault(&tail), GrammarFault::Expected(Expectation::End)));
    assert!(matches!(node_fault("nodes [a];"), GrammarFault::Expected(Expectation::Equals)));
    assert!(matches!(node_fault("nodes = [a]"), GrammarFault::Expected(Expectation::Semicolon)));
    assert!(matches!(node_fault("nodes = a;"), GrammarFault::Expected(Expectation::Braces)));
    assert!(matches!(
        node_fault("nodes = { a = b }; graph = { input a };"),
        GrammarFault::Expected(Expectation::Arrow)
    ));
    assert!(matches!(node_fault("nodes = [a b];"), GrammarFault::Expected(Expectation::Comma)));
    assert!(matches!(node_fault("nodes = [a +];"), GrammarFault::Part(_)));
    assert!(matches!(
        node_fault("nodes = { a = external_node(u8) };"),
        GrammarFault::Expected(Expectation::Comma)
    ));
}

#[test]
fn wrong_fields_are_refused() {
    let unknown_type = node_fault("type State = u8; nodes = [a];");
    assert!(matches!(unknown_type, GrammarFault::TypeKey));
    assert_eq!(unknown_type.describe(), "expected Input, Output, or Error");
    let unknown_field = node_fault("threads = 4;");
    assert!(matches!(unknown_field, GrammarFault::FieldKey));
    assert_eq!(
        unknown_field.describe(),
        "expected config, nodes, graph, or return_state assignment"
    );
}

#[test]
fn missing_fields_are_named() {
    let said = |fields: &str| fault(&format!("struct Sample {{ {fields} }}")).describe();
    assert_eq!(said(""), "missing `type Input = ...;`");
    assert_eq!(said("type Input = u8;"), "missing `type Output = ...;`");
    assert_eq!(said("type Input = u8; type Output = u8;"), "missing `type Error = ...;`");
    assert_eq!(
        said("type Input = u8; type Output = u8; type Error = E;"),
        "missing `config = ...;`"
    );
    assert_eq!(
        said("type Input = u8; type Output = u8; type Error = E; config = c;"),
        "missing `nodes = ...;`"
    );
}

#[test]
fn external_nodes_are_checked() {
    let said = |node: &str| node_fault(&format!("nodes = {{ a = {node} }};")).describe();
    assert_eq!(said("external_node(u8, u8, u8)"), "expected exactly two external node types");
    assert_eq!(
        said("external_node(u8, u8).max_threads(1)"),
        "external nodes only support `.with_reusable_output(factory)`"
    );
    assert_eq!(
        said("external_node(u8, u8).with_reusable_output(f, g)"),
        "unexpected tokens in with_reusable_output"
    );
    assert_eq!(
        said("external_node(u8, u8).with_reusable_output(f).with_reusable_output(g)"),
        "external nodes support at most one `.with_reusable_output(...)` chain"
    );
    let comma = parsed(
        "nodes = { a = external_node(u8, u8).with_reusable_output(f,) };
        graph = { input -> a; a -> output };",
    );
    assert!(plan_expansion(&comma).is_ok());
}

#[test]
fn nodes_and_graph_go_together() {
    assert_eq!(refused("nodes = [a]; graph = { input -> a };"), ExpandFault::GraphWithoutNames);
    assert_eq!(refused("nodes = { a = b };"), ExpandFault::NamesWithoutGraph);
}

#[test]
fn graph_faults_are_found() {
    let with = |graph: &str| {
        refused(&format!("nodes = {{ a = x, b = y }}; graph = {{ {graph} }};"))
    };
    assert_eq!(with("input -> c; a -> output"), ExpandFault::UnknownNode);
    assert_eq!(with("output -> a; a -> output"), ExpandFault::OutputAsSource);
    assert_eq!(with("a -> input; a -> output"), ExpandFault::InputAsDestination);
    assert_eq!(with("a -> b; b -> output"), ExpandFault::InputUnused);
    assert_eq!(with("input -> a; a -> b"), ExpandFault::OutputUnused);
    assert_eq!(with("input -> a; a -> output"), ExpandFault::NodeWithoutInput { node: 1 });
    assert_eq!(with("input -> [a, b]; a -> output"), ExpandFault::NodeWithoutOutput { node: 1 });
    assert_eq!(with("input -> a; a -> b; b -> [a, output]"), ExpandFault::Cycle { node: 0 });
    let fault = with("input -> [a, b]; b -> b; [a, b] -> output");
    assert_eq!(fault, ExpandFault::Cycle { node: 1 });
    assert_eq!(fault.describe(), "graph cycles are not supported");
}

#[test]
fn state_faults_are_found() {
    let with = |graph: &str| {
        refused(&format!(
            "nodes = {{ a = x, e = external_node(u8, u8) }}; graph = {{ {graph} }}; return_state = u8;"
        ))
    };
    assert_eq!(with("input -> e; e -> a; a -> output; a -> output"), ExpandFault::StateProducers);
    assert_eq!(with("input -> a; a -> e; e -> output"), ExpandFault::StateUnmanaged);
    assert_eq!(with("input -> output"), ExpandFault::StateUnmanaged);
    assert_eq!(with("c -> output"), ExpandFault::UnknownNode);
}

#[test]
fn the_state_of_the_last_node_is_given_back() {
    let pipeline = parsed(
        "nodes = { a = x, b = anchor(node_with_state_merge(\"b\", B, m)) };
        graph = { input -> a; a -> b; b -> output; };
        return_state = u8;",
    );
    let (nodes, edges) = graph_parts(&pipeline);
    assert_eq!(find_state_node(nodes, edges), Ok(1));
    assert_eq!(named_return_state_mergeable(nodes, edges), Ok(true));
    assert_eq!(plan_expansion(&pipeline).unwrap().1, Some(true));
    assert_eq!(check_named_graph(nodes, edges), None);
    assert_eq!(detect_cycles(nodes, edges), None);
}

#[test]
fn links_are_what_edges_join() {
    let plan = wiring(DIAMOND);
    assert_eq!(plan.link_count, 4);
    let [widen, left, right, out] = plan.node_links[..] else {
        panic!("four nodes");
    };
    assert_eq!(widen.0, plan.input_link);
    assert_eq!(left.0, widen.1);
    assert_eq!(right.0, widen.1);
    assert_eq!(left.1, right.1);
    assert_eq!(out.0, left.1);
    assert_eq!(out.1, plan.output_link);
    let mut links = vec![widen.0, widen.1, out.0, out.1];
    links.sort();
    assert_eq!(links, [0, 1, 2, 3]);
}

#[test]
fn links_are_numbered_by_name() {
    let plan = wiring(
        "nodes = { a = x, z = y }; graph = { input -> z; z -> a; a -> output; };",
    );
    assert_eq!((plan.link_count, plan.input_link, plan.output_link), (3, 1, 0));
    assert_eq!(plan.node_links, [(2, 0), (1, 2)]);
}

#[test]
fn edges_that_share_an_end_share_a_link() {
    let pipeline = parsed(
        "nodes = { a = x, b = y }; graph = { input -> a; input -> b; a -> output; b -> output; };",
    );
    let (nodes, edges) = graph_parts(&pipeline);
    let plan = plan_wiring(nodes, edges);
    assert_eq!(plan.link_count, 2);
    assert_eq!(plan.node_links[0], plan.node_links[1]);
}

#[test]
fn merging_nodes_are_recognised() {
    let merges = |text: &str| expr_declares_state_merge(&stream(text));
    assert!(merges("node_with_state_merge(a, b, c)"));
    assert!(merges("::piper::node_with_state_merge(a, b, c)"));
    assert!(merges("anchor(node_with_state_merge(a, b, c)).max_threads(1)"));
    assert!(merges("(&node_with_state_merge(a, b, c))"));
    assert!(merges("make(node_with_state_merge(a, b, c))?"));
    assert!(!merges("node(a, b)"));
    assert!(!merges("node_with_state_merge"));
    assert!(!merges("{ node_with_state_merge(a, b, c) }"));
    assert!(!merges("x.node_with_state_merge(a)"));
    assert!(!merges("not an expression"));
    let merge = Some("node_with_state_merge".to_string());
    assert!(call_declares_state_merge(&merge, false, &vec![]));
    assert!(call_declares_state_merge(&None, true, &vec![]));
    assert!(call_declares_state_merge(&None, false, &vec![false, true]));
    assert!(!call_declares_state_merge(&Some("node".to_string()), false, &vec![false]));
}

#[test]
fn endpoints_have_keys() {
    let node = Endpoint::Node("a".to_string());
    assert_eq!(source_key(&Endpoint::Input), Ok("input:out".to_string()));
    assert_eq!(source_key(&node), Ok("a:out".to_string()));
    assert_eq!(source_key(&Endpoint::Output), Err(ExpandFault::OutputAsSource));
    assert_eq!(dest_key(&Endpoint::Output), Ok("output:in".to_string()));
    assert_eq!(dest_key(&node), Ok("a:in".to_string()));
    assert_eq!(dest_key(&Endpoint::Input), Err(ExpandFault::InputAsDestination));
    assert_eq!(validate_endpoint(&node, &vec![]), Err(ExpandFault::UnknownNode));
    assert_eq!(validate_endpoint(&Endpoint::Input, &vec![]), Ok(()));
}

#[test]
fn joined_keys_share_a_root() {
    let mut table = KeyTable::new();
    for key in ["a", "b", "c", "d"] {
        table.insert_key(key);
    }
    assert_eq!(table.len(), 4);
    assert_eq!(table.key(2), "c");
    assert_eq!(table.position("d"), Some(3));
    assert_eq!(table.position("e"), None);
    table.union(0, 1);
    table.union(1, 2);
    assert_eq!(table.find(2), 0);
    assert_eq!(table.find(1), 0);
    assert_eq!(table.find(3), 3);
    table.union(3, 2);
    assert_eq!(table.find(0), 3);
}

#[test]
fn identifiers_are_built_from_names() {
    assert_eq!(link_ident(12), "__piper_link_12");
    assert_eq!(external_ident("camera"), "__piper_external_camera");
    assert_eq!(run_ident("Sample"), "SampleRun");
}

/// A group with nothing around it that can be seen.
fn bare(text: &str) -> TokenStream {
    TokenStream::from(TokenTree::Group(Group::new(Delimiter::None, stream(text))))
}

/// A stream in which each `$` stands for the next of the groups.
fn with_groups(text: &str, groups: &[TokenStream]) -> TokenStream {
    fn fill(tokens: TokenStream, groups: &mut std::slice::Iter<TokenStream>) -> TokenStream {
        let mut filled = TokenStream::new();
        for token in tokens {
            match token {
                TokenTree::Punct(mark) if mark.as_char() == '$' => {
                    filled.extend(groups.next().unwrap().clone());
                }
                TokenTree::Group(group) => {
                    let inner = fill(group.stream(), groups);
                    filled.extend([TokenTree::Group(Group::new(group.delimiter(), inner))]);
                }
                other => filled.extend([other]),
            }
        }
        filled
    }
    fill(stream(text), &mut groups.iter())
}

#[test]
fn tokens_are_taken_off_the_front() {
    let (first, rest) = take_front(&stream("a -> (b)")).unwrap();
    assert!(matches!(first, Token::Word(text) if text == "a"));
    assert_eq!(text_of(&rest), "->(b)");
    let (second, rest) = take_front(&rest).unwrap();
    assert!(matches!(second, Token::Mark { text: '-', joint: true }));
    let (third, rest) = take_front(&rest).unwrap();
    assert!(matches!(third, Token::Mark { text: '>', joint: false }));
    let (last, rest) = take_front(&rest).unwrap();
    assert!(matches!(last, Token::Parentheses(inner) if text_of(&inner) == "b"));
    assert!(is_empty(&rest));
    assert!(take_front(&rest).is_none());
    assert_eq!(text_of(&copy_stream(&stream("x + 1"))), "x+1");
}

#[test]
fn each_kind_of_token_is_told_apart() {
    let (first, rest) = take_front(&stream("1.5 { a } [ b ]")).unwrap();
    assert!(matches!(first, Token::Value(text) if text == "1.5"));
    let (second, rest) = take_front(&rest).unwrap();
    assert!(matches!(second, Token::Braces(inner) if text_of(&inner) == "a"));
    let (third, _) = take_front(&rest).unwrap();
    assert!(matches!(third, Token::Brackets(inner) if text_of(&inner) == "b"));
}

#[test]
fn groups_that_cannot_be_seen_are_looked_into() {
    let nested = with_groups("$ c", &[with_groups("$ $ b", &[bare(""), bare("a")])]);
    let grouped = with_groups("$ c", &[TokenStream::from(TokenTree::Group(Group::new(Delimiter::None, nested)))]);
    let (first, rest) = take_front(&grouped).unwrap();
    assert!(matches!(first, Token::Word(text) if text == "a"));
    assert_eq!(text_of(&rest), "bcc");
    assert!(!is_empty(&bare("")));
    assert!(take_front(&bare("")).is_none());
}

#[test]
fn parts_of_a_declaration_may_stand_in_groups() {
    let linear = with_groups(
        "$ struct Sample { type Input = $; type Output = u16; type Error = E; config = $; nodes = $; }",
        &[bare("pub"), bare("u8"), bare("c + 1"), bare("[a, b]")],
    );
    let pipeline = parse_pipeline(&linear).unwrap();
    assert_eq!(text_of(&pipeline.vis), "pub");
    assert_eq!(text_of(&pipeline.input), "u8");
    assert_eq!(text_of(&pipeline.config), "c+1");
    let NodeDecls::Linear(runs) = &pipeline.nodes else {
        panic!("the nodes have no names");
    };
    assert_eq!(runs.iter().map(text_of).collect::<Vec<_>>(), ["a", "b"]);

    let named = with_groups(
        &declaration("Sample", "nodes = { a = $, $ , c = $.with_reusable_output(g) }; graph = $;"),
        &[
            bare("external_node(u8, u8).with_reusable_output(f)"),
            bare("b = node(1)"),
            bare("external_node(u8, u8)"),
            with_groups("$", &[bare("{ input -> a; a -> [b, c]; [b, c] -> output }")]),
        ],
    );
    let pipeline = parse_pipeline(&named).unwrap();
    assert_eq!(names(&pipeline), ["a", "b", "c"]);
    let (nodes, edges) = graph_parts(&pipeline);
    let factory = |node: &NamedNode| match &node.kind {
        NamedNodeKind::External { reusable_factory, .. } => {
            reusable_factory.as_ref().map(text_of)
        }
        NamedNodeKind::Managed(expr) => Some(format!("managed {}", text_of(expr))),
    };
    assert_eq!(factory(&nodes[0]), Some("f".to_string()));
    assert_eq!(factory(&nodes[1]), Some("managed node(1)".to_string()));
    assert_eq!(factory(&nodes[2]), Some("g".to_string()));
    assert_eq!(edges.len(), 3);
    assert_eq!(edges[1].to.len(), 2);

    let ends = with_groups(
        &declaration("Sample", "nodes = { a = b }; graph = { input -> $; $ -> output; };"),
        &[bare("[a]"), bare("a")],
    );
    let pipeline = parse_pipeline(&ends).unwrap();
    assert!(plan_expansion(&pipeline).is_ok());
}

#[test]
fn groups_in_which_nothing_is_are_no_separators() {
    let said = |text: &str, groups: &[TokenStream]| match parse_pipeline(&with_groups(text, groups)) {
        Ok(_) => "accepted".to_string(),
        Err(fault) => fault.describe(),
    };
    let empty = || bare("");
    let whole = |rest: &str| declaration("Sample", rest);
    assert_eq!(said(&whole("nodes = [a $];"), &[empty()]), "expected `,`");
    assert_eq!(said(&whole("nodes = [a $,];"), &[empty()]), "accepted");
    assert_eq!(said(&whole("nodes = [a] $;"), &[empty()]), "accepted");
    assert_eq!(said(&whole("nodes = [a]; $"), &[empty()]), "expected identifier");
    assert_eq!(said(&format!("{} $", whole("nodes = [a];")), &[empty()]), "accepted");
    assert_eq!(said(&format!("{} $", whole("nodes = [a];")), &[bare("x")]), "unexpected token");
    assert_eq!(said("struct A $", &[empty()]), "expected curly braces");
    assert_eq!(said(&whole("nodes = [x.$];"), &[bare("y, z")]), "accepted");
    assert_eq!(said(&whole("nodes = [$];"), &[bare("y, z")]), "unexpected token");
}

#[test]
fn refusals_name_what_is_missing() {
    let said = |text: &str| fault(text).describe();
    assert_eq!(said(""), "unexpected end of input, expected `struct`");
    assert_eq!(said("pub"), "unexpected end of input, expected `struct`");
    assert_eq!(said("enum A {}"), "expected `struct`");
    assert_eq!(said("struct"), "unexpected end of input, expected identifier");
    assert_eq!(said("struct 5 {}"), "expected identifier");
    assert_eq!(said("struct fn {}"), "expected identifier, found keyword `fn`");
    assert_eq!(said("struct A"), "unexpected end of input, expected curly braces");
    assert_eq!(said("struct A;"), "expected curly braces");
    assert_eq!(said("struct A {} x"), "missing `type Input = ...;`");
    assert_eq!(said(&format!("{} x", declaration("A", "nodes = [a];"))), "unexpected token");
    assert_eq!(said("struct A { config = a b; }"), "expected `;`");
    assert_eq!(said("struct A { config = a }"), "expected `;`");
    assert_eq!(said("struct A { config a }"), "expected `=`");
    assert_eq!(said("struct A { nodes = [a b]; }"), "expected `,`");
    assert_eq!(said("struct A { nodes = { a = b c }; }"), "expected `,`");
    assert_eq!(said("struct A { nodes = }"), "unexpected end of input, expected curly braces");
    assert_eq!(said("struct A { graph = { a b }; }"), "expected `->`");
    assert_eq!(said("struct A { graph = { a -> b c }; }"), "expected `;`");
    assert_eq!(
        said("struct A { nodes = { a = external_node(u8, u8 u8) }; }"),
        "expected exactly two external node types"
    );
    assert_eq!(
        said("struct A { nodes = { a = external_node(u8, u8).with_reusable_output }; }"),
        "unexpected end of input, expected parentheses"
    );
    assert_eq!(
        said("struct A { nodes = { a = external_node(u8, u8).with_reusable_output(f g) }; }"),
        "unexpected tokens in with_reusable_output"
    );
}

#[test]
fn five_forms_are_looked_through() {
    let inner = |part: ExprPart| look_through(part).map(|inner| text_of(&inner));
    let a = || stream("a");
    let found = Some("a".to_string());
    let method = ExprPart::MethodCall(a(), "m".to_string(), vec![stream("b")]);
    assert_eq!(inner(method), found);
    assert_eq!(inner(ExprPart::Paren(a())), found);
    assert_eq!(inner(ExprPart::Group(a())), found);
    assert_eq!(inner(ExprPart::Reference(a())), found);
    assert_eq!(inner(ExprPart::Try(a())), found);
    assert_eq!(inner(ExprPart::Call(a(), vec![])), None);
    assert_eq!(inner(ExprPart::Path(vec!["a".to_string()])), None);
    assert_eq!(inner(ExprPart::Other), None);
}

#[test]
fn a_path_is_known_by_its_last_identifier() {
    let path = ExprPart::Path(vec!["piper".to_string(), "node".to_string()]);
    assert_eq!(expr_path_last_ident(Some(path)), Some("node".to_string()));
    assert_eq!(expr_path_last_ident(Some(ExprPart::Path(vec![]))), None);
    assert_eq!(expr_path_last_ident(Some(ExprPart::Other)), None);
    assert_eq!(expr_path_last_ident(None), None);
}

#[test]
fn parts_tell_whether_states_can_be_merged() {
    let call = |callee: &str, args: &[&str]| {
        let args = args.iter().map(|arg| stream(arg)).collect();
        part_declares_state_merge(Some(ExprPart::Call(stream(callee), args)), 8)
    };
    assert!(call("piper::node_with_state_merge", &[]));
    assert!(call("anchor", &["1", "node_with_state_merge(a)"]));
    assert!(call("node_with_state_merge(a)", &[]));
    assert!(!call("node", &["node_with_state_merge"]));
    let merging = || stream("node_with_state_merge(a)");
    let method = ExprPart::MethodCall(merging(), "fixed_threads".to_string(), vec![]);
    assert!(part_declares_state_merge(Some(method), 8));
    let argument = ExprPart::MethodCall(stream("a"), "b".to_string(), vec![merging()]);
    assert!(!part_declares_state_merge(Some(argument), 8));
    assert!(part_declares_state_merge(Some(ExprPart::Group(merging())), 8));
    assert!(!part_declares_state_merge(Some(ExprPart::Other), 8));
    assert!(!part_declares_state_merge(None, 8));
    let group = TokenStream::from(TokenTree::Group(Group::new(Delimiter::None, merging())));
    assert!(expr_declares_state_merge(&group));
}

#[test]
fn nodes_in_a_row_are_added_one_by_one() {
    let code = plan_code(&parsed("nodes = [a, b];")).unwrap();
    assert_eq!(
        code.steps,
        [
            BuildStep::Input { link: 0 },
            BuildStep::AddNode { node: 0, input: 0, output: 1 },
            BuildStep::AddNode { node: 1, input: 1, output: 2 },
            BuildStep::Finish { output: 2, states: Returned::Nothing },
        ]
    );
    assert!(code.externals.is_empty());
    assert_eq!(code.states, Returned::Nothing);
    assert_eq!(
        expand_linear_graph(0, Returned::States),
        [BuildStep::Input { link: 0 }, BuildStep::Finish { output: 0, states: Returned::States }]
    );
}

#[test]
fn named_nodes_are_added_between_their_links() {
    let pipeline = parsed(
        "nodes = { z = x, e = external_node(u8, u8).with_reusable_output(f), m = external_node(u8, u8) };
        graph = { input -> z; z -> [e, m]; [e, m] -> output; };",
    );
    let code = plan_code(&pipeline).unwrap();
    assert_eq!(
        code.steps,
        [
            BuildStep::Input { link: 0 },
            BuildStep::Link { link: 1 },
            BuildStep::Link { link: 2 },
            BuildStep::AddNodeTo { node: 0, input: 0, output: 2 },
            BuildStep::AddExternalNodeTo { node: 1, input: 2, output: 1, reusable: true },
            BuildStep::AddExternalNodeTo { node: 2, input: 2, output: 1, reusable: false },
            BuildStep::Finish { output: 1, states: Returned::Nothing },
        ]
    );
    assert_eq!(code.externals, [1, 2]);
    let (nodes, edges) = graph_parts(&pipeline);
    let steps = expand_named_graph(nodes, &plan_wiring(nodes, edges), Returned::Nothing);
    assert_eq!(steps, code.steps);
}

#[test]
fn merged_states_are_offered_where_the_last_node_merges() {
    let states = |node: &str| {
        plan_code(&parsed(&format!("nodes = [{node}]; return_state = u8;"))).unwrap().states
    };
    assert_eq!(states("node(\"a\", A)"), Returned::States);
    assert_eq!(states("node_with_state_merge(\"a\", A, m)"), Returned::MergedStates);
    assert_eq!(plan_code(&parsed("nodes = { a = b };")).unwrap_err(), ExpandFault::NamesWithoutGraph);
}

#[test]
fn five_fields_make_a_declaration() {
    let some = |text: &str| Some(stream(text));
    let fields = |input, config| Fields {
        input,
        output: Some(stream("u16")),
        error: Some(stream("E")),
        config,
        nodes: Some(NodeDecls::Linear(vec![])),
        graph: None,
        return_state: None,
    };
    let made = complete(stream("pub"), "A".to_string(), fields(some("u8"), some("c()"))).unwrap();
    assert_eq!(made.name, "A");
    assert_eq!(text_of(&made.vis), "pub");
    assert_eq!(text_of(&made.input), "u8");
    assert_eq!(text_of(&made.config), "c()");
    let refused = |input, config| complete(stream(""), "A".to_string(), fields(input, config)).unwrap_err();
    assert!(matches!(refused(None, None), GrammarFault::MissingInput));
    assert!(matches!(refused(some("u8"), None), GrammarFault::MissingConfig));
}
