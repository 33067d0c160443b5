//! Whether an expression gives a node whose states can be merged.

use crate::text::same;
use crate::tokens::{
    copy_stream, expr_part, read_expr, shown_part, shown_streams, shown_text, stream_tokens, ExprPart, PartText,
    TokenText,
};
use proc_macro2::TokenStream;
use vstd::prelude::*;

verus! {

/// The last identifier of an expression that is a path.
pub open spec fn last_ident(part: Option<PartText>) -> Option<Seq<char>> {
    match part {
        Some(PartText::Path(segments)) => if segments.len() > 0 {
            Some(segments.last())
        } else {
            None
        },
        _ => None,
    }
}

/// The last identifier of an expression that is a path.
pub fn expr_path_last_ident(part: Option<ExprPart>) -> (r: Option<String>)
    ensures
        shown_text(r) == last_ident(shown_part(part)),
{
    match part {
        Some(ExprPart::Path(segments)) => {
            let ghost texts = segments@.map_values(|s: String| s@);
            assert(shown_part(part) == Some(PartText::Path(texts)));
            let count: usize = segments.len();
            if count == 0 {
                return None;
            }
            assert(texts.last() == segments@[count - 1]@);
            Some(segments[count - 1].clone())
        },
        _ => None,
    }
}

/// Whether a call gives a node whose states can be merged: the function that makes one is called, or
/// what is called, or an argument, gives one.
pub open spec fn call_merges(name: Option<Seq<char>>, callee: bool, args: Seq<bool>) -> bool {
    name == Some("node_with_state_merge"@) || callee || args.contains(true)
}

/// Whether a call gives a node whose states can be merged. `name` is the last identifier of the path that
/// is called, and the others tell whether what is called, and each argument, gives one.
pub fn call_declares_state_merge(name: &Option<String>, callee: bool, args: &Vec<bool>) -> (r: bool)
    ensures
        r == call_merges(shown_text(*name), callee, args@),
{
    if let Some(name) = name {
        if same(name.as_str(), "node_with_state_merge") {
            return true;
        }
    }
    if callee {
        return true;
    }
    for i in 0..args.len()
        invariant
            forall|k: int| 0 <= k < i ==> !#[trigger] args@[k],
    {
        if args[i] {
            assert(args@[i as int]);
            return true;
        }
    }
    false
}

/// The expression that another is made of, where it is looked through: what a method is called on, what
/// stands in parentheses or in a group, what is referred to, and what is tried.
pub open spec fn looked_through(part: PartText) -> Option<Seq<TokenText>> {
    match part {
        PartText::MethodCall(receiver, method, args) => Some(receiver),
        PartText::Paren(inner) => Some(inner),
        PartText::Group(inner) => Some(inner),
        PartText::Reference(inner) => Some(inner),
        PartText::Try(inner) => Some(inner),
        PartText::Call(callee, args) => None,
        PartText::Path(segments) => None,
        PartText::Other => None,
    }
}

/// The expression that another is made of, where it is looked through.
pub fn look_through(part: ExprPart) -> (r: Option<TokenStream>)
    ensures
        match looked_through(part@) {
            Some(inner) => r matches Some(stream) && stream_tokens(stream) == inner,
            None => r is None,
        },
{
    match part {
        ExprPart::MethodCall(receiver, _, _) => Some(receiver),
        ExprPart::Paren(inner) => Some(inner),
        ExprPart::Group(inner) => Some(inner),
        ExprPart::Reference(inner) => Some(inner),
        ExprPart::Try(inner) => Some(inner),
        ExprPart::Call(_, _) => None,
        ExprPart::Path(_) => None,
        ExprPart::Other => None,
    }
}

/// Whether what the part stands for gives a node whose states can be merged, where the expressions in it
/// are nested at most `depth` deep.
pub open spec fn part_merges(part: Option<PartText>, depth: nat) -> bool
    decreases depth, 2nat,
{
    match part {
        None => false,
        Some(PartText::Call(callee, args)) => call_merges(
            last_ident(expr_part(callee)),
            declares_merge(callee, depth),
            each_declares(args, depth),
        ),
        Some(part) => match looked_through(part) {
            Some(inner) => declares_merge(inner, depth),
            None => false,
        },
    }
}

/// Whether an expression that is nested at most `depth` deep gives a node whose states can be merged.
pub open spec fn declares_merge(tokens: Seq<TokenText>, depth: nat) -> bool
    decreases depth, 0nat,
{
    depth > 0 && part_merges(expr_part(tokens), (depth - 1) as nat)
}

/// Whether each of these expressions gives a node whose states can be merged.
pub open spec fn each_declares(exprs: Seq<Seq<TokenText>>, depth: nat) -> Seq<bool>
    decreases depth, 1nat,
{
    Seq::new(exprs.len(), |i: int| declares_merge(exprs[i], depth))
}

/// Whether what the part stands for gives a node whose states can be merged, where the expressions in it
/// are nested at most `depth` deep.
pub fn part_declares_state_merge(part: Option<ExprPart>, depth: usize) -> (r: bool)
    ensures
        r == part_merges(shown_part(part), depth as nat),
    decreases depth, 1nat,
{
    match part {
        None => false,
        Some(ExprPart::Call(callee, args)) => {
            let ghost texts = shown_streams(args@);
            assert(shown_part(part) == Some(
                PartText::Call(stream_tokens(callee), texts),
            ));
            let name: Option<String> = expr_path_last_ident(read_expr(copy_stream(&callee)));
            let called: bool = declares_merge_within(&callee, depth);
            let mut merging: Vec<bool> = Vec::new();
            for i in 0..args.len()
                invariant
                    merging@.len() == i,
                    forall|k: int|
                        0 <= k < i ==> #[trigger] merging@[k] == declares_merge(
                            stream_tokens(args@[k]),
                            depth as nat,
                        ),
            {
                merging.push(declares_merge_within(&args[i], depth));
            }
            assert(merging@ == each_declares(texts, depth as nat));
            call_declares_state_merge(&name, called, &merging)
        },
        Some(part) => match look_through(part) {
            Some(inner) => declares_merge_within(&inner, depth),
            None => false,
        },
    }
}

fn declares_merge_within(stream: &TokenStream, depth: usize) -> (r: bool)
    ensures
        r == declares_merge(stream_tokens(*stream), depth as nat),
    decreases depth, 0nat,
{
    if depth == 0 {
        return false;
    }
    part_declares_state_merge(read_expr(copy_stream(stream)), depth - 1)
}

/// How deep expressions can be nested: no deeper than there are places in memory.
pub open spec fn deepest() -> nat {
    usize::MAX as nat
}

/// Whether an expression gives a node whose states can be merged.
pub fn expr_declares_state_merge(stream: &TokenStream) -> (r: bool)
    ensures
        r == declares_merge(stream_tokens(*stream), deepest()),
{
    declares_merge_within(stream, usize::MAX)
}

/// A bound on how deep expressions are nested only leaves out those that are nested deeper: what is found
/// under one bound is found under every greater one.
pub proof fn deeper_finds_more(tokens: Seq<TokenText>, depth: nat, deeper: nat)
    requires
        depth <= deeper,
        declares_merge(tokens, depth),
    ensures
        declares_merge(tokens, deeper),
    decreases depth,
{
    let (d, e) = ((depth - 1) as nat, (deeper - 1) as nat);
    match expr_part(tokens) {
        Some(PartText::Call(callee, args)) => {
            if declares_merge(callee, d) {
                deeper_finds_more(callee, d, e);
            }
            if each_declares(args, d).contains(true) {
                let i = choose|i: int|
                    0 <= i < args.len() && each_declares(args, d)[i] == true;
                deeper_finds_more(args[i], d, e);
                assert(each_declares(args, e)[i]);
            }
        },
        Some(part) => {
            if let Some(inner) = looked_through(part) {
                deeper_finds_more(inner, d, e);
            }
        },
        None => {},
    }
}

} // verus!
