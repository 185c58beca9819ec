use std::collections::HashMap;

use trace::args::{Args, Filter, Lit, Meta, NestedMeta, Path};
use trace::block::{construct_traced_block, entering_format_of, exiting_format_of, extract_arg_idents};
use trace::filter::AttrApplied;
use trace::syntax::{Block, FnArg, Pat, Signature, Sink, Step, TransformError};

fn s(x: &str) -> String {
    x.to_string()
}

fn config(tokens: Vec<NestedMeta>) -> Args {
    Args::from_raw_args(tokens).unwrap()
}

fn string_opt(name: &str, value: &str) -> NestedMeta {
    NestedMeta::Meta(Meta::NameValue(Path { segments: vec![s(name)] }, Lit::Str(s(value))))
}

fn flag(name: &str) -> NestedMeta {
    NestedMeta::Meta(Meta::Path(Path { segments: vec![s(name)] }))
}

fn name_list(name: &str, entries: &[&str]) -> NestedMeta {
    NestedMeta::Meta(Meta::List(
        Path { segments: vec![s(name)] },
        entries.iter().map(|e| flag(e)).collect(),
    ))
}

fn ident(x: &str) -> FnArg {
    FnArg::Typed(Pat::Ident(s(x)))
}

fn sig(name: &str, inputs: Vec<FnArg>) -> Signature {
    Signature { ident: s(name), inputs }
}

fn traced_steps(b: Block<u32>) -> (Vec<Step>, Block<u32>) {
    match b {
        Block::Traced(steps, inner) => (steps, *inner),
        Block::Plain(_) => panic!("expected a traced body"),
    }
}

/// Fills a log format the way the traced body does at run time: the depth
/// as indentation width, then `{:?}`/`{:#?}` slots in order.
fn render(format: &str, depth: usize, values: &[String]) -> String {
    let rest = format.strip_prefix("{:depth$}").unwrap();
    let mut out = " ".repeat(depth);
    let mut vs = values.iter();
    let mut i = 0;
    while i < rest.len() {
        if rest[i..].starts_with("{:?}") {
            out.push_str(vs.next().unwrap());
            i += 4;
        } else if rest[i..].starts_with("{:#?}") {
            out.push_str(vs.next().unwrap());
            i += 5;
        } else {
            let c = rest[i..].chars().next().unwrap();
            out.push(c);
            i += c.len_utf8();
        }
    }
    out
}

/// Runs traced steps with the given argument values; `body` runs at the
/// depth it is handed and gives back its result as text.
fn run(
    steps: &[Step],
    values: &HashMap<String, String>,
    depth: &mut usize,
    lines: &mut Vec<String>,
    body: &mut dyn FnMut(&mut usize, &mut Vec<String>) -> String,
) -> String {
    let mut kept = String::new();
    for step in steps {
        match step {
            Step::Entry { format, args, .. } => {
                let vs: Vec<String> = args.iter().map(|a| values[a].clone()).collect();
                lines.push(render(format, *depth, &vs));
            }
            Step::Pause => lines.push(s("<pause>")),
            Step::Enter => *depth += 1,
            Step::Run => kept = body(depth, lines),
            Step::Leave => *depth -= 1,
            Step::Exit { format, .. } => lines.push(render(format, *depth, &[kept.clone()])),
            Step::Yield => return kept,
        }
    }
    panic!("no value given back")
}

#[test]
fn default_formats() {
    let a = config(vec![]);
    let names = vec![s("a"), s("b")];
    assert_eq!(entering_format_of(&a, &s("foo"), &names), "{:depth$}[+] Entering foo(a = {:?}, b = {:?})");
    assert_eq!(exiting_format_of(&a, &s("foo")), "{:depth$}[-] Exiting foo = {:?}");
    assert_eq!(entering_format_of(&a, &s("f"), &vec![]), "{:depth$}[+] Entering f()");
}

#[test]
fn pretty_formats() {
    let a = config(vec![flag("pretty")]);
    assert_eq!(entering_format_of(&a, &s("f"), &vec![s("x")]), "{:depth$}[+] Entering f(x = {:#?})");
    assert_eq!(exiting_format_of(&a, &s("f")), "{:depth$}[-] Exiting f = {:#?}");
}

#[test]
fn tuple_parameters_are_taken_apart() {
    let a = config(vec![]);
    let sg = sig(
        "bar",
        vec![
            FnArg::Receiver,
            FnArg::Typed(Pat::Tuple(vec![Pat::Ident(s("a")), Pat::Tuple(vec![Pat::Ident(s("b")), Pat::Ident(s("c"))])])),
            ident("d"),
        ],
    );
    assert_eq!(extract_arg_idents(&a, AttrApplied::Directly, &sg), Some(vec![s("a"), s("b"), s("c"), s("d")]));
}

#[test]
fn unsupported_pattern_is_refused() {
    let a = config(vec![]);
    let sg = sig("f", vec![ident("a"), FnArg::Typed(Pat::Tuple(vec![Pat::Other]))]);
    assert_eq!(extract_arg_idents(&a, AttrApplied::Directly, &sg), None);
    let r = construct_traced_block(&a, AttrApplied::Directly, &sg, Block::Plain(7u32));
    assert_eq!(r, Err(TransformError::UnsupportedPattern(s("f"))));
}

#[test]
fn disable_omits_argument() {
    let a = config(vec![name_list("disable", &["b"])]);
    let sg = sig("f", vec![ident("a"), ident("b")]);
    assert_eq!(extract_arg_idents(&a, AttrApplied::Directly, &sg), Some(vec![s("a")]));
    let (steps, inner) = traced_steps(construct_traced_block(&a, AttrApplied::Directly, &sg, Block::Plain(1u32)).unwrap());
    assert_eq!(inner, Block::Plain(1));
    assert_eq!(
        steps[0],
        Step::Entry { sink: Sink::Console, format: s("{:depth$}[+] Entering f(a = {:?})"), args: vec![s("a")] }
    );
}

#[test]
fn argument_filter_only_applies_directly() {
    let a = config(vec![name_list("enable", &["x"])]);
    let sg = sig("f", vec![ident("x"), ident("y")]);
    assert_eq!(extract_arg_idents(&a, AttrApplied::Directly, &sg), Some(vec![s("x")]));
    assert_eq!(extract_arg_idents(&a, AttrApplied::Indirectly, &sg), Some(vec![s("x"), s("y")]));
}

#[test]
fn steps_in_order() {
    let a = config(vec![]);
    let sg = sig("foo", vec![ident("a")]);
    let (steps, _) = traced_steps(construct_traced_block(&a, AttrApplied::Directly, &sg, Block::Plain(0u32)).unwrap());
    assert_eq!(
        steps,
        vec![
            Step::Entry { sink: Sink::Console, format: s("{:depth$}[+] Entering foo(a = {:?})"), args: vec![s("a")] },
            Step::Enter,
            Step::Run,
            Step::Leave,
            Step::Exit { sink: Sink::Console, format: s("{:depth$}[-] Exiting foo = {:?}") },
            Step::Yield,
        ]
    );
}

#[test]
fn pause_and_logging_steps() {
    let a = config(vec![flag("pause"), flag("logging")]);
    let sg = sig("g", vec![]);
    let (steps, _) = traced_steps(construct_traced_block(&a, AttrApplied::Directly, &sg, Block::Plain(0u32)).unwrap());
    assert_eq!(
        steps,
        vec![
            Step::Entry { sink: Sink::Log, format: s("{:depth$}[+] Entering g()"), args: vec![] },
            Step::Pause,
            Step::Enter,
            Step::Run,
            Step::Leave,
            Step::Exit { sink: Sink::Log, format: s("{:depth$}[-] Exiting g = {:?}") },
            Step::Pause,
            Step::Yield,
        ]
    );
}

#[test]
fn foo_calls_bar_output() {
    let foo_args = config(vec![]);
    let bar_args = config(vec![string_opt("prefix_enter", "[ENTER]"), string_opt("prefix_exit", "[EXIT]")]);
    let foo_sig = sig("foo", vec![ident("a"), ident("b")]);
    let bar_sig = sig("bar", vec![FnArg::Typed(Pat::Tuple(vec![Pat::Ident(s("a")), Pat::Ident(s("b"))]))]);
    let (foo_steps, _) =
        traced_steps(construct_traced_block(&foo_args, AttrApplied::Directly, &foo_sig, Block::Plain(0u32)).unwrap());
    let (bar_steps, _) =
        traced_steps(construct_traced_block(&bar_args, AttrApplied::Directly, &bar_sig, Block::Plain(0u32)).unwrap());

    let mut values = HashMap::new();
    values.insert(s("a"), s("1"));
    values.insert(s("b"), s("2"));
    let mut depth = 0usize;
    let mut lines = Vec::new();
    let result = run(&foo_steps, &values, &mut depth, &mut lines, &mut |d, ls| {
        ls.push(s("I'm in foo!"));
        run(&bar_steps, &values, d, ls, &mut |_, ls2| {
            ls2.push(s("I'm in bar!"));
            s("2")
        });
        s("()")
    });
    assert_eq!(result, "()");
    assert_eq!(depth, 0);
    assert_eq!(
        lines,
        vec![
            s("[+] Entering foo(a = 1, b = 2)"),
            s("I'm in foo!"),
            s(" [ENTER] Entering bar(a = 1, b = 2)"),
            s("I'm in bar!"),
            s(" [EXIT] Exiting bar = 2"),
            s("[-] Exiting foo = ()"),
        ]
    );
}

#[test]
fn nested_chain_indents_one_level_per_call() {
    let a = config(vec![]);
    let mk = |name: &str| {
        traced_steps(construct_traced_block(&a, AttrApplied::Directly, &sig(name, vec![]), Block::Plain(0u32)).unwrap()).0
    };
    let (sa, sb, sc) = (mk("a"), mk("b"), mk("c"));
    let values = HashMap::new();
    let mut depth = 0usize;
    let mut lines = Vec::new();
    let result = run(&sa, &values, &mut depth, &mut lines, &mut |d, ls| {
        run(&sb, &values, d, ls, &mut |d2, ls2| run(&sc, &values, d2, ls2, &mut |_, _| s("42")))
    });
    assert_eq!(result, "42");
    assert_eq!(
        lines,
        vec![
            s("[+] Entering a()"),
            s(" [+] Entering b()"),
            s("  [+] Entering c()"),
            s("  [-] Exiting c = 42"),
            s(" [-] Exiting b = 42"),
            s("[-] Exiting a = 42"),
        ]
    );
}

#[test]
fn traced_body_gives_back_original_value() {
    let a = config(vec![]);
    let (steps, inner) =
        traced_steps(construct_traced_block(&a, AttrApplied::Directly, &sig("f", vec![]), Block::Plain(5u32)).unwrap());
    assert_eq!(inner, Block::Plain(5));
    let values = HashMap::new();
    let mut depth = 3usize;
    let mut lines = Vec::new();
    let result = run(&steps, &values, &mut depth, &mut lines, &mut |d, _| format!("ran at {}", d));
    assert_eq!(result, "ran at 4");
    assert_eq!(depth, 3);
}

#[test]
fn filter_enable_lists_are_sets_of_names() {
    let a = config(vec![name_list("enable", &["a", "a"])]);
    assert_eq!(a.filter, Filter::Enable(vec![s("a"), s("a")]));
    let sg = sig("f", vec![ident("a"), ident("b")]);
    assert_eq!(extract_arg_idents(&a, AttrApplied::Directly, &sg), Some(vec![s("a")]));
}
