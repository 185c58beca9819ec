use trace::args::{Args, Diagnostic, Lit, Location, Meta, NestedMeta, Path};
use trace::syntax::{Block, FnArg, ImplItem, Item, ItemFn, ItemImpl, ItemMod, ItemStatic, Pat, Signature, Step, TransformError};
use trace::transform::{expand_impl_item, expand_item, transform_item};
use trace::filter::AttrApplied;
use trace::{init_depth_var, trace, Annotated, TraceError};

fn s(x: &str) -> String {
    x.to_string()
}

fn flag(name: &str) -> NestedMeta {
    NestedMeta::Meta(Meta::Path(Path { segments: vec![s(name)] }))
}

fn name_list(name: &str, entries: &[&str]) -> NestedMeta {
    NestedMeta::Meta(Meta::List(
        Path { segments: vec![s(name)] },
        entries.iter().map(|e| flag(e)).collect(),
    ))
}

fn config(tokens: Vec<NestedMeta>) -> Args {
    Args::from_raw_args(tokens).unwrap()
}

fn func(name: &str, params: &[&str], body: u32) -> ItemFn<u32> {
    ItemFn {
        src: body,
        sig: Signature { ident: s(name), inputs: params.iter().map(|p| FnArg::Typed(Pat::Ident(s(p)))).collect() },
        annotated: false,
        block: Block::Plain(body),
    }
}

fn module(name: &str, items: Vec<Item<u32>>) -> ItemMod<u32> {
    ItemMod { src: 0, ident: s(name), annotated: false, content: Some(items) }
}

fn is_traced(f: &ItemFn<u32>) -> bool {
    matches!(f.block, Block::Traced(_, _))
}

fn entry_args(f: &ItemFn<u32>) -> Vec<String> {
    match &f.block {
        Block::Traced(steps, _) => match &steps[0] {
            Step::Entry { args, .. } => args.clone(),
            _ => panic!("entry step first"),
        },
        Block::Plain(_) => panic!("not traced"),
    }
}

fn as_fn(i: &Item<u32>) -> &ItemFn<u32> {
    match i {
        Item::Fn(f) => f,
        _ => panic!("expected a function"),
    }
}

fn content(i: &Item<u32>) -> &Vec<Item<u32>> {
    match i {
        Item::Mod(m) => m.content.as_ref().unwrap(),
        _ => panic!("expected a module"),
    }
}

fn depth_static(mutable: bool, thread_local: bool, ty: &str, init: &str) -> Item<u32> {
    Item::Static(ItemStatic { src: 9, ident: s("DEPTH"), mutable, thread_local, ty: s(ty), init: s(init) })
}

#[test]
fn enable_on_impl_traces_only_listed_methods() {
    let a = config(vec![name_list("enable", &["bar"])]);
    let im = ItemImpl {
        src: 0,
        annotated: false,
        items: vec![ImplItem::Method(func("foo", &["x"], 1)), ImplItem::Method(func("bar", &["y"], 2))],
    };
    let out = expand_item(&a, Item::Impl(im)).unwrap();
    match out {
        Item::Impl(o) => {
            assert_eq!(o.items[0], ImplItem::Method(func("foo", &["x"], 1)));
            match &o.items[1] {
                ImplItem::Method(g) => {
                    assert!(is_traced(g));
                    assert_eq!(entry_args(g), vec![s("y")]);
                }
                _ => panic!("expected a method"),
            }
        }
        _ => panic!("expected an impl"),
    }
}

#[test]
fn disable_on_function_omits_argument() {
    let a = config(vec![name_list("disable", &["b"])]);
    let out = expand_item(&a, Item::Fn(func("f", &["a", "b"], 3))).unwrap();
    let g = as_fn(&out);
    assert!(is_traced(g));
    assert_eq!(entry_args(g), vec![s("a")]);
    assert_eq!(g.sig, func("f", &["a", "b"], 3).sig);
}

#[test]
fn disable_on_function_names_its_arguments_not_itself() {
    let a = config(vec![name_list("disable", &["f"])]);
    let out = expand_item(&a, Item::Fn(func("f", &["a", "b"], 3))).unwrap();
    assert!(is_traced(as_fn(&out)));
    assert_eq!(entry_args(as_fn(&out)), vec![s("a"), s("b")]);
}

#[test]
fn module_gets_counter_and_traced_children() {
    let a = config(vec![]);
    let m = module("m", vec![Item::Fn(func("f", &["x"], 1)), Item::Other(5)]);
    let out = expand_item(&a, Item::Mod(m)).unwrap();
    let items = content(&out);
    assert_eq!(items.len(), 3);
    assert_eq!(items[0], Item::DepthCounter);
    assert!(is_traced(as_fn(&items[1])));
    assert_eq!(entry_args(as_fn(&items[1])), vec![s("x")]);
    assert_eq!(items[2], Item::Other(5));
}

#[test]
fn module_filter_picks_children_by_name() {
    let a = config(vec![name_list("disable", &["g"])]);
    let m = module("m", vec![Item::Fn(func("f", &[], 1)), Item::Fn(func("g", &[], 2))]);
    let out = expand_item(&a, Item::Mod(m)).unwrap();
    let items = content(&out);
    assert!(is_traced(as_fn(&items[1])));
    assert_eq!(items[2], Item::Fn(func("g", &[], 2)));
}

#[test]
fn nested_modules_are_rewritten() {
    let a = config(vec![]);
    let inner = module("inner", vec![Item::Fn(func("h", &[], 1))]);
    let outer = module("outer", vec![Item::Mod(inner)]);
    let out = expand_item(&a, Item::Mod(outer)).unwrap();
    let inner_items = content(&content(&out)[1]);
    assert_eq!(inner_items[0], Item::DepthCounter);
    assert!(is_traced(as_fn(&inner_items[1])));
}

#[test]
fn nested_module_filtered_out_stays() {
    let a = config(vec![name_list("enable", &["f"])]);
    let inner = module("inner", vec![Item::Fn(func("f", &[], 1))]);
    let outer = module("outer", vec![Item::Mod(inner), Item::Fn(func("f", &[], 2))]);
    let out = expand_item(&a, Item::Mod(outer)).unwrap();
    let items = content(&out);
    assert_eq!(items[1], Item::Mod(module("inner", vec![Item::Fn(func("f", &[], 1))])));
    assert!(is_traced(as_fn(&items[2])));
}

#[test]
fn child_with_own_annotation_is_left_to_it() {
    let a = config(vec![]);
    let mut own = func("f", &["x"], 1);
    own.annotated = true;
    let m = module("m", vec![Item::Fn(own)]);
    let out = expand_item(&a, Item::Mod(m)).unwrap();
    let items = content(&out);
    let f = as_fn(&items[1]);
    assert!(f.annotated);
    assert!(!is_traced(f));
}

#[test]
fn declared_counter_is_kept() {
    let a = config(vec![]);
    let m = module(
        "m",
        vec![
            depth_static(false, true, "::std::cell::Cell < usize >", "::std::cell::Cell::new (0)"),
            Item::Fn(func("f", &[], 1)),
        ],
    );
    let out = expand_item(&a, Item::Mod(m)).unwrap();
    let items = content(&out);
    assert_eq!(items.len(), 2);
    assert!(is_traced(as_fn(&items[1])));
}

#[test]
fn counter_macro_is_kept() {
    let a = config(vec![]);
    let m = module("m", vec![Item::Macro(4, s("init_depth_var")), Item::Fn(func("f", &[], 1))]);
    let out = expand_item(&a, Item::Mod(m)).unwrap();
    assert_eq!(content(&out).len(), 2);
}

#[test]
fn mutable_counter_is_refused() {
    let a = config(vec![]);
    let m = module("m", vec![depth_static(true, false, "usize", "0")]);
    assert_eq!(expand_item(&a, Item::Mod(m)), Err(TransformError::CounterMismatch(s("m"))));
}

#[test]
fn counter_with_other_start_is_refused() {
    let a = config(vec![]);
    let m = module("m", vec![depth_static(false, true, "Cell<usize>", "Cell::new(1)")]);
    assert_eq!(expand_item(&a, Item::Mod(m)), Err(TransformError::CounterMismatch(s("m"))));
}

#[test]
fn counter_with_other_type_is_refused() {
    let a = config(vec![]);
    let m = module("m", vec![depth_static(false, true, "Cell<u32>", "Cell::new(0)")]);
    assert_eq!(expand_item(&a, Item::Mod(m)), Err(TransformError::CounterMismatch(s("m"))));
}

#[test]
fn module_without_body_is_refused() {
    let a = config(vec![]);
    let m = ItemMod { src: 0, ident: s("file_mod"), annotated: false, content: None };
    assert_eq!(expand_item(&a, Item::Mod(m)), Err(TransformError::ModWithoutBody(s("file_mod"))));
}

#[test]
fn first_failing_child_is_reported() {
    let a = config(vec![]);
    let mut bad1 = func("p", &[], 1);
    bad1.sig.inputs.push(FnArg::Typed(Pat::Other));
    let mut bad2 = func("q", &[], 2);
    bad2.sig.inputs.push(FnArg::Typed(Pat::Other));
    let m = module("m", vec![Item::Fn(func("ok", &[], 0)), Item::Fn(bad1), Item::Fn(bad2)]);
    assert_eq!(expand_item(&a, Item::Mod(m)), Err(TransformError::UnsupportedPattern(s("p"))));
}

#[test]
fn unsupported_declarations_are_refused() {
    let a = config(vec![]);
    assert_eq!(expand_item(&a, Item::Other(1u32)), Err(TransformError::UnsupportedItem));
    assert_eq!(expand_item(&a, Item::Macro(1u32, s("m"))), Err(TransformError::UnsupportedItem));
    assert_eq!(expand_impl_item(&a, ImplItem::Other(1u32)), Err(TransformError::UnsupportedImplItem));
}

#[test]
fn other_declarations_in_module_stay() {
    let a = config(vec![]);
    assert_eq!(transform_item(&a, AttrApplied::Indirectly, Item::Other(8u32)), Ok(Item::Other(8)));
}

#[test]
fn method_annotated_directly_filters_arguments() {
    let a = config(vec![name_list("enable", &["y"])]);
    let out = expand_impl_item(&a, ImplItem::Method(func("m", &["x", "y"], 1))).unwrap();
    match out {
        ImplItem::Method(g) => assert_eq!(entry_args(&g), vec![s("y")]),
        _ => panic!("expected a method"),
    }
}

#[test]
fn trace_reports_option_diagnostics() {
    let r = trace(vec![flag("bogus")], Annotated::Item(Item::Fn(func("f", &[], 1))));
    assert_eq!(
        r,
        Err(TraceError::Options(vec![Diagnostic { at: Location::Name(0), message: s("unknown attribute argument `bogus`") }]))
    );
}

#[test]
fn trace_rewrites_function() {
    let r = trace(
        vec![NestedMeta::Meta(Meta::NameValue(Path { segments: vec![s("prefix_enter")] }, Lit::Str(s(">>"))))],
        Annotated::Item(Item::Fn(func("f", &["a"], 1))),
    )
    .unwrap();
    match r {
        Annotated::Item(Item::Fn(g)) => match &g.block {
            Block::Traced(steps, inner) => {
                assert_eq!(**inner, Block::Plain(1));
                match &steps[0] {
                    Step::Entry { format, .. } => assert_eq!(format, "{:depth$}>> Entering f(a = {:?})"),
                    _ => panic!("entry step first"),
                }
            }
            _ => panic!("not traced"),
        },
        _ => panic!("expected a function"),
    }
}

#[test]
fn trace_refuses_unsupported_declaration() {
    let r = trace(vec![], Annotated::Item(Item::Other(1u32)));
    assert_eq!(r, Err(TraceError::Declaration(TransformError::UnsupportedItem)));
}

#[test]
fn counter_declaration_takes_no_arguments() {
    assert_eq!(init_depth_var::<u32>(true), Some(Item::DepthCounter));
    assert_eq!(init_depth_var::<u32>(false), None);
}
