//! The recursive rewriting of an annotated declaration: functions get a
//! traced body, modules and `impl` blocks pass the configuration on to the
//! functions inside them.
use vstd::prelude::*;
use crate::args::{Args, ArgsView, FilterView};
use crate::block::{construct_traced_block, kept_names, signature_names, steps_view, traced_steps};
use crate::counter::{find_counter, has_bad_counter, has_counter};
use crate::filter::{included, should_include, AttrApplied};
use crate::syntax::{Block, ImplItem, Item, ItemFn, ItemImpl, ItemMod, TransformError};

verus! {

broadcast use vstd::std_specs::vec::group_vec_axioms;

/// Whether a declaration named `name` is rewritten: always where the
/// annotation sits on it; inside an annotated container, only where it
/// carries no annotation of its own (that one takes over) and the filter
/// lets its name through.
pub open spec fn visits(filter: FilterView, applied: AttrApplied, annotated: bool, name: Seq<char>) -> bool {
    applied == AttrApplied::Directly || (!annotated && included(filter, applied, AttrApplied::Indirectly, name))
}

/// Whether an `impl` block, which has no name, is rewritten.
pub open spec fn visits_impl(applied: AttrApplied, annotated: bool) -> bool {
    applied == AttrApplied::Directly || !annotated
}

// ---------------------------------------------------------------------------
// When the rewriting fails
pub open spec fn fn_error<B>(args: ArgsView, applied: AttrApplied, f: ItemFn<B>) -> Option<TransformError> {
    if visits(args.filter, applied, f.annotated, f.sig.ident@) && signature_names(f.sig) is None {
        Some(TransformError::UnsupportedPattern(f.sig.ident))
    } else {
        None
    }
}

/// The first error met in rewriting `item`, children in order, if any.
pub open spec fn item_error<B>(args: ArgsView, applied: AttrApplied, item: Item<B>) -> Option<TransformError>
    decreases item, 0int,
{
    match item {
        Item::Fn(f) => fn_error(args, applied, f),
        Item::Mod(m) => if visits(args.filter, applied, m.annotated, m.ident@) {
            match m.content {
                None => Some(TransformError::ModWithoutBody(m.ident)),
                Some(items) => if has_bad_counter(items@) {
                    Some(TransformError::CounterMismatch(m.ident))
                } else {
                    items_error(args, items@, items@.len() as int)
                },
            }
        } else {
            None
        },
        Item::Impl(im) => if visits_impl(applied, im.annotated) {
            methods_error(args, im.items@, im.items@.len() as int)
        } else {
            None
        },
        _ => None,
    }
}

/// The first error met among the first `n` children of a module.
pub open spec fn items_error<B>(args: ArgsView, items: Seq<Item<B>>, n: int) -> Option<TransformError>
    decreases items, n,
{
    if n <= 0 || n > items.len() {
        None
    } else {
        match items_error(args, items, n - 1) {
            Some(e) => Some(e),
            None => item_error(args, AttrApplied::Indirectly, items[n - 1]),
        }
    }
}

/// The first error met among the first `n` entries of an `impl` block.
pub open spec fn methods_error<B>(args: ArgsView, items: Seq<ImplItem<B>>, n: int) -> Option<TransformError>
    decreases n,
{
    if n <= 0 || n > items.len() {
        None
    } else {
        match methods_error(args, items, n - 1) {
            Some(e) => Some(e),
            None => match items[n - 1] {
                ImplItem::Method(f) => fn_error(args, AttrApplied::Indirectly, f),
                ImplItem::Other(_) => None,
            },
        }
    }
}

// ---------------------------------------------------------------------------
// What the rewriting gives
/// `g` is `f` rewritten: its body traced where `f` is visited, with the
/// arguments that pass the filter; `f` itself elsewhere.
pub open spec fn fn_ok<B>(args: ArgsView, applied: AttrApplied, f: ItemFn<B>, g: ItemFn<B>) -> bool {
    if visits(args.filter, applied, f.annotated, f.sig.ident@) {
        &&& g.src == f.src
        &&& g.sig == f.sig
        &&& g.annotated == f.annotated
        &&& match g.block {
            Block::Traced(steps, inner) => steps_view(steps@) == traced_steps(
                args,
                f.sig.ident@,
                kept_names(args.filter, applied, signature_names(f.sig).unwrap()),
            ) && *inner == f.block,
            Block::Plain(_) => false,
        }
    } else {
        g == f
    }
}

pub open spec fn impl_item_ok<B>(args: ArgsView, i: ImplItem<B>, o: ImplItem<B>) -> bool {
    match i {
        ImplItem::Method(f) => match o {
            ImplItem::Method(g) => fn_ok(args, AttrApplied::Indirectly, f, g),
            ImplItem::Other(_) => false,
        },
        ImplItem::Other(_) => o == i,
    }
}

/// `o` is `item` rewritten. A visited module keeps its children in place,
/// each rewritten in turn, behind a depth counter where it declared none;
/// a visited `impl` block has each method rewritten; any other declaration,
/// and one that is not visited, stays as it is.
pub open spec fn item_ok<B>(args: ArgsView, applied: AttrApplied, item: Item<B>, o: Item<B>) -> bool
    decreases item,
{
    match item {
        Item::Fn(f) => match o {
            Item::Fn(g) => fn_ok(args, applied, f, g),
            _ => false,
        },
        Item::Mod(m) => if visits(args.filter, applied, m.annotated, m.ident@) {
            match (o, m.content) {
                (Item::Mod(m2), Some(items)) => {
                    &&& m2.src == m.src
                    &&& m2.ident == m.ident
                    &&& m2.annotated == m.annotated
                    &&& match m2.content {
                        Some(outs) => {
                            let shift: int = if has_counter(items@) { 0 } else { 1 };
                            &&& outs@.len() == items@.len() + shift
                            &&& shift == 1 ==> outs@[0] == Item::<B>::DepthCounter
                            &&& forall|j: int|
                                0 <= j < items@.len() ==> item_ok(
                                    args,
                                    AttrApplied::Indirectly,
                                    #[trigger] items@[j],
                                    outs@[j + shift],
                                )
                        },
                        None => false,
                    }
                },
                _ => false,
            }
        } else {
            o == item
        },
        Item::Impl(im) => if visits_impl(applied, im.annotated) {
            match o {
                Item::Impl(im2) => {
                    &&& im2.src == im.src
                    &&& im2.annotated == im.annotated
                    &&& im2.items@.len() == im.items@.len()
                    &&& forall|j: int|
                        0 <= j < im.items@.len() ==> impl_item_ok(args, #[trigger] im.items@[j], im2.items@[j])
                },
                _ => false,
            }
        } else {
            o == item
        },
        _ => o == item,
    }
}


// ---------------------------------------------------------------------------
// The rewriting
fn visits_of(args: &Args, attr_applied: AttrApplied, annotated: bool, name: &String) -> (r: bool)
    ensures
        r == visits(args.filter@, attr_applied, annotated, name@),
{
    match attr_applied {
        AttrApplied::Directly => true,
        AttrApplied::Indirectly => !annotated && should_include(
            &args.filter,
            attr_applied,
            AttrApplied::Indirectly,
            name,
        ),
    }
}

proof fn lemma_items_error_stays<B>(args: ArgsView, items: Seq<Item<B>>, m: int, n: int)
    requires
        0 < m <= n <= items.len(),
        items_error(args, items, m) is Some,
    ensures
        items_error(args, items, n) == items_error(args, items, m),
    decreases n - m,
{
    if m < n {
        lemma_items_error_stays(args, items, m, n - 1);
    }
}

proof fn lemma_methods_error_stays<B>(args: ArgsView, items: Seq<ImplItem<B>>, m: int, n: int)
    requires
        0 < m <= n <= items.len(),
        methods_error(args, items, m) is Some,
    ensures
        methods_error(args, items, n) == methods_error(args, items, m),
    decreases n - m,
{
    if m < n {
        lemma_methods_error_stays(args, items, m, n - 1);
    }
}

/// Traces the body of a function where it is visited.
pub fn transform_fn<B>(args: &Args, attr_applied: AttrApplied, item_fn: ItemFn<B>) -> (r: Result<ItemFn<B>, TransformError>)
    ensures
        match r {
            Ok(g) => fn_error(args@, attr_applied, item_fn) is None && fn_ok(args@, attr_applied, item_fn, g),
            Err(e) => fn_error(args@, attr_applied, item_fn) == Some(e),
        },
{
    if !visits_of(args, attr_applied, item_fn.annotated, &item_fn.sig.ident) {
        return Ok(item_fn);
    }
    let ItemFn { src, sig, annotated, block } = item_fn;
    match construct_traced_block(args, attr_applied, &sig, block) {
        Ok(traced) => Ok(ItemFn { src, sig, annotated, block: traced }),
        Err(e) => Err(e),
    }
}

/// Rewrites the methods of an `impl` block where it is visited.
pub fn transform_impl<B>(args: &Args, attr_applied: AttrApplied, item_impl: ItemImpl<B>) -> (r: Result<ItemImpl<B>, TransformError>)
    ensures
        match r {
            Ok(o) => item_error(args@, attr_applied, Item::Impl(item_impl)) is None && item_ok(
                args@,
                attr_applied,
                Item::Impl(item_impl),
                Item::Impl(o),
            ),
            Err(e) => item_error(args@, attr_applied, Item::Impl(item_impl)) == Some(e),
        },
{
    if !(attr_applied == AttrApplied::Directly || !item_impl.annotated) {
        return Ok(item_impl);
    }
    let ghost orig = item_impl.items@;
    let ItemImpl { src, annotated, items } = item_impl;
    let mut rest = items;
    let mut out: Vec<ImplItem<B>> = Vec::new();
    let n = rest.len();
    while rest.len() > 0
        invariant
            n == orig.len(),
            orig == item_impl.items@,
            visits_impl(attr_applied, item_impl.annotated),
            out@.len() + rest@.len() == n,
            rest@ == orig.subrange(out@.len() as int, n as int),
            methods_error(args@, orig, out@.len() as int) is None,
            forall|j: int| 0 <= j < out@.len() ==> impl_item_ok(args@, #[trigger] orig[j], out@[j]),
        decreases rest@.len(),
    {
        let k = out.len();
        let entry = rest.remove(0);
        assert(entry == orig[k as int]);
        assert(rest@ =~= orig.subrange(k + 1, n as int));
        match entry {
            ImplItem::Method(f) => match transform_fn(args, AttrApplied::Indirectly, f) {
                Ok(g) => out.push(ImplItem::Method(g)),
                Err(e) => {
                    proof {
                        assert(methods_error(args@, orig, k + 1) == Some(e));
                        lemma_methods_error_stays(args@, orig, k + 1, n as int);
                    }
                    return Err(e);
                },
            },
            ImplItem::Other(x) => out.push(ImplItem::Other(x)),
        }
    }
    Ok(ItemImpl { src, annotated, items: out })
}

/// Rewrites the children of a module where it is visited, behind a depth
/// counter where the module declares none.
pub fn transform_mod<B>(args: &Args, attr_applied: AttrApplied, item_mod: ItemMod<B>) -> (r: Result<ItemMod<B>, TransformError>)
    ensures
        match r {
            Ok(o) => item_error(args@, attr_applied, Item::Mod(item_mod)) is None && item_ok(
                args@,
                attr_applied,
                Item::Mod(item_mod),
                Item::Mod(o),
            ),
            Err(e) => item_error(args@, attr_applied, Item::Mod(item_mod)) == Some(e),
        },
    decreases item_mod,
{
    if !visits_of(args, attr_applied, item_mod.annotated, &item_mod.ident) {
        return Ok(item_mod);
    }
    let ItemMod { src, ident, annotated, content } = item_mod;
    let items = match content {
        Some(items) => items,
        None => return Err(TransformError::ModWithoutBody(ident)),
    };
    let ghost orig = items@;
    let ghost gitems = items;
    let (good, bad) = find_counter(&items);
    if bad {
        return Err(TransformError::CounterMismatch(ident));
    }
    let mut rest = items;
    let mut out: Vec<Item<B>> = Vec::new();
    let n = rest.len();
    while rest.len() > 0
        invariant
            n == orig.len(),
            item_mod.content == Some(gitems),
            orig == gitems@,
            visits(args@.filter, attr_applied, item_mod.annotated, item_mod.ident@),
            !has_bad_counter(orig),
            out@.len() + rest@.len() == n,
            rest@ == orig.subrange(out@.len() as int, n as int),
            items_error(args@, orig, out@.len() as int) is None,
            forall|j: int|
                0 <= j < out@.len() ==> item_ok(args@, AttrApplied::Indirectly, #[trigger] orig[j], out@[j]),
        decreases rest@.len(),
    {
        let k = out.len();
        let child = rest.remove(0);
        assert(child == orig[k as int]);
        assert(rest@ =~= orig.subrange(k + 1, n as int));
        proof {
            assert(decreases_to!(item_mod => item_mod.content));
            assert(decreases_to!(item_mod.content => item_mod.content->Some_0));
            assert(decreases_to!(gitems => gitems@));
            assert(decreases_to!(gitems@ => gitems@[k as int]));
        }
        match transform_item(args, AttrApplied::Indirectly, child) {
            Ok(o) => out.push(o),
            Err(e) => {
                proof {
                    assert(items_error(args@, orig, k + 1) == Some(e));
                    lemma_items_error_stays(args@, orig, k + 1, n as int);
                }
                return Err(e);
            },
        }
    }
    if !good {
        out.insert(0, Item::DepthCounter);
    }
    Ok(ItemMod { src, ident, annotated, content: Some(out) })
}

/// Rewrites a declaration: functions are traced, modules and `impl` blocks
/// have their contents rewritten in turn, everything else stays as it is.
pub fn transform_item<B>(args: &Args, attr_applied: AttrApplied, item: Item<B>) -> (r: Result<Item<B>, TransformError>)
    ensures
        match r {
            Ok(o) => item_error(args@, attr_applied, item) is None && item_ok(args@, attr_applied, item, o),
            Err(e) => item_error(args@, attr_applied, item) == Some(e),
        },
    decreases item,
{
    match item {
        Item::Fn(f) => match transform_fn(args, attr_applied, f) {
            Ok(g) => Ok(Item::Fn(g)),
            Err(e) => Err(e),
        },
        Item::Impl(im) => match transform_impl(args, attr_applied, im) {
            Ok(o) => Ok(Item::Impl(o)),
            Err(e) => Err(e),
        },
        Item::Mod(m) => match transform_mod(args, attr_applied, m) {
            Ok(o) => Ok(Item::Mod(o)),
            Err(e) => Err(e),
        },
        other => Ok(other),
    }
}


// ---------------------------------------------------------------------------
// The annotated declaration itself
/// The declarations that an annotation can sit on.
pub open spec fn is_traceable<B>(item: Item<B>) -> bool {
    item is Fn || item is Mod || item is Impl
}

/// Rewrites the declaration that the annotation sits on; any declaration
/// other than a function, module or `impl` block is refused.
pub fn expand_item<B>(args: &Args, item: Item<B>) -> (r: Result<Item<B>, TransformError>)
    ensures
        !is_traceable(item) ==> r == Err::<Item<B>, TransformError>(TransformError::UnsupportedItem),
        is_traceable(item) ==> match r {
            Ok(o) => item_error(args@, AttrApplied::Directly, item) is None && item_ok(
                args@,
                AttrApplied::Directly,
                item,
                o,
            ),
            Err(e) => item_error(args@, AttrApplied::Directly, item) == Some(e),
        },
{
    match item {
        Item::Fn(_) | Item::Mod(_) | Item::Impl(_) => transform_item(args, AttrApplied::Directly, item),
        _ => Err(TransformError::UnsupportedItem),
    }
}

/// Rewrites the `impl` entry that the annotation sits on; any entry other
/// than a method is refused.
pub fn expand_impl_item<B>(args: &Args, impl_item: ImplItem<B>) -> (r: Result<ImplItem<B>, TransformError>)
    ensures
        match impl_item {
            ImplItem::Method(f) => match r {
                Ok(ImplItem::Method(g)) => fn_error(args@, AttrApplied::Directly, f) is None && fn_ok(
                    args@,
                    AttrApplied::Directly,
                    f,
                    g,
                ),
                Ok(ImplItem::Other(_)) => false,
                Err(e) => fn_error(args@, AttrApplied::Directly, f) == Some(e),
            },
            ImplItem::Other(_) => r == Err::<ImplItem<B>, TransformError>(TransformError::UnsupportedImplItem),
        },
{
    match impl_item {
        ImplItem::Method(f) => match transform_fn(args, AttrApplied::Directly, f) {
            Ok(g) => Ok(ImplItem::Method(g)),
            Err(e) => Err(e),
        },
        ImplItem::Other(_) => Err(TransformError::UnsupportedImplItem),
    }
}

} // verus!
