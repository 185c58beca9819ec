//! The depth counter that traced bodies read and update: whether a module
//! already declares it, and whether a declaration of it has the right
//! shape.
use vstd::prelude::*;
use crate::syntax::{Item, ItemStatic};

verus! {

/// Token text without its spaces.
pub open spec fn compact(s: Seq<char>) -> Seq<char>
    decreases s.len(),
{
    if s.len() == 0 {
        Seq::empty()
    } else {
        compact(s.drop_last()) + if s.last() == ' ' {
            Seq::empty()
        } else {
            seq![s.last()]
        }
    }
}

/// The counter's type, `Cell<usize>`, written with or without its path.
pub open spec fn counter_type_ok(ty: Seq<char>) -> bool {
    compact(ty) == compact("::std::cell::Cell<usize>"@) || compact(ty) == compact("std::cell::Cell<usize>"@)
        || compact(ty) == compact("Cell<usize>"@)
}

/// The counter's initial value, a cell that holds zero.
pub open spec fn counter_init_ok(init: Seq<char>) -> bool {
    compact(init) == compact("::std::cell::Cell::new(0)"@) || compact(init) == compact("std::cell::Cell::new(0)"@)
        || compact(init) == compact("Cell::new(0)"@)
}

/// What a declaration says of the counter.
#[derive(Clone, Copy, PartialEq, Eq, Structural, Debug)]
pub enum CounterDecl {
    /// It does not declare it.
    Unrelated,
    /// It declares it as the traced bodies use it.
    Good,
    /// It declares it with another mutability, type or initial value.
    Bad,
}

pub open spec fn static_decl<B>(s: ItemStatic<B>) -> CounterDecl {
    if s.ident@ == "DEPTH"@ {
        if s.thread_local && !s.mutable && counter_type_ok(s.ty@) && counter_init_ok(s.init@) {
            CounterDecl::Good
        } else {
            CounterDecl::Bad
        }
    } else {
        CounterDecl::Unrelated
    }
}

pub open spec fn counter_decl<B>(item: Item<B>) -> CounterDecl {
    match item {
        Item::DepthCounter => CounterDecl::Good,
        Item::Macro(_, name) => if name@ == "init_depth_var"@ {
            CounterDecl::Good
        } else {
            CounterDecl::Unrelated
        },
        Item::Static(s) => static_decl(s),
        _ => CounterDecl::Unrelated,
    }
}

/// Some declaration among `items` declares the counter as it should be.
pub open spec fn has_counter<B>(items: Seq<Item<B>>) -> bool {
    exists|j: int| 0 <= j < items.len() && counter_decl(#[trigger] items[j]) == CounterDecl::Good
}

/// Some declaration among `items` declares the counter wrongly.
pub open spec fn has_bad_counter<B>(items: Seq<Item<B>>) -> bool {
    exists|j: int| 0 <= j < items.len() && counter_decl(#[trigger] items[j]) == CounterDecl::Bad
}

fn compact_of(s: &String) -> (r: Vec<char>)
    ensures
        r@ == compact(s@),
{
    let n = s.as_str().unicode_len();
    let mut r: Vec<char> = Vec::new();
    let mut i: usize = 0;
    while i < n
        invariant
            i <= n,
            n == s@.len(),
            r@ == compact(s@.subrange(0, i as int)),
        decreases n - i,
    {
        let c = s.as_str().get_char(i);
        let ghost sub = s@.subrange(0, i + 1);
        assert(sub.drop_last() =~= s@.subrange(0, i as int));
        assert(sub.last() == c);
        if c != ' ' {
            r.push(c);
        }
        assert(r@ =~= compact(sub));
        i = i + 1;
    }
    assert(s@.subrange(0, n as int) =~= s@);
    r
}

fn same_chars(a: &Vec<char>, b: &Vec<char>) -> (r: bool)
    ensures
        r == (a@ == b@),
{
    if a.len() != b.len() {
        return false;
    }
    let mut i: usize = 0;
    while i < a.len()
        invariant
            i <= a.len(),
            a.len() == b.len(),
            forall|j: int| 0 <= j < i ==> a@[j] == b@[j],
        decreases a.len() - i,
    {
        if a[i] != b[i] {
            return false;
        }
        i = i + 1;
    }
    assert(a@ =~= b@);
    true
}

/// Whether `s` reads as one of the three texts once spaces are dropped.
fn compact_is_one_of(s: &String, x: &str, y: &str, z: &str) -> (r: bool)
    ensures
        r == (compact(s@) == compact(x@) || compact(s@) == compact(y@) || compact(s@) == compact(z@)),
{
    let cs = compact_of(s);
    same_chars(&cs, &compact_of(&x.to_owned())) || same_chars(&cs, &compact_of(&y.to_owned()))
        || same_chars(&cs, &compact_of(&z.to_owned()))
}

pub fn counter_decl_of<B>(item: &Item<B>) -> (r: CounterDecl)
    ensures
        r == counter_decl(*item),
{
    match item {
        Item::DepthCounter => CounterDecl::Good,
        Item::Macro(_, name) => if *name == "init_depth_var".to_owned() {
            CounterDecl::Good
        } else {
            CounterDecl::Unrelated
        },
        Item::Static(s) => {
            if s.ident == "DEPTH".to_owned() {
                if s.thread_local && !s.mutable && compact_is_one_of(
                    &s.ty,
                    "::std::cell::Cell<usize>",
                    "std::cell::Cell<usize>",
                    "Cell<usize>",
                ) && compact_is_one_of(&s.init, "::std::cell::Cell::new(0)", "std::cell::Cell::new(0)", "Cell::new(0)") {
                    CounterDecl::Good
                } else {
                    CounterDecl::Bad
                }
            } else {
                CounterDecl::Unrelated
            }
        },
        _ => CounterDecl::Unrelated,
    }
}

/// Whether `items` declare the counter rightly (first) and wrongly (second).
pub fn find_counter<B>(items: &Vec<Item<B>>) -> (r: (bool, bool))
    ensures
        r.0 == has_counter(items@),
        r.1 == has_bad_counter(items@),
{
    let mut good = false;
    let mut bad = false;
    let mut i: usize = 0;
    while i < items.len()
        invariant
            i <= items.len(),
            good == exists|j: int| 0 <= j < i && counter_decl(#[trigger] items@[j]) == CounterDecl::Good,
            bad == exists|j: int| 0 <= j < i && counter_decl(#[trigger] items@[j]) == CounterDecl::Bad,
        decreases items.len() - i,
    {
        let d = counter_decl_of(&items[i]);
        match d {
            CounterDecl::Good => {
                good = true;
            },
            CounterDecl::Bad => {
                bad = true;
            },
            CounterDecl::Unrelated => {},
        }
        i = i + 1;
    }
    (good, bad)
}

} // verus!
