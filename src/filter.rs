//! Deciding which declarations and which arguments are traced.
use vstd::prelude::*;
use crate::args::{contains_name, Filter, FilterView};

verus! {

/// How a declaration is reached by an annotation.
#[derive(Clone, Copy, PartialEq, Eq, Structural, Debug)]
pub enum AttrApplied {
    /// The annotation is written on the declaration itself.
    Directly,
    /// The declaration sits inside an annotated `mod` or `impl`.
    Indirectly,
}

/// Whether `name` is traced, where the filter applies only to names met in
/// mode `expected`: declaration names are filtered in
/// [`AttrApplied::Indirectly`], argument names in [`AttrApplied::Directly`].
pub open spec fn included(filter: FilterView, applied: AttrApplied, expected: AttrApplied, name: Seq<char>) -> bool {
    applied != expected || filter.admits(name)
}

pub fn should_include(filter: &Filter, applied: AttrApplied, expected: AttrApplied, name: &String) -> (r: bool)
    ensures
        r == included(filter@, applied, expected, name@),
{
    if applied != expected {
        return true;
    }
    match filter {
        Filter::All => true,
        Filter::Enable(names) => contains_name(names, name),
        Filter::Disable(names) => !contains_name(names, name),
    }
}


/// The decision depends on the filter, the two modes and the name alone; an
/// empty `enable` list lets no name through where it applies, and an empty
/// `disable` list lets every name through.
pub proof fn lemma_filter_decision(
    filter: FilterView,
    applied: AttrApplied,
    expected: AttrApplied,
    name: Seq<char>,
    filter2: FilterView,
    applied2: AttrApplied,
    expected2: AttrApplied,
    name2: Seq<char>,
)
    ensures
        filter == filter2 && applied == applied2 && expected == expected2 && name == name2
            ==> included(filter, applied, expected, name) == included(filter2, applied2, expected2, name2),
        applied == expected ==> !included(FilterView::Enable(Seq::empty()), applied, expected, name),
        included(FilterView::Disable(Seq::empty()), applied, expected, name),
{
}

} // verus!
