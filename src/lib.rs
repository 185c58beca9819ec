//! Entry/exit tracing of functions, as a source transformation.
//!
//! A traced function's body is replaced by one that logs the call's
//! arguments on entry and its result on exit, indented by the current call
//! depth. Tracing a `mod` or an `impl` traces the functions inside it.
//!
//! The library works on a plain model of the annotated declaration and of
//! the option tokens written in the annotation; turning real syntax into
//! that model and the synthesized steps back into syntax is left to the
//! front end that owns the macro.
pub mod args;
pub mod filter;
pub mod syntax;
pub mod block;
pub mod counter;
pub mod transform;

use vstd::prelude::*;
use crate::args::{config_of, diag_views, diagnostics, Args, Diagnostic, NestedMeta};
use crate::syntax::{ImplItem, Item, TransformError};
use crate::transform::{expand_impl_item, expand_item, fn_error, fn_ok, is_traceable, item_error, item_ok};
use crate::filter::AttrApplied;

verus! {

/// A declaration that an annotation sits on.
#[derive(Debug, PartialEq)]
pub enum Annotated<B> {
    Item(Item<B>),
    ImplItem(ImplItem<B>),
}

/// Why an annotated declaration is not rewritten.
#[derive(Debug, PartialEq)]
pub enum TraceError {
    /// The option list is not valid.
    Options(Vec<Diagnostic>),
    /// The declaration cannot be rewritten.
    Declaration(TransformError),
}

/// Rewrites an annotated declaration under the options written in its
/// annotation: the options are validated first, and the declaration is
/// rewritten only where they are.
pub fn trace<B>(raw_args: Vec<NestedMeta>, input: Annotated<B>) -> (r: Result<Annotated<B>, TraceError>)
    ensures
        diagnostics(raw_args@).len() > 0 ==> match r {
            Err(TraceError::Options(ds)) => diag_views(ds@) == diagnostics(raw_args@),
            _ => false,
        },
        diagnostics(raw_args@).len() == 0 ==> match input {
            Annotated::Item(item) => if is_traceable(item) {
                match r {
                    Ok(Annotated::Item(o)) => item_error(config_of(raw_args@), AttrApplied::Directly, item) is None
                        && item_ok(config_of(raw_args@), AttrApplied::Directly, item, o),
                    Err(TraceError::Declaration(e)) => item_error(config_of(raw_args@), AttrApplied::Directly, item) == Some(e),
                    _ => false,
                }
            } else {
                r matches Err(TraceError::Declaration(TransformError::UnsupportedItem))
            },
            Annotated::ImplItem(ImplItem::Method(f)) => match r {
                Ok(Annotated::ImplItem(ImplItem::Method(g))) => fn_error(config_of(raw_args@), AttrApplied::Directly, f) is None
                    && fn_ok(config_of(raw_args@), AttrApplied::Directly, f, g),
                Err(TraceError::Declaration(e)) => fn_error(config_of(raw_args@), AttrApplied::Directly, f) == Some(e),
                _ => false,
            },
            Annotated::ImplItem(ImplItem::Other(_)) => r matches Err(TraceError::Declaration(TransformError::UnsupportedImplItem)),
        },
{
    let args = match Args::from_raw_args(raw_args) {
        Ok(a) => a,
        Err(ds) => return Err(TraceError::Options(ds)),
    };
    match input {
        Annotated::Item(item) => match expand_item(&args, item) {
            Ok(o) => Ok(Annotated::Item(o)),
            Err(e) => Err(TraceError::Declaration(e)),
        },
        Annotated::ImplItem(impl_item) => match expand_impl_item(&args, impl_item) {
            Ok(o) => Ok(Annotated::ImplItem(o)),
            Err(e) => Err(TraceError::Declaration(e)),
        },
    }
}

/// The depth counter's declaration, which takes no arguments: `None` where
/// some were given.
pub fn init_depth_var<B>(input_is_empty: bool) -> (r: Option<Item<B>>)
    ensures
        input_is_empty ==> r == Some(Item::<B>::DepthCounter),
        !input_is_empty ==> r is None,
{
    if input_is_empty {
        Some(Item::DepthCounter)
    } else {
        None
    }
}

} // verus!
