//! A model of the declarations that an annotation rewrites.
//!
//! The rewriting engine reads names and parameter patterns only; the rest
//! of each declaration rides along in an opaque `B`, which the front end
//! uses to rebuild real syntax.
use vstd::prelude::*;

verus! {

/// A parameter pattern.
#[derive(Debug, PartialEq)]
pub enum Pat {
    /// A plain binding, `a` or `mut a`.
    Ident(String),
    /// A tuple of patterns, `(a, (b, c))`.
    Tuple(Vec<Pat>),
    /// Any other pattern.
    Other,
}

/// A parameter of a function.
#[derive(Debug, PartialEq)]
pub enum FnArg {
    /// `self`, `&self` or `&mut self`.
    Receiver,
    /// A typed parameter, by its pattern.
    Typed(Pat),
}

/// The parts of a function's signature that the engine reads.
#[derive(Debug, PartialEq)]
pub struct Signature {
    pub ident: String,
    pub inputs: Vec<FnArg>,
}

/// Where log lines go.
#[derive(Clone, Copy, PartialEq, Eq, Structural, Debug)]
pub enum Sink {
    /// Printed on standard output.
    Console,
    /// Emitted as trace records of the logging facade.
    Log,
}

/// One step of a traced body, run in order.
#[derive(Debug, PartialEq)]
pub enum Step {
    /// Writes the entry line: `format` with the depth as indentation width
    /// and the listed arguments as values.
    Entry { sink: Sink, format: String, args: Vec<String> },
    /// Waits for a line on standard input.
    Pause,
    /// Adds one to the depth counter.
    Enter,
    /// Runs the original body and keeps its value.
    Run,
    /// Takes one from the depth counter.
    Leave,
    /// Writes the exit line: `format` with the depth as indentation width
    /// and the kept value.
    Exit { sink: Sink, format: String },
    /// Gives back the kept value.
    Yield,
}

/// A function body.
#[derive(Debug, PartialEq)]
pub enum Block<B> {
    /// A body as written.
    Plain(B),
    /// A body wrapped in tracing steps.
    Traced(Vec<Step>, Box<Block<B>>),
}

/// A function or a method.
#[derive(Debug, PartialEq)]
pub struct ItemFn<B> {
    /// Everything the engine does not read.
    pub src: B,
    pub sig: Signature,
    /// Whether the function carries an annotation of its own.
    pub annotated: bool,
    pub block: Block<B>,
}

/// A `static` declaration, by the parts that the depth counter's check
/// reads; `ty` and `init` are token text.
#[derive(Debug, PartialEq)]
pub struct ItemStatic<B> {
    pub src: B,
    pub ident: String,
    pub mutable: bool,
    pub thread_local: bool,
    pub ty: String,
    pub init: String,
}

/// A module: `content` is `None` for `mod m;`.
#[derive(Debug, PartialEq)]
pub struct ItemMod<B> {
    pub src: B,
    pub ident: String,
    pub annotated: bool,
    pub content: Option<Vec<Item<B>>>,
}

/// An entry of an `impl` block.
#[derive(Debug, PartialEq)]
pub enum ImplItem<B> {
    Method(ItemFn<B>),
    Other(B),
}

/// An `impl` block.
#[derive(Debug, PartialEq)]
pub struct ItemImpl<B> {
    pub src: B,
    pub annotated: bool,
    pub items: Vec<ImplItem<B>>,
}

/// A declaration.
#[derive(Debug, PartialEq)]
pub enum Item<B> {
    Fn(ItemFn<B>),
    Mod(ItemMod<B>),
    Impl(ItemImpl<B>),
    Static(ItemStatic<B>),
    /// A macro invocation in item position, by the last segment of its path.
    Macro(B, String),
    /// The thread-local depth counter that the engine declares.
    DepthCounter,
    Other(B),
}

/// Why a declaration cannot be rewritten.
#[derive(PartialEq, Eq, Debug)]
pub enum TransformError {
    /// A parameter of the named function has a pattern other than a
    /// binding or a tuple of such.
    UnsupportedPattern(String),
    /// The named module has its body in another file.
    ModWithoutBody(String),
    /// The named module declares a depth counter of another shape than the
    /// one the traced bodies use.
    CounterMismatch(String),
    /// The annotation sits on a declaration other than a function, module or
    /// `impl` block.
    UnsupportedItem,
    /// The annotation sits on an entry of an `impl` block other than a
    /// method.
    UnsupportedImplItem,
}

} // verus!
