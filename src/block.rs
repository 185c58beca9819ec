//! The traced body of one function: which arguments it logs, the two log
//! line formats, and the order of its steps.
use vstd::prelude::*;
use crate::args::{names_view, Args, ArgsView, FilterView};
use crate::filter::{included, should_include, AttrApplied};
use crate::syntax::{Block, FnArg, Pat, Signature, Sink, Step, TransformError};

verus! {

broadcast use vstd::std_specs::vec::group_vec_axioms;

// ---------------------------------------------------------------------------
// Argument names
/// The names bound by a pattern, left to right; `None` where some part of
/// it is neither a binding nor a tuple.
pub open spec fn pat_names(p: Pat) -> Option<Seq<Seq<char>>>
    decreases p, 0int,
{
    match p {
        Pat::Ident(s) => Some(seq![s@]),
        Pat::Tuple(ps) => pats_names(ps@, ps@.len() as int),
        Pat::Other => None,
    }
}

/// The names bound by the first `n` patterns of `ps`.
pub open spec fn pats_names(ps: Seq<Pat>, n: int) -> Option<Seq<Seq<char>>>
    decreases ps, n,
{
    if n <= 0 {
        Some(Seq::empty())
    } else if n > ps.len() {
        None
    } else {
        match (pats_names(ps, n - 1), pat_names(ps[n - 1])) {
            (Some(a), Some(b)) => Some(a + b),
            _ => None,
        }
    }
}

/// The names bound by the first `n` parameters; the receiver binds none.
pub open spec fn inputs_names(inputs: Seq<FnArg>, n: int) -> Option<Seq<Seq<char>>>
    decreases n,
{
    if n <= 0 || n > inputs.len() {
        Some(Seq::empty())
    } else {
        match inputs_names(inputs, n - 1) {
            Some(a) => match inputs[n - 1] {
                FnArg::Receiver => Some(a),
                FnArg::Typed(p) => match pat_names(p) {
                    Some(b) => Some(a + b),
                    None => None,
                },
            },
            None => None,
        }
    }
}

pub open spec fn signature_names(sig: Signature) -> Option<Seq<Seq<char>>> {
    inputs_names(sig.inputs@, sig.inputs@.len() as int)
}

/// The names that pass the filter, in order; argument names are filtered
/// only where the annotation sits on the function itself.
pub open spec fn kept_names(filter: FilterView, applied: AttrApplied, names: Seq<Seq<char>>) -> Seq<Seq<char>>
    decreases names.len(),
{
    if names.len() == 0 {
        Seq::empty()
    } else {
        kept_names(filter, applied, names.drop_last()) + if included(
            filter,
            applied,
            AttrApplied::Directly,
            names.last(),
        ) {
            seq![names.last()]
        } else {
            Seq::empty()
        }
    }
}

/// Pushes the names bound by `p` onto `out`; false where the pattern is not
/// supported, and then `out` holds some of them.
fn collect_pat_names(p: &Pat, out: &mut Vec<String>) -> (ok: bool)
    ensures
        ok == (pat_names(*p) is Some),
        ok ==> names_view(final(out)@) == names_view(old(out)@) + pat_names(*p).unwrap(),
    decreases p, 0int,
{
    match p {
        Pat::Ident(s) => {
            let ghost before = out@;
            out.push(s.clone());
            assert(names_view(out@) =~= names_view(before) + seq![s@]);
            true
        },
        Pat::Tuple(ps) => collect_pats_names(ps, out),
        Pat::Other => false,
    }
}

fn collect_pats_names(ps: &Vec<Pat>, out: &mut Vec<String>) -> (ok: bool)
    ensures
        ok == (pats_names(ps@, ps@.len() as int) is Some),
        ok ==> names_view(final(out)@) == names_view(old(out)@) + pats_names(ps@, ps@.len() as int).unwrap(),
    decreases ps@, ps@.len() as int,
{
    let ghost start = out@;
    let mut j: usize = 0;
    while j < ps.len()
        invariant
            j <= ps.len(),
            pats_names(ps@, j as int) is Some,
            names_view(out@) == names_view(start) + pats_names(ps@, j as int).unwrap(),
        decreases ps.len() - j,
    {
        assert(decreases_to!(ps@ => ps@[j as int]));
        let ok = collect_pat_names(&ps[j], out);
        if !ok {
            proof {
                lemma_pats_names_none(ps@, j as int + 1, ps@.len() as int);
            }
            return false;
        }
        assert(names_view(start) + pats_names(ps@, j as int).unwrap() + pat_names(ps@[j as int]).unwrap()
            =~= names_view(start) + pats_names(ps@, j + 1).unwrap());
        j = j + 1;
    }
    true
}

proof fn lemma_pats_names_none(ps: Seq<Pat>, m: int, n: int)
    requires
        0 < m <= n <= ps.len(),
        pats_names(ps, m) is None,
    ensures
        pats_names(ps, n) is None,
    decreases n - m,
{
    if m < n {
        lemma_pats_names_none(ps, m, n - 1);
    }
}

proof fn lemma_inputs_names_none(inputs: Seq<FnArg>, m: int, n: int)
    requires
        0 < m <= n <= inputs.len(),
        inputs_names(inputs, m) is None,
    ensures
        inputs_names(inputs, n) is None,
    decreases n - m,
{
    if m < n {
        lemma_inputs_names_none(inputs, m, n - 1);
    }
}

/// Every name bound by the parameters, in order; `None` where a parameter
/// has a pattern that is not supported.
fn all_arg_names(sig: &Signature) -> (r: Option<Vec<String>>)
    ensures
        match r {
            Some(v) => signature_names(*sig) == Some(names_view(v@)),
            None => signature_names(*sig) is None,
        },
{
    let mut out: Vec<String> = Vec::new();
    let mut j: usize = 0;
    while j < sig.inputs.len()
        invariant
            j <= sig.inputs.len(),
            inputs_names(sig.inputs@, j as int) == Some(names_view(out@)),
        decreases sig.inputs.len() - j,
    {
        match &sig.inputs[j] {
            FnArg::Receiver => {},
            FnArg::Typed(p) => {
                let ok = collect_pat_names(p, &mut out);
                if !ok {
                    proof {
                        lemma_inputs_names_none(sig.inputs@, j as int + 1, sig.inputs@.len() as int);
                    }
                    return None;
                }
            },
        }
        j = j + 1;
    }
    Some(out)
}

/// The names of the arguments that the entry line shows, in parameter
/// order; `None` where a parameter's pattern cannot be taken apart into
/// bindings.
pub fn extract_arg_idents(args: &Args, attr_applied: AttrApplied, sig: &Signature) -> (r: Option<Vec<String>>)
    ensures
        match r {
            Some(v) => signature_names(*sig) is Some && names_view(v@) == kept_names(
                args.filter@,
                attr_applied,
                signature_names(*sig).unwrap(),
            ),
            None => signature_names(*sig) is None,
        },
{
    let all = match all_arg_names(sig) {
        Some(v) => v,
        None => return None,
    };
    let mut kept: Vec<String> = Vec::new();
    let mut j: usize = 0;
    while j < all.len()
        invariant
            j <= all.len(),
            names_view(kept@) == kept_names(args.filter@, attr_applied, names_view(all@).subrange(0, j as int)),
        decreases all.len() - j,
    {
        let ghost before = kept@;
        let ghost sub = names_view(all@).subrange(0, j + 1);
        assert(sub.drop_last() =~= names_view(all@).subrange(0, j as int));
        assert(sub.last() == all@[j as int]@);
        if should_include(&args.filter, attr_applied, AttrApplied::Directly, &all[j]) {
            kept.push(all[j].clone());
            assert(names_view(kept@) =~= names_view(before) + seq![all@[j as int]@]);
        } else {
            assert(names_view(kept@) =~= names_view(before) + Seq::<Seq<char>>::empty());
        }
        j = j + 1;
    }
    assert(names_view(all@).subrange(0, all.len() as int) =~= names_view(all@));
    Some(kept)
}


// ---------------------------------------------------------------------------
// Log line formats and steps
/// The placeholder of one value: verbose where `pretty` is set.
pub open spec fn value_slot(pretty: bool) -> Seq<char> {
    if pretty {
        "{:#?}"@
    } else {
        "{:?}"@
    }
}

/// `a = {:?}, b = {:?}` for the names `a` and `b`.
pub open spec fn arg_list(names: Seq<Seq<char>>, slot: Seq<char>) -> Seq<char>
    decreases names.len(),
{
    if names.len() == 0 {
        Seq::empty()
    } else if names.len() == 1 {
        names[0] + " = "@ + slot
    } else {
        arg_list(names.drop_last(), slot) + ", "@ + names.last() + " = "@ + slot
    }
}

/// The entry line: indentation, prefix, `Entering`, the name and the
/// arguments.
pub open spec fn entering_format(a: ArgsView, name: Seq<char>, names: Seq<Seq<char>>) -> Seq<char> {
    "{:depth$}"@ + a.prefix_enter + " Entering "@ + name + "("@ + arg_list(names, value_slot(a.pretty)) + ")"@
}

/// The exit line: indentation, prefix, `Exiting`, the name and the result.
pub open spec fn exiting_format(a: ArgsView, name: Seq<char>) -> Seq<char> {
    "{:depth$}"@ + a.prefix_exit + " Exiting "@ + name + " = "@ + value_slot(a.pretty)
}

pub enum StepView {
    Entry { sink: Sink, format: Seq<char>, args: Seq<Seq<char>> },
    Pause,
    Enter,
    Run,
    Leave,
    Exit { sink: Sink, format: Seq<char> },
    Yield,
}

impl View for Step {
    type V = StepView;

    open spec fn view(&self) -> StepView {
        match self {
            Step::Entry { sink, format, args } => StepView::Entry {
                sink: *sink,
                format: format@,
                args: names_view(args@),
            },
            Step::Pause => StepView::Pause,
            Step::Enter => StepView::Enter,
            Step::Run => StepView::Run,
            Step::Leave => StepView::Leave,
            Step::Exit { sink, format } => StepView::Exit { sink: *sink, format: format@ },
            Step::Yield => StepView::Yield,
        }
    }
}

pub open spec fn steps_view(steps: Seq<Step>) -> Seq<StepView> {
    steps.map_values(|s: Step| s@)
}

pub open spec fn sink_of(a: ArgsView) -> Sink {
    if a.logging {
        Sink::Log
    } else {
        Sink::Console
    }
}

pub open spec fn pause_steps(a: ArgsView) -> Seq<StepView> {
    if a.pause {
        seq![StepView::Pause]
    } else {
        Seq::empty()
    }
}

/// The steps of a traced body, in order: entry line, pause, depth up, the
/// original body, depth down, exit line, pause, and the body's value.
pub open spec fn traced_steps(a: ArgsView, name: Seq<char>, names: Seq<Seq<char>>) -> Seq<StepView> {
    seq![StepView::Entry { sink: sink_of(a), format: entering_format(a, name, names), args: names }]
        + pause_steps(a)
        + seq![StepView::Enter, StepView::Run, StepView::Leave, StepView::Exit { sink: sink_of(a), format: exiting_format(a, name) }]
        + pause_steps(a)
        + seq![StepView::Yield]
}

fn value_slot_of(pretty: bool) -> (r: &'static str)
    ensures
        r@ == value_slot(pretty),
{
    if pretty {
        "{:#?}"
    } else {
        "{:?}"
    }
}

pub fn entering_format_of(args: &Args, name: &String, names: &Vec<String>) -> (r: String)
    ensures
        r@ == entering_format(args@, name@, names_view(names@)),
{
    let slot = value_slot_of(args.pretty);
    let mut list = String::new();
    let ghost ns = names_view(names@);
    let mut j: usize = 0;
    while j < names.len()
        invariant
            j <= names.len(),
            ns == names_view(names@),
            list@ == arg_list(ns.subrange(0, j as int), slot@),
        decreases names.len() - j,
    {
        let ghost sub = ns.subrange(0, j + 1);
        assert(sub.drop_last() =~= ns.subrange(0, j as int));
        assert(sub.last() == names@[j as int]@);
        if j > 0 {
            list.append(", ");
        }
        list.append(names[j].as_str());
        list.append(" = ");
        list.append(slot);
        proof {
            if j == 0 {
                assert(sub[0] == names@[0]@);
            }
        }
        j = j + 1;
    }
    assert(ns.subrange(0, names.len() as int) =~= ns);
    let mut r = "{:depth$}".to_owned();
    r.append(args.prefix_enter.as_str());
    r.append(" Entering ");
    r.append(name.as_str());
    r.append("(");
    r.append(list.as_str());
    r.append(")");
    r
}

pub fn exiting_format_of(args: &Args, name: &String) -> (r: String)
    ensures
        r@ == exiting_format(args@, name@),
{
    let mut r = "{:depth$}".to_owned();
    r.append(args.prefix_exit.as_str());
    r.append(" Exiting ");
    r.append(name.as_str());
    r.append(" = ");
    r.append(value_slot_of(args.pretty));
    r
}

fn push_step(steps: &mut Vec<Step>, s: Step)
    ensures
        steps_view(final(steps)@) == steps_view(old(steps)@) + seq![s@],
{
    let ghost before = steps@;
    steps.push(s);
    assert(steps_view(steps@) =~= steps_view(before) + seq![s@]);
}

/// The traced replacement of a function's body, or the error where a
/// parameter's pattern cannot be taken apart into bindings.
pub fn construct_traced_block<B>(
    args: &Args,
    attr_applied: AttrApplied,
    sig: &Signature,
    original_block: Block<B>,
) -> (r: Result<Block<B>, TransformError>)
    ensures
        match r {
            Ok(Block::Traced(steps, inner)) => signature_names(*sig) is Some && steps_view(steps@) == traced_steps(
                args@,
                sig.ident@,
                kept_names(args.filter@, attr_applied, signature_names(*sig).unwrap()),
            ) && *inner == original_block,
            Ok(Block::Plain(_)) => false,
            Err(e) => signature_names(*sig) is None && e == TransformError::UnsupportedPattern(sig.ident),
        },
{
    let names = match extract_arg_idents(args, attr_applied, sig) {
        Some(v) => v,
        None => return Err(TransformError::UnsupportedPattern(sig.ident.clone())),
    };
    let sink = if args.logging {
        Sink::Log
    } else {
        Sink::Console
    };
    let entering = entering_format_of(args, &sig.ident, &names);
    let exiting = exiting_format_of(args, &sig.ident);
    let mut steps: Vec<Step> = Vec::new();
    push_step(&mut steps, Step::Entry { sink, format: entering, args: names });
    if args.pause {
        push_step(&mut steps, Step::Pause);
    }
    push_step(&mut steps, Step::Enter);
    push_step(&mut steps, Step::Run);
    push_step(&mut steps, Step::Leave);
    push_step(&mut steps, Step::Exit { sink, format: exiting });
    if args.pause {
        push_step(&mut steps, Step::Pause);
    }
    push_step(&mut steps, Step::Yield);
    assert(steps_view(steps@) =~= traced_steps(
        args@,
        sig.ident@,
        kept_names(args.filter@, attr_applied, signature_names(*sig).unwrap()),
    ));
    Ok(Block::Traced(steps, Box::new(original_block)))
}


// ---------------------------------------------------------------------------
// What a traced body does when it runs
/// What a run shows: a log line written with the depth counter at
/// `indent`, or a pause.
pub enum Event {
    Line { indent: int, format: Seq<char> },
    Pause,
}

/// Runs `steps` with the depth counter at `depth`. `body(k)` is what the
/// original body shows and gives back when it runs with the counter at `k`;
/// `kept` is the value that the body last gave. The result is what the run
/// shows, the counter after it, and the value it gives back.
pub open spec fn run_steps<V>(
    steps: Seq<StepView>,
    depth: int,
    body: spec_fn(int) -> (Seq<Event>, V),
    kept: Option<V>,
) -> (Seq<Event>, int, Option<V>)
    decreases steps.len(),
{
    if steps.len() == 0 {
        (Seq::empty(), depth, None)
    } else {
        let rest = steps.drop_first();
        match steps[0] {
            StepView::Entry { format, .. } => {
                let r = run_steps(rest, depth, body, kept);
                (seq![Event::Line { indent: depth, format }] + r.0, r.1, r.2)
            },
            StepView::Exit { format, .. } => {
                let r = run_steps(rest, depth, body, kept);
                (seq![Event::Line { indent: depth, format }] + r.0, r.1, r.2)
            },
            StepView::Pause => {
                let r = run_steps(rest, depth, body, kept);
                (seq![Event::Pause] + r.0, r.1, r.2)
            },
            StepView::Enter => run_steps(rest, depth + 1, body, kept),
            StepView::Leave => run_steps(rest, depth - 1, body, kept),
            StepView::Run => {
                let b = body(depth);
                let r = run_steps(rest, depth, body, Some(b.1));
                (b.0 + r.0, r.1, r.2)
            },
            StepView::Yield => (Seq::empty(), depth, kept),
        }
    }
}

/// A traced function as a body for its caller: what it shows and gives
/// back when called with the counter at `k`.
pub open spec fn call<V>(steps: Seq<StepView>, body: spec_fn(int) -> (Seq<Event>, V)) -> spec_fn(int) -> (Seq<Event>, V) {
    |k: int| {
        let r = run_steps(steps, k, body, None);
        (r.0, r.2.unwrap())
    }
}

pub open spec fn pause_events(a: ArgsView) -> Seq<Event> {
    if a.pause {
        seq![Event::Pause]
    } else {
        Seq::empty()
    }
}

/// What a traced function shows when called at depth `depth`, where its
/// original body shows `inner`.
pub open spec fn traced_events(
    a: ArgsView,
    name: Seq<char>,
    names: Seq<Seq<char>>,
    depth: int,
    inner: Seq<Event>,
) -> Seq<Event> {
    seq![Event::Line { indent: depth, format: entering_format(a, name, names) }]
        + pause_events(a)
        + inner
        + seq![Event::Line { indent: depth, format: exiting_format(a, name) }]
        + pause_events(a)
}

/// A traced body gives back exactly what the original body gives back, run
/// once with the counter one deeper; it shows the entry line, the body's
/// own lines, and the exit line at the caller's depth, and leaves the
/// counter where it found it.
pub proof fn lemma_traced_run<V>(
    a: ArgsView,
    name: Seq<char>,
    names: Seq<Seq<char>>,
    depth: int,
    body: spec_fn(int) -> (Seq<Event>, V),
)
    ensures
        run_steps(traced_steps(a, name, names), depth, body, None).2 == Some(body(depth + 1).1),
        run_steps(traced_steps(a, name, names), depth, body, None).1 == depth,
        run_steps(traced_steps(a, name, names), depth, body, None).0 == traced_events(
            a,
            name,
            names,
            depth,
            body(depth + 1).0,
        ),
{
    let s = traced_steps(a, name, names);
    let b = body(depth + 1);
    let entry = Event::Line { indent: depth, format: entering_format(a, name, names) };
    let exit = Event::Line { indent: depth, format: exiting_format(a, name) };
    let tail = pause_steps(a) + seq![StepView::Yield];
    let from_exit = seq![StepView::Exit { sink: sink_of(a), format: exiting_format(a, name) }] + tail;
    let from_leave = seq![StepView::Leave] + from_exit;
    let from_run = seq![StepView::Run] + from_leave;
    let from_enter = seq![StepView::Enter] + from_run;
    let from_pause = pause_steps(a) + from_enter;
    assert(s =~= seq![s[0]] + from_pause);

    let r_yield = run_steps(seq![StepView::Yield], depth, body, Some(b.1));
    assert(seq![StepView::Yield].drop_first() =~= Seq::<StepView>::empty());
    assert(r_yield == (Seq::<Event>::empty(), depth, Some(b.1)));
    let r_tail = run_steps(tail, depth, body, Some(b.1));
    if a.pause {
        assert(tail.drop_first() =~= seq![StepView::Yield]);
        assert(r_tail.0 =~= pause_events(a));
    } else {
        assert(tail =~= seq![StepView::Yield]);
        assert(r_tail.0 =~= pause_events(a));
    }
    assert(from_exit.drop_first() =~= tail);
    let r_exit = run_steps(from_exit, depth, body, Some(b.1));
    assert(r_exit.0 =~= seq![exit] + pause_events(a));
    assert(from_leave.drop_first() =~= from_exit);
    let r_leave = run_steps(from_leave, depth + 1, body, Some(b.1));
    assert(r_leave == r_exit);
    assert(from_run.drop_first() =~= from_leave);
    let r_run = run_steps(from_run, depth + 1, body, None);
    assert(r_run.0 =~= b.0 + seq![exit] + pause_events(a));
    assert(r_run.2 == Some(b.1));
    assert(from_enter.drop_first() =~= from_run);
    let r_enter = run_steps(from_enter, depth, body, None);
    assert(r_enter == r_run);
    let r_pause = run_steps(from_pause, depth, body, None);
    if a.pause {
        assert(from_pause.drop_first() =~= from_enter);
        assert(r_pause.0 =~= pause_events(a) + r_enter.0);
    } else {
        assert(from_pause =~= from_enter);
    }
    assert(r_pause.1 == depth);
    assert((seq![s[0]] + from_pause).drop_first() =~= from_pause);
    assert(run_steps(s, depth, body, None).0 =~= seq![entry] + r_pause.0);
    assert(traced_events(a, name, names, depth, b.0) =~= seq![entry] + pause_events(a) + b.0 + seq![exit]
        + pause_events(a));
}

/// In a chain of traced calls, where `a` calls `b` and `b` calls `c`, the
/// lines of `b` stand one level deeper than those of `a`, and those of `c`
/// two levels deeper; the chain gives back what the innermost body gives.
pub proof fn lemma_nested_depth<V>(
    a: ArgsView,
    a_name: Seq<char>,
    a_names: Seq<Seq<char>>,
    b: ArgsView,
    b_name: Seq<char>,
    b_names: Seq<Seq<char>>,
    c: ArgsView,
    c_name: Seq<char>,
    c_names: Seq<Seq<char>>,
    leaf: spec_fn(int) -> (Seq<Event>, V),
    depth: int,
)
    ensures
        ({
            let run_c = call(traced_steps(c, c_name, c_names), leaf);
            let run_b = call(traced_steps(b, b_name, b_names), run_c);
            let r = run_steps(traced_steps(a, a_name, a_names), depth, run_b, None);
            &&& r.0 == traced_events(
                a,
                a_name,
                a_names,
                depth,
                traced_events(
                    b,
                    b_name,
                    b_names,
                    depth + 1,
                    traced_events(c, c_name, c_names, depth + 2, leaf(depth + 3).0),
                ),
            )
            &&& r.1 == depth
            &&& r.2 == Some(leaf(depth + 3).1)
        }),
{
    let run_c = call(traced_steps(c, c_name, c_names), leaf);
    let run_b = call(traced_steps(b, b_name, b_names), run_c);
    lemma_traced_run(c, c_name, c_names, depth + 2, leaf);
    lemma_traced_run(b, b_name, b_names, depth + 1, run_c);
    lemma_traced_run(a, a_name, a_names, depth, run_b);
}

} // verus!
