//! The configuration of one annotation: its option tokens, their
//! validation and the resolved [`Args`] record.
use vstd::prelude::*;

verus! {

// ---------------------------------------------------------------------------
// Option tokens, as written inside `#[trace(...)]`
/// A path such as `enable` or `a::b`, by its segments.
#[derive(Debug, PartialEq)]
pub struct Path {
    pub segments: Vec<String>,
}

/// A literal.
#[derive(Debug, PartialEq)]
pub enum Lit {
    /// A string literal, by its value.
    Str(String),
    /// Any other literal.
    Other,
}

/// One option: `name`, `name(...)` or `name = literal`.
#[derive(Debug, PartialEq)]
pub enum Meta {
    Path(Path),
    List(Path, Vec<NestedMeta>),
    NameValue(Path, Lit),
}

/// One comma-separated entry of an option list.
#[derive(Debug, PartialEq)]
pub enum NestedMeta {
    Meta(Meta),
    Lit(Lit),
}

/// Where a diagnostic points, by the position of the option token it is
/// about.
#[derive(Clone, Copy, PartialEq, Eq, Structural, Debug)]
pub enum Location {
    /// The whole `i`-th token.
    Arg(usize),
    /// The name of the `i`-th token.
    Name(usize),
    /// The literal value of the `i`-th token.
    Value(usize),
    /// The `j`-th entry of the list of the `i`-th token.
    Entry(usize, usize),
}

/// A message tied to a place among the option tokens.
#[derive(Debug, PartialEq)]
pub struct Diagnostic {
    pub at: Location,
    pub message: String,
}

impl View for Diagnostic {
    type V = (Location, Seq<char>);

    open spec fn view(&self) -> (Location, Seq<char>) {
        (self.at, self.message@)
    }
}

pub open spec fn diag_views(ds: Seq<Diagnostic>) -> Seq<(Location, Seq<char>)> {
    ds.map_values(|d: Diagnostic| d@)
}

// ---------------------------------------------------------------------------
// The configuration
/// The seven kinds of option.
#[derive(Clone, Copy, PartialEq, Eq, Structural, Debug)]
pub enum ArgKind {
    PrefixEnter,
    PrefixExit,
    Enable,
    Disable,
    Pause,
    Pretty,
    Logging,
}

/// Which declarations (or arguments) are traced.
#[derive(Debug, PartialEq)]
pub enum Filter {
    /// Everything is traced.
    All,
    /// Only the listed names are traced.
    Enable(Vec<String>),
    /// Everything but the listed names is traced.
    Disable(Vec<String>),
}

/// A [`Filter`] over names as character sequences.
pub enum FilterView {
    All,
    Enable(Seq<Seq<char>>),
    Disable(Seq<Seq<char>>),
}

pub open spec fn names_view(names: Seq<String>) -> Seq<Seq<char>> {
    names.map_values(|s: String| s@)
}

impl View for Filter {
    type V = FilterView;

    open spec fn view(&self) -> FilterView {
        match self {
            Filter::All => FilterView::All,
            Filter::Enable(names) => FilterView::Enable(names_view(names@)),
            Filter::Disable(names) => FilterView::Disable(names_view(names@)),
        }
    }
}

impl FilterView {
    /// Whether the filter lets `name` through.
    pub open spec fn admits(self, name: Seq<char>) -> bool {
        match self {
            FilterView::All => true,
            FilterView::Enable(names) => names.contains(name),
            FilterView::Disable(names) => !names.contains(name),
        }
    }
}

/// The resolved configuration of one annotation.
#[derive(Debug, PartialEq)]
pub struct Args {
    pub prefix_enter: String,
    pub prefix_exit: String,
    pub filter: Filter,
    pub pause: bool,
    pub pretty: bool,
    pub logging: bool,
}

pub struct ArgsView {
    pub prefix_enter: Seq<char>,
    pub prefix_exit: Seq<char>,
    pub filter: FilterView,
    pub pause: bool,
    pub pretty: bool,
    pub logging: bool,
}

impl View for Args {
    type V = ArgsView;

    open spec fn view(&self) -> ArgsView {
        ArgsView {
            prefix_enter: self.prefix_enter@,
            prefix_exit: self.prefix_exit@,
            filter: self.filter@,
            pause: self.pause,
            pretty: self.pretty,
            logging: self.logging,
        }
    }
}

/// Whether `names` holds `name`.
pub fn contains_name(names: &Vec<String>, name: &String) -> (r: bool)
    ensures
        r == names_view(names@).contains(name@),
{
    let mut i: usize = 0;
    while i < names.len()
        invariant
            i <= names.len(),
            forall|j: int| 0 <= j < i ==> (#[trigger] names@[j])@ != name@,
        decreases names.len() - i,
    {
        if names[i] == *name {
            assert(names_view(names@)[i as int] == name@);
            return true;
        }
        i = i + 1;
    }
    assert forall|j: int| 0 <= j < names_view(names@).len() implies names_view(names@)[j] != name@ by {
        assert(names_view(names@)[j] == names@[j]@);
    }
    false
}


// ---------------------------------------------------------------------------
// What each option token means
pub open spec fn kind_name(k: ArgKind) -> Seq<char> {
    match k {
        ArgKind::PrefixEnter => "prefix_enter"@,
        ArgKind::PrefixExit => "prefix_exit"@,
        ArgKind::Enable => "enable"@,
        ArgKind::Disable => "disable"@,
        ArgKind::Pause => "pause"@,
        ArgKind::Pretty => "pretty"@,
        ArgKind::Logging => "logging"@,
    }
}

/// The kind of option that a name stands for, if any.
pub open spec fn kind_of_name(n: Seq<char>) -> Option<ArgKind> {
    if n == "prefix_enter"@ {
        Some(ArgKind::PrefixEnter)
    } else if n == "prefix_exit"@ {
        Some(ArgKind::PrefixExit)
    } else if n == "enable"@ {
        Some(ArgKind::Enable)
    } else if n == "disable"@ {
        Some(ArgKind::Disable)
    } else if n == "pause"@ {
        Some(ArgKind::Pause)
    } else if n == "pretty"@ {
        Some(ArgKind::Pretty)
    } else if n == "logging"@ {
        Some(ArgKind::Logging)
    } else {
        None
    }
}

/// Options that take a string value.
pub open spec fn takes_string(k: ArgKind) -> bool {
    k == ArgKind::PrefixEnter || k == ArgKind::PrefixExit
}

/// Options that take a list of names.
pub open spec fn takes_list(k: ArgKind) -> bool {
    k == ArgKind::Enable || k == ArgKind::Disable
}

/// Options written as a bare word.
pub open spec fn is_flag(k: ArgKind) -> bool {
    !takes_string(k) && !takes_list(k)
}

/// The option's name between backquotes.
pub open spec fn quoted(k: ArgKind) -> Seq<char> {
    "`"@ + kind_name(k) + "`"@
}

/// The message for an option written in the wrong shape.
pub open spec fn shape_message(k: ArgKind) -> Seq<char> {
    if takes_string(k) {
        quoted(k) + " requires a string value"@
    } else if takes_list(k) {
        quoted(k) + " requires a list of meta words"@
    } else {
        quoted(k) + " must be a meta word"@
    }
}

pub open spec fn path_name(p: Path) -> Seq<char> {
    if p.segments@.len() > 0 {
        p.segments@[0]@
    } else {
        Seq::empty()
    }
}

pub open spec fn meta_path(m: Meta) -> Path {
    match m {
        Meta::Path(p) => p,
        Meta::List(p, _) => p,
        Meta::NameValue(p, _) => p,
    }
}

/// A list entry that is a single name.
pub open spec fn is_word(e: NestedMeta) -> bool {
    match e {
        NestedMeta::Meta(Meta::Path(p)) => p.segments@.len() == 1,
        _ => false,
    }
}

/// The name of a list entry that is a single name.
pub open spec fn word_of(e: NestedMeta) -> Seq<char> {
    match e {
        NestedMeta::Meta(Meta::Path(p)) => path_name(p),
        _ => Seq::empty(),
    }
}

/// One diagnostic for each entry of a name list that is not a single name,
/// in the order of the entries.
pub open spec fn entry_errors(i: int, k: ArgKind, entries: Seq<NestedMeta>) -> Seq<(Location, Seq<char>)>
    decreases entries.len(),
{
    if entries.len() == 0 {
        Seq::empty()
    } else {
        let j = entries.len() - 1;
        entry_errors(i, k, entries.drop_last()) + if is_word(entries[j]) {
            Seq::empty()
        } else {
            seq![(Location::Entry(i as usize, j as usize), quoted(k) + " must contain single ident paths only"@)]
        }
    }
}

/// The diagnostics of the `i`-th option token taken alone.
pub open spec fn token_errors(i: int, t: NestedMeta) -> Seq<(Location, Seq<char>)> {
    match t {
        NestedMeta::Lit(_) => seq![(Location::Arg(i as usize), "literal attribute not allowed"@)],
        NestedMeta::Meta(m) => {
            let name = path_name(meta_path(m));
            match kind_of_name(name) {
                None => seq![
                    (Location::Name(i as usize), "unknown attribute argument `"@ + name + "`"@),
                ],
                Some(k) => match m {
                    Meta::Path(_) => if is_flag(k) {
                        Seq::empty()
                    } else {
                        seq![(Location::Name(i as usize), shape_message(k))]
                    },
                    Meta::List(_, entries) => if takes_list(k) {
                        entry_errors(i, k, entries@)
                    } else {
                        seq![(Location::Name(i as usize), shape_message(k))]
                    },
                    Meta::NameValue(_, lit) => if takes_string(k) {
                        match lit {
                            Lit::Str(_) => Seq::empty(),
                            Lit::Other => seq![
                                (Location::Value(i as usize), quoted(k) + " must have a string value"@),
                            ],
                        }
                    } else {
                        seq![(Location::Name(i as usize), shape_message(k))]
                    },
                },
            }
        },
    }
}

/// The kind of a token that is well formed.
pub open spec fn parsed_kind(t: NestedMeta) -> Option<ArgKind> {
    if token_errors(0, t).len() == 0 {
        match t {
            NestedMeta::Meta(m) => kind_of_name(path_name(meta_path(m))),
            NestedMeta::Lit(_) => None,
        }
    } else {
        None
    }
}

/// The diagnostics of the first `n` tokens, each taken alone.
pub open spec fn token_errors_upto(toks: Seq<NestedMeta>, n: int) -> Seq<(Location, Seq<char>)>
    decreases n,
{
    if n <= 0 {
        Seq::empty()
    } else {
        token_errors_upto(toks, n - 1) + token_errors(n - 1, toks[n - 1])
    }
}

/// The positions among the first `n` entries of `kinds` that hold `k`.
pub open spec fn positions_upto(kinds: Seq<Option<ArgKind>>, k: ArgKind, n: int) -> Seq<int>
    decreases n,
{
    if n <= 0 {
        Seq::empty()
    } else {
        positions_upto(kinds, k, n - 1) + if kinds[n - 1] == Some(k) {
            seq![n - 1]
        } else {
            Seq::empty()
        }
    }
}

/// The positions of the well-formed tokens of kind `k`, in input order.
pub open spec fn occurrences(toks: Seq<NestedMeta>, k: ArgKind) -> Seq<int> {
    positions_upto(toks.map_values(|t: NestedMeta| parsed_kind(t)), k, toks.len() as int)
}

pub open spec fn duplicate_message(k: ArgKind) -> Seq<char> {
    "duplicate "@ + quoted(k)
}

pub open spec fn conflict_message() -> Seq<char> {
    "cannot have both `enable` and `disable`"@
}

/// One diagnostic at each of the given tokens.
pub open spec fn at_each(ps: Seq<int>, message: Seq<char>) -> Seq<(Location, Seq<char>)> {
    ps.map_values(|p: int| (Location::Arg(p as usize), message))
}

/// Every occurrence of an option that occurs more than once.
pub open spec fn duplicate_errors(toks: Seq<NestedMeta>, k: ArgKind) -> Seq<(Location, Seq<char>)> {
    if occurrences(toks, k).len() >= 2 {
        at_each(occurrences(toks, k), duplicate_message(k))
    } else {
        Seq::empty()
    }
}

/// Every occurrence of `enable` and of `disable`, where both occur.
pub open spec fn conflict_errors(toks: Seq<NestedMeta>) -> Seq<(Location, Seq<char>)> {
    let e = occurrences(toks, ArgKind::Enable);
    let d = occurrences(toks, ArgKind::Disable);
    if e.len() > 0 && d.len() > 0 {
        at_each(e, conflict_message()) + at_each(d, conflict_message())
    } else {
        Seq::empty()
    }
}

/// All diagnostics of an option list: those of each token in input order,
/// then the duplicates kind by kind, then the `enable`/`disable` conflict.
pub open spec fn diagnostics(toks: Seq<NestedMeta>) -> Seq<(Location, Seq<char>)> {
    token_errors_upto(toks, toks.len() as int)
        + duplicate_errors(toks, ArgKind::PrefixEnter)
        + duplicate_errors(toks, ArgKind::PrefixExit)
        + duplicate_errors(toks, ArgKind::Enable)
        + duplicate_errors(toks, ArgKind::Disable)
        + duplicate_errors(toks, ArgKind::Pause)
        + duplicate_errors(toks, ArgKind::Pretty)
        + duplicate_errors(toks, ArgKind::Logging)
        + conflict_errors(toks)
}

pub open spec fn default_prefix_enter() -> Seq<char> {
    "[+]"@
}

pub open spec fn default_prefix_exit() -> Seq<char> {
    "[-]"@
}

/// The string value of a `name = "..."` token.
pub open spec fn string_value(t: NestedMeta) -> Seq<char> {
    match t {
        NestedMeta::Meta(Meta::NameValue(_, Lit::Str(s))) => s@,
        _ => Seq::empty(),
    }
}

/// The names listed in a `name(...)` token.
pub open spec fn list_value(t: NestedMeta) -> Seq<Seq<char>> {
    match t {
        NestedMeta::Meta(Meta::List(_, entries)) => entries@.map_values(|e: NestedMeta| word_of(e)),
        _ => Seq::empty(),
    }
}

/// The value of a string option: its first occurrence, else the default.
pub open spec fn string_option(toks: Seq<NestedMeta>, k: ArgKind, default: Seq<char>) -> Seq<char> {
    if occurrences(toks, k).len() > 0 {
        string_value(toks[occurrences(toks, k)[0]])
    } else {
        default
    }
}

/// A flag is set when it occurs.
pub open spec fn flag_option(toks: Seq<NestedMeta>, k: ArgKind) -> bool {
    occurrences(toks, k).len() > 0
}

pub open spec fn filter_option(toks: Seq<NestedMeta>) -> FilterView {
    let e = occurrences(toks, ArgKind::Enable);
    let d = occurrences(toks, ArgKind::Disable);
    if e.len() > 0 {
        FilterView::Enable(list_value(toks[e[0]]))
    } else if d.len() > 0 {
        FilterView::Disable(list_value(toks[d[0]]))
    } else {
        FilterView::All
    }
}

/// The configuration that a valid option list stands for.
pub open spec fn config_of(toks: Seq<NestedMeta>) -> ArgsView {
    ArgsView {
        prefix_enter: string_option(toks, ArgKind::PrefixEnter, default_prefix_enter()),
        prefix_exit: string_option(toks, ArgKind::PrefixExit, default_prefix_exit()),
        filter: filter_option(toks),
        pause: flag_option(toks, ArgKind::Pause),
        pretty: flag_option(toks, ArgKind::Pretty),
        logging: flag_option(toks, ArgKind::Logging),
    }
}


// ---------------------------------------------------------------------------
// Parsing
proof fn lemma_entry_errors_empty(i: int, i2: int, k: ArgKind, entries: Seq<NestedMeta>)
    ensures
        entry_errors(i, k, entries).len() == 0 <==> entry_errors(i2, k, entries).len() == 0,
    decreases entries.len(),
{
    if entries.len() > 0 {
        lemma_entry_errors_empty(i, i2, k, entries.drop_last());
    }
}

/// Whether a token is well formed does not depend on where it stands.
proof fn lemma_token_errors_empty(i: int, t: NestedMeta)
    ensures
        token_errors(i, t).len() == 0 <==> token_errors(0, t).len() == 0,
{
    if let NestedMeta::Meta(m) = t {
        if let Meta::List(_, entries) = m {
            if let Some(k) = kind_of_name(path_name(meta_path(m))) {
                lemma_entry_errors_empty(i, 0, k, entries@);
            }
        }
    }
}

proof fn lemma_diag_views_concat(a: Seq<Diagnostic>, b: Seq<Diagnostic>)
    ensures
        diag_views(a + b) == diag_views(a) + diag_views(b),
{
    assert(diag_views(a + b) =~= diag_views(a) + diag_views(b));
}

fn single(d: Diagnostic) -> (r: Vec<Diagnostic>)
    ensures
        diag_views(r@) == seq![d@],
{
    let mut r = Vec::new();
    r.push(d);
    assert(diag_views(r@) =~= seq![d@]);
    r
}

impl ArgKind {
    /// The option's name as written in an annotation.
    pub fn name(&self) -> (r: String)
        ensures
            r@ == kind_name(*self),
    {
        match self {
            ArgKind::PrefixEnter => "prefix_enter".to_owned(),
            ArgKind::PrefixExit => "prefix_exit".to_owned(),
            ArgKind::Enable => "enable".to_owned(),
            ArgKind::Disable => "disable".to_owned(),
            ArgKind::Pause => "pause".to_owned(),
            ArgKind::Pretty => "pretty".to_owned(),
            ArgKind::Logging => "logging".to_owned(),
        }
    }

    /// The kind of option that `n` names, if any.
    pub fn from_name(n: &String) -> (r: Option<ArgKind>)
        ensures
            r == kind_of_name(n@),
    {
        if *n == "prefix_enter".to_owned() {
            Some(ArgKind::PrefixEnter)
        } else if *n == "prefix_exit".to_owned() {
            Some(ArgKind::PrefixExit)
        } else if *n == "enable".to_owned() {
            Some(ArgKind::Enable)
        } else if *n == "disable".to_owned() {
            Some(ArgKind::Disable)
        } else if *n == "pause".to_owned() {
            Some(ArgKind::Pause)
        } else if *n == "pretty".to_owned() {
            Some(ArgKind::Pretty)
        } else if *n == "logging".to_owned() {
            Some(ArgKind::Logging)
        } else {
            None
        }
    }

    fn quoted(&self) -> (r: String)
        ensures
            r@ == quoted(*self),
    {
        let mut r = "`".to_owned();
        let name = self.name();
        r.append(name.as_str());
        r.append("`");
        r
    }

    fn shape_message(&self) -> (r: String)
        ensures
            r@ == shape_message(*self),
    {
        let mut r = self.quoted();
        match self {
            ArgKind::PrefixEnter | ArgKind::PrefixExit => r.append(" requires a string value"),
            ArgKind::Enable | ArgKind::Disable => r.append(" requires a list of meta words"),
            _ => r.append(" must be a meta word"),
        }
        r
    }
}

fn first_segment(p: &Path) -> (r: String)
    ensures
        r@ == path_name(*p),
{
    if p.segments.len() > 0 {
        p.segments[0].clone()
    } else {
        String::new()
    }
}

fn entry_errors_of(i: usize, k: ArgKind, entries: &Vec<NestedMeta>) -> (r: Vec<Diagnostic>)
    ensures
        diag_views(r@) == entry_errors(i as int, k, entries@),
{
    let mut r: Vec<Diagnostic> = Vec::new();
    let mut j: usize = 0;
    while j < entries.len()
        invariant
            j <= entries.len(),
            diag_views(r@) == entry_errors(i as int, k, entries@.subrange(0, j as int)),
        decreases entries.len() - j,
    {
        let ghost before = r@;
        let word = match &entries[j] {
            NestedMeta::Meta(Meta::Path(p)) => p.segments.len() == 1,
            _ => false,
        };
        if !word {
            let mut message = k.quoted();
            message.append(" must contain single ident paths only");
            r.push(Diagnostic { at: Location::Entry(i, j), message });
        }
        proof {
            let sub = entries@.subrange(0, j + 1);
            assert(sub.drop_last() =~= entries@.subrange(0, j as int));
            assert(sub[j as int] == entries@[j as int]);
            if !word {
                lemma_diag_views_concat(before, seq![r@[j as int]]);
                assert(r@ =~= before + seq![r@[r@.len() - 1]]);
                assert(diag_views(seq![r@[r@.len() - 1]]) =~= seq![r@[r@.len() - 1]@]);
            }
        }
        j = j + 1;
    }
    assert(entries@.subrange(0, entries.len() as int) =~= entries@);
    r
}


/// The kind of the `i`-th token if it is well formed, and its diagnostics.
fn parse_token(i: usize, t: &NestedMeta) -> (r: (Option<ArgKind>, Vec<Diagnostic>))
    ensures
        r.0 == parsed_kind(*t),
        diag_views(r.1@) == token_errors(i as int, *t),
{
    proof {
        lemma_token_errors_empty(i as int, *t);
    }
    match t {
        NestedMeta::Lit(_) => {
            (None, single(Diagnostic { at: Location::Arg(i), message: "literal attribute not allowed".to_owned() }))
        },
        NestedMeta::Meta(m) => {
            let p = match m {
                Meta::Path(p) => p,
                Meta::List(p, _) => p,
                Meta::NameValue(p, _) => p,
            };
            let name = first_segment(p);
            match ArgKind::from_name(&name) {
                None => {
                    let mut message = "unknown attribute argument `".to_owned();
                    message.append(name.as_str());
                    message.append("`");
                    (None, single(Diagnostic { at: Location::Name(i), message }))
                },
                Some(k) => {
                    let errors = match m {
                        Meta::Path(_) => match k {
                            ArgKind::Pause | ArgKind::Pretty | ArgKind::Logging => Vec::new(),
                            _ => single(Diagnostic { at: Location::Name(i), message: k.shape_message() }),
                        },
                        Meta::List(_, entries) => match k {
                            ArgKind::Enable | ArgKind::Disable => entry_errors_of(i, k, entries),
                            _ => single(Diagnostic { at: Location::Name(i), message: k.shape_message() }),
                        },
                        Meta::NameValue(_, lit) => match k {
                            ArgKind::PrefixEnter | ArgKind::PrefixExit => match lit {
                                Lit::Str(_) => Vec::new(),
                                Lit::Other => {
                                    let mut message = k.quoted();
                                    message.append(" must have a string value");
                                    single(Diagnostic { at: Location::Value(i), message })
                                },
                            },
                            _ => single(Diagnostic { at: Location::Name(i), message: k.shape_message() }),
                        },
                    };
                    assert(errors@.len() == 0 ==> diag_views(errors@).len() == 0);
                    if errors.len() == 0 {
                        (Some(k), errors)
                    } else {
                        (None, errors)
                    }
                },
            }
        },
    }
}

/// The positions in `kinds` that hold `k`, in order.
fn positions(kinds: &Vec<Option<ArgKind>>, k: ArgKind) -> (r: Vec<usize>)
    ensures
        r@.map_values(|p: usize| p as int) == positions_upto(kinds@, k, kinds@.len() as int),
        forall|j: int| 0 <= j < r@.len() ==> r@[j] < kinds@.len() && kinds@[r@[j] as int] == Some(k),
{
    let mut r: Vec<usize> = Vec::new();
    let mut i: usize = 0;
    while i < kinds.len()
        invariant
            i <= kinds.len(),
            r@.map_values(|p: usize| p as int) == positions_upto(kinds@, k, i as int),
            forall|j: int| 0 <= j < r@.len() ==> r@[j] < i && kinds@[r@[j] as int] == Some(k),
        decreases kinds.len() - i,
    {
        let ghost before = r@;
        let hit = match kinds[i] {
            Some(k2) => k2 == k,
            None => false,
        };
        if hit {
            r.push(i);
            assert(r@.map_values(|p: usize| p as int) =~= before.map_values(|p: usize| p as int) + seq![i as int]);
        } else {
            assert(r@.map_values(|p: usize| p as int) =~= before.map_values(|p: usize| p as int) + Seq::<int>::empty());
        }
        i = i + 1;
    }
    r
}

/// Appends one diagnostic with `message` at each of the given tokens.
fn report_each(errors: &mut Vec<Diagnostic>, ps: &Vec<usize>, message: &String)
    ensures
        diag_views(final(errors)@) == diag_views(old(errors)@) + at_each(
            ps@.map_values(|p: usize| p as int),
            message@,
        ),
{
    let ghost start = errors@;
    let ghost ints = ps@.map_values(|p: usize| p as int);
    let mut j: usize = 0;
    while j < ps.len()
        invariant
            j <= ps.len(),
            ints == ps@.map_values(|p: usize| p as int),
            diag_views(errors@) == diag_views(start) + at_each(ints.subrange(0, j as int), message@),
        decreases ps.len() - j,
    {
        let ghost before = errors@;
        errors.push(Diagnostic { at: Location::Arg(ps[j]), message: message.clone() });
        proof {
            lemma_diag_views_concat(before, seq![errors@[errors@.len() - 1]]);
            assert(errors@ =~= before + seq![errors@[errors@.len() - 1]]);
            assert(diag_views(seq![errors@[errors@.len() - 1]]) =~= seq![errors@[errors@.len() - 1]@]);
            assert(at_each(ints.subrange(0, j + 1), message@) =~= at_each(ints.subrange(0, j as int), message@)
                + seq![(Location::Arg(ps@[j as int]), message@)]);
        }
        j = j + 1;
    }
    assert(ints.subrange(0, ps.len() as int) =~= ints);
}

fn report_duplicates(errors: &mut Vec<Diagnostic>, raw_args: &Vec<NestedMeta>, ps: &Vec<usize>, k: ArgKind)
    requires
        ps@.map_values(|p: usize| p as int) == occurrences(raw_args@, k),
    ensures
        diag_views(final(errors)@) == diag_views(old(errors)@) + duplicate_errors(raw_args@, k),
{
    assert(ps@.len() == occurrences(raw_args@, k).len());
    if ps.len() >= 2 {
        let mut message = "duplicate ".to_owned();
        let q = k.quoted();
        message.append(q.as_str());
        report_each(errors, ps, &message);
    } else {
        assert(diag_views(errors@) + Seq::empty() =~= diag_views(errors@));
    }
}

fn string_value_of(t: &NestedMeta) -> (r: String)
    ensures
        r@ == string_value(*t),
{
    match t {
        NestedMeta::Meta(Meta::NameValue(_, Lit::Str(s))) => s.clone(),
        _ => String::new(),
    }
}

fn list_value_of(t: &NestedMeta) -> (r: Vec<String>)
    ensures
        names_view(r@) == list_value(*t),
{
    let mut r: Vec<String> = Vec::new();
    match t {
        NestedMeta::Meta(Meta::List(_, entries)) => {
            let mut j: usize = 0;
            while j < entries.len()
                invariant
                    j <= entries.len(),
                    r@.len() == j,
                    forall|m: int| 0 <= m < j ==> (#[trigger] r@[m])@ == word_of(entries@[m]),
                decreases entries.len() - j,
            {
                let w = match &entries[j] {
                    NestedMeta::Meta(Meta::Path(p)) => first_segment(p),
                    _ => String::new(),
                };
                r.push(w);
                j = j + 1;
            }
            assert(names_view(r@) =~= list_value(*t));
        },
        _ => {
            assert(names_view(r@) =~= list_value(*t));
        },
    }
    r
}

/// The kind of each token where it is well formed, and the diagnostics of
/// the tokens taken alone.
fn parse_tokens(raw_args: &Vec<NestedMeta>) -> (r: (Vec<Option<ArgKind>>, Vec<Diagnostic>))
    ensures
        r.0@ == raw_args@.map_values(|t: NestedMeta| parsed_kind(t)),
        diag_views(r.1@) == token_errors_upto(raw_args@, raw_args@.len() as int),
{
    let mut errors: Vec<Diagnostic> = Vec::new();
    let mut kinds: Vec<Option<ArgKind>> = Vec::new();
    let mut i: usize = 0;
    while i < raw_args.len()
        invariant
            i <= raw_args.len(),
            kinds@.len() == i,
            forall|j: int| 0 <= j < i ==> kinds@[j] == parsed_kind(#[trigger] raw_args@[j]),
            diag_views(errors@) == token_errors_upto(raw_args@, i as int),
        decreases raw_args.len() - i,
    {
        let (kind, mut es) = parse_token(i, &raw_args[i]);
        let ghost before = errors@;
        proof {
            lemma_diag_views_concat(before, es@);
        }
        errors.append(&mut es);
        kinds.push(kind);
        i = i + 1;
    }
    assert(kinds@ =~= raw_args@.map_values(|t: NestedMeta| parsed_kind(t)));
    (kinds, errors)
}

/// The value of a string option, given the positions of its occurrences.
fn string_option_of(raw_args: &Vec<NestedMeta>, ps: &Vec<usize>, default: &str) -> (r: String)
    requires
        forall|j: int| 0 <= j < ps@.len() ==> ps@[j] < raw_args@.len(),
    ensures
        r@ == if ps@.len() > 0 {
            string_value(raw_args@[ps@[0] as int])
        } else {
            default@
        },
{
    if ps.len() > 0 {
        string_value_of(&raw_args[ps[0]])
    } else {
        default.to_owned()
    }
}

fn filter_option_of(raw_args: &Vec<NestedMeta>, enable: &Vec<usize>, disable: &Vec<usize>) -> (r: Filter)
    requires
        forall|j: int| 0 <= j < enable@.len() ==> enable@[j] < raw_args@.len(),
        forall|j: int| 0 <= j < disable@.len() ==> disable@[j] < raw_args@.len(),
    ensures
        r@ == if enable@.len() > 0 {
            FilterView::Enable(list_value(raw_args@[enable@[0] as int]))
        } else if disable@.len() > 0 {
            FilterView::Disable(list_value(raw_args@[disable@[0] as int]))
        } else {
            FilterView::All
        },
{
    if enable.len() > 0 {
        Filter::Enable(list_value_of(&raw_args[enable[0]]))
    } else if disable.len() > 0 {
        Filter::Disable(list_value_of(&raw_args[disable[0]]))
    } else {
        Filter::All
    }
}

proof fn lemma_positions_are_occurrences(toks: Seq<NestedMeta>, kinds: Seq<Option<ArgKind>>, ps: Seq<usize>, k: ArgKind)
    requires
        kinds == toks.map_values(|t: NestedMeta| parsed_kind(t)),
        ps.map_values(|p: usize| p as int) == positions_upto(kinds, k, kinds.len() as int),
    ensures
        ps.map_values(|p: usize| p as int) == occurrences(toks, k),
        ps.len() == occurrences(toks, k).len(),
        ps.len() > 0 ==> ps[0] as int == occurrences(toks, k)[0],
{
    assert(ps.map_values(|p: usize| p as int).len() == ps.len());
    if ps.len() > 0 {
        assert(ps.map_values(|p: usize| p as int)[0] == ps[0] as int);
    }
}

/// Appends the conflict between `enable` and `disable`, if both occur.
fn report_conflict(errors: &mut Vec<Diagnostic>, raw_args: &Vec<NestedMeta>, enable_args: &Vec<usize>, disable_args: &Vec<usize>)
    requires
        enable_args@.map_values(|p: usize| p as int) == occurrences(raw_args@, ArgKind::Enable),
        disable_args@.map_values(|p: usize| p as int) == occurrences(raw_args@, ArgKind::Disable),
    ensures
        diag_views(final(errors)@) == diag_views(old(errors)@) + conflict_errors(raw_args@),
{
    let ghost start = diag_views(errors@);
    assert(enable_args@.len() == occurrences(raw_args@, ArgKind::Enable).len());
    assert(disable_args@.len() == occurrences(raw_args@, ArgKind::Disable).len());
    if enable_args.len() > 0 && disable_args.len() > 0 {
        let message = "cannot have both `enable` and `disable`".to_owned();
        report_each(errors, enable_args, &message);
        report_each(errors, disable_args, &message);
        assert(diag_views(errors@) =~= start + conflict_errors(raw_args@));
    } else {
        assert(diag_views(errors@) =~= start + conflict_errors(raw_args@));
    }
}

impl Args {
    /// Validates a list of option tokens and resolves it into a
    /// configuration. Every problem is reported, in the order that
    /// [`diagnostics`] gives; the configuration comes only where there is
    /// none.
    pub fn from_raw_args(raw_args: Vec<NestedMeta>) -> (r: Result<Args, Vec<Diagnostic>>)
        ensures
            match r {
                Ok(a) => diagnostics(raw_args@).len() == 0 && a@ == config_of(raw_args@),
                Err(es) => diagnostics(raw_args@).len() > 0 && diag_views(es@) == diagnostics(raw_args@),
            },
    {
        let ghost toks = raw_args@;
        let (kinds, mut errors) = parse_tokens(&raw_args);

        let prefix_enter_args = positions(&kinds, ArgKind::PrefixEnter);
        let prefix_exit_args = positions(&kinds, ArgKind::PrefixExit);
        let enable_args = positions(&kinds, ArgKind::Enable);
        let disable_args = positions(&kinds, ArgKind::Disable);
        let pause_args = positions(&kinds, ArgKind::Pause);
        let pretty_args = positions(&kinds, ArgKind::Pretty);
        let logging_args = positions(&kinds, ArgKind::Logging);
        proof {
            lemma_positions_are_occurrences(toks, kinds@, prefix_enter_args@, ArgKind::PrefixEnter);
            lemma_positions_are_occurrences(toks, kinds@, prefix_exit_args@, ArgKind::PrefixExit);
            lemma_positions_are_occurrences(toks, kinds@, enable_args@, ArgKind::Enable);
            lemma_positions_are_occurrences(toks, kinds@, disable_args@, ArgKind::Disable);
            lemma_positions_are_occurrences(toks, kinds@, pause_args@, ArgKind::Pause);
            lemma_positions_are_occurrences(toks, kinds@, pretty_args@, ArgKind::Pretty);
            lemma_positions_are_occurrences(toks, kinds@, logging_args@, ArgKind::Logging);
        }

        report_duplicates(&mut errors, &raw_args, &prefix_enter_args, ArgKind::PrefixEnter);
        report_duplicates(&mut errors, &raw_args, &prefix_exit_args, ArgKind::PrefixExit);
        report_duplicates(&mut errors, &raw_args, &enable_args, ArgKind::Enable);
        report_duplicates(&mut errors, &raw_args, &disable_args, ArgKind::Disable);
        report_duplicates(&mut errors, &raw_args, &pause_args, ArgKind::Pause);
        report_duplicates(&mut errors, &raw_args, &pretty_args, ArgKind::Pretty);
        report_duplicates(&mut errors, &raw_args, &logging_args, ArgKind::Logging);
        report_conflict(&mut errors, &raw_args, &enable_args, &disable_args);
        assert(diag_views(errors@) == diagnostics(toks));
        assert(diag_views(errors@).len() == errors@.len());

        if errors.len() == 0 {
            let a = Args {
                prefix_enter: string_option_of(&raw_args, &prefix_enter_args, "[+]"),
                prefix_exit: string_option_of(&raw_args, &prefix_exit_args, "[-]"),
                filter: filter_option_of(&raw_args, &enable_args, &disable_args),
                pause: pause_args.len() > 0,
                pretty: pretty_args.len() > 0,
                logging: logging_args.len() > 0,
            };
            Ok(a)
        } else {
            Err(errors)
        }
    }
}


// ---------------------------------------------------------------------------
// Laws of the option parser
proof fn lemma_contains_left<A>(a: Seq<A>, b: Seq<A>, x: A)
    requires
        a.contains(x),
    ensures
        (a + b).contains(x),
{
    let i = choose|i: int| 0 <= i < a.len() && a[i] == x;
    assert((a + b)[i] == x);
}

proof fn lemma_contains_right<A>(a: Seq<A>, b: Seq<A>, x: A)
    requires
        b.contains(x),
    ensures
        (a + b).contains(x),
{
    let i = choose|i: int| 0 <= i < b.len() && b[i] == x;
    assert((a + b)[a.len() + i] == x);
}

proof fn lemma_token_errors_upto_empty(toks: Seq<NestedMeta>, n: int)
    requires
        0 <= n <= toks.len(),
        forall|i: int| 0 <= i < toks.len() ==> (#[trigger] token_errors(i, toks[i])).len() == 0,
    ensures
        token_errors_upto(toks, n).len() == 0,
    decreases n,
{
    if n > 0 {
        lemma_token_errors_upto_empty(toks, n - 1);
        assert(token_errors(n - 1, toks[n - 1]).len() == 0);
    }
}

/// A list of well-formed options in which no kind occurs twice and
/// `enable` and `disable` do not both occur is accepted, and each option
/// that it leaves out takes its default.
pub proof fn lemma_valid_options_accepted(toks: Seq<NestedMeta>)
    requires
        forall|i: int| 0 <= i < toks.len() ==> (#[trigger] token_errors(i, toks[i])).len() == 0,
        forall|k: ArgKind| (#[trigger] occurrences(toks, k)).len() <= 1,
        occurrences(toks, ArgKind::Enable).len() == 0 || occurrences(toks, ArgKind::Disable).len() == 0,
    ensures
        diagnostics(toks).len() == 0,
        occurrences(toks, ArgKind::PrefixEnter).len() == 0 ==> config_of(toks).prefix_enter == default_prefix_enter(),
        occurrences(toks, ArgKind::PrefixExit).len() == 0 ==> config_of(toks).prefix_exit == default_prefix_exit(),
        occurrences(toks, ArgKind::Enable).len() == 0 && occurrences(toks, ArgKind::Disable).len() == 0
            ==> config_of(toks).filter == FilterView::All,
        occurrences(toks, ArgKind::Pause).len() == 0 ==> !config_of(toks).pause,
        occurrences(toks, ArgKind::Pretty).len() == 0 ==> !config_of(toks).pretty,
        occurrences(toks, ArgKind::Logging).len() == 0 ==> !config_of(toks).logging,
{
    lemma_token_errors_upto_empty(toks, toks.len() as int);
    assert(occurrences(toks, ArgKind::PrefixEnter).len() <= 1);
    assert(occurrences(toks, ArgKind::PrefixExit).len() <= 1);
    assert(occurrences(toks, ArgKind::Enable).len() <= 1);
    assert(occurrences(toks, ArgKind::Disable).len() <= 1);
    assert(occurrences(toks, ArgKind::Pause).len() <= 1);
    assert(occurrences(toks, ArgKind::Pretty).len() <= 1);
    assert(occurrences(toks, ArgKind::Logging).len() <= 1);
}

/// Where an option occurs more than once, each of its occurrences is
/// reported as a duplicate, the first one too.
pub proof fn lemma_every_duplicate_reported(toks: Seq<NestedMeta>, k: ArgKind)
    requires
        occurrences(toks, k).len() >= 2,
    ensures
        forall|j: int|
            0 <= j < occurrences(toks, k).len() ==> diagnostics(toks).contains(
                (Location::Arg(#[trigger] occurrences(toks, k)[j] as usize), duplicate_message(k)),
            ),
{
    let t = token_errors_upto(toks, toks.len() as int);
    let pe = duplicate_errors(toks, ArgKind::PrefixEnter);
    let px = duplicate_errors(toks, ArgKind::PrefixExit);
    let en = duplicate_errors(toks, ArgKind::Enable);
    let di = duplicate_errors(toks, ArgKind::Disable);
    let pa = duplicate_errors(toks, ArgKind::Pause);
    let pr = duplicate_errors(toks, ArgKind::Pretty);
    let lo = duplicate_errors(toks, ArgKind::Logging);
    let c = conflict_errors(toks);
    assert forall|j: int| 0 <= j < occurrences(toks, k).len() implies diagnostics(toks).contains(
        (Location::Arg(#[trigger] occurrences(toks, k)[j] as usize), duplicate_message(k)),
    ) by {
        let x = (Location::Arg(occurrences(toks, k)[j] as usize), duplicate_message(k));
        let d = duplicate_errors(toks, k);
        assert(d[j] == x);
        assert(d.contains(x));
        match k {
            ArgKind::PrefixEnter => {
                lemma_contains_right(t, pe, x);
                lemma_contains_left(t + pe, px, x);
                lemma_contains_left(t + pe + px, en, x);
                lemma_contains_left(t + pe + px + en, di, x);
                lemma_contains_left(t + pe + px + en + di, pa, x);
                lemma_contains_left(t + pe + px + en + di + pa, pr, x);
                lemma_contains_left(t + pe + px + en + di + pa + pr, lo, x);
                lemma_contains_left(t + pe + px + en + di + pa + pr + lo, c, x);
            },
            ArgKind::PrefixExit => {
                lemma_contains_right(t + pe, px, x);
                lemma_contains_left(t + pe + px, en, x);
                lemma_contains_left(t + pe + px + en, di, x);
                lemma_contains_left(t + pe + px + en + di, pa, x);
                lemma_contains_left(t + pe + px + en + di + pa, pr, x);
                lemma_contains_left(t + pe + px + en + di + pa + pr, lo, x);
                lemma_contains_left(t + pe + px + en + di + pa + pr + lo, c, x);
            },
            ArgKind::Enable => {
                lemma_contains_right(t + pe + px, en, x);
                lemma_contains_left(t + pe + px + en, di, x);
                lemma_contains_left(t + pe + px + en + di, pa, x);
                lemma_contains_left(t + pe + px + en + di + pa, pr, x);
                lemma_contains_left(t + pe + px + en + di + pa + pr, lo, x);
                lemma_contains_left(t + pe + px + en + di + pa + pr + lo, c, x);
            },
            ArgKind::Disable => {
                lemma_contains_right(t + pe + px + en, di, x);
                lemma_contains_left(t + pe + px + en + di, pa, x);
                lemma_contains_left(t + pe + px + en + di + pa, pr, x);
                lemma_contains_left(t + pe + px + en + di + pa + pr, lo, x);
                lemma_contains_left(t + pe + px + en + di + pa + pr + lo, c, x);
            },
            ArgKind::Pause => {
                lemma_contains_right(t + pe + px + en + di, pa, x);
                lemma_contains_left(t + pe + px + en + di + pa, pr, x);
                lemma_contains_left(t + pe + px + en + di + pa + pr, lo, x);
                lemma_contains_left(t + pe + px + en + di + pa + pr + lo, c, x);
            },
            ArgKind::Pretty => {
                lemma_contains_right(t + pe + px + en + di + pa, pr, x);
                lemma_contains_left(t + pe + px + en + di + pa + pr, lo, x);
                lemma_contains_left(t + pe + px + en + di + pa + pr + lo, c, x);
            },
            ArgKind::Logging => {
                lemma_contains_right(t + pe + px + en + di + pa + pr, lo, x);
                lemma_contains_left(t + pe + px + en + di + pa + pr + lo, c, x);
            },
        }
    }
}

/// Where both `enable` and `disable` occur, each of their occurrences is
/// reported as a conflict: two diagnostics where each occurs once.
pub proof fn lemma_conflict_reported(toks: Seq<NestedMeta>)
    requires
        occurrences(toks, ArgKind::Enable).len() > 0,
        occurrences(toks, ArgKind::Disable).len() > 0,
    ensures
        diagnostics(toks).len() > 0,
        forall|j: int|
            0 <= j < occurrences(toks, ArgKind::Enable).len() ==> diagnostics(toks).contains(
                (Location::Arg(#[trigger] occurrences(toks, ArgKind::Enable)[j] as usize), conflict_message()),
            ),
        forall|j: int|
            0 <= j < occurrences(toks, ArgKind::Disable).len() ==> diagnostics(toks).contains(
                (Location::Arg(#[trigger] occurrences(toks, ArgKind::Disable)[j] as usize), conflict_message()),
            ),
        occurrences(toks, ArgKind::Enable).len() == 1 && occurrences(toks, ArgKind::Disable).len() == 1
            ==> conflict_errors(toks) == seq![
                (Location::Arg(occurrences(toks, ArgKind::Enable)[0] as usize), conflict_message()),
                (Location::Arg(occurrences(toks, ArgKind::Disable)[0] as usize), conflict_message()),
            ],
{
    let e = occurrences(toks, ArgKind::Enable);
    let d = occurrences(toks, ArgKind::Disable);
    let ae = at_each(e, conflict_message());
    let ad = at_each(d, conflict_message());
    let rest = diagnostics(toks).subrange(0, diagnostics(toks).len() - conflict_errors(toks).len());
    assert(diagnostics(toks) =~= rest + (ae + ad));
    assert forall|j: int| 0 <= j < e.len() implies diagnostics(toks).contains(
        (Location::Arg(#[trigger] e[j] as usize), conflict_message()),
    ) by {
        let x = (Location::Arg(e[j] as usize), conflict_message());
        assert(ae[j] == x);
        lemma_contains_left(ae, ad, x);
        lemma_contains_right(rest, ae + ad, x);
    }
    assert forall|j: int| 0 <= j < d.len() implies diagnostics(toks).contains(
        (Location::Arg(#[trigger] d[j] as usize), conflict_message()),
    ) by {
        let x = (Location::Arg(d[j] as usize), conflict_message());
        assert(ad[j] == x);
        lemma_contains_right(ae, ad, x);
        lemma_contains_right(rest, ae + ad, x);
    }
    if e.len() == 1 && d.len() == 1 {
        assert(conflict_errors(toks) =~= seq![
            (Location::Arg(e[0] as usize), conflict_message()),
            (Location::Arg(d[0] as usize), conflict_message()),
        ]);
    }
}

} // verus!
