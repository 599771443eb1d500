use crate::error::BlogError;
use pulldown_cmark::{CodeBlockKind, CowStr, Event, Options, Parser, Tag, TagEnd};
use syntect::highlighting::{Theme, ThemeSet};
use syntect::parsing::SyntaxSet;
use vstd::prelude::*;
use vstd::string::*;

verus! {

/// What the code-block transform needs to know of one markdown event.
pub enum Piece {
    /// The start of a code block, with the language token of a fenced
    /// block (`None` for an indented block).
    CodeStart(Option<String>),
    /// The end of a code block.
    CodeEnd,
    /// A text node.
    Text(String),
    /// Any other event.
    Other,
}

/// One instruction of the rewritten event stream.
pub enum Step {
    /// Keep the event at this index unchanged.
    Pass(usize),
    /// Emit the highlighted HTML of this code, in this language.
    Highlight(Option<String>, String),
}

/// The state of the transform between two events.
pub enum CodeState {
    /// Outside any code block.
    Outside,
    /// Inside a code block: its language token and the code read so far.
    Inside(Option<String>, String),
}

/// A `Piece` as a mathematical value.
pub enum PieceView {
    CodeStart(Option<Seq<char>>),
    CodeEnd,
    Text(Seq<char>),
    Other,
}

/// A `Step` as a mathematical value.
pub enum StepView {
    Pass(int),
    Highlight(Option<Seq<char>>, Seq<char>),
}

/// A `CodeState` as a mathematical value.
pub enum StateView {
    Outside,
    Inside(Option<Seq<char>>, Seq<char>),
}

/// The characters of an optional string.
pub open spec fn opt_view(o: Option<String>) -> Option<Seq<char>> {
    match o {
        Some(s) => Some(s@),
        None => None,
    }
}

impl View for Piece {
    type V = PieceView;

    open spec fn view(&self) -> PieceView {
        match self {
            Piece::CodeStart(l) => PieceView::CodeStart(opt_view(*l)),
            Piece::CodeEnd => PieceView::CodeEnd,
            Piece::Text(t) => PieceView::Text(t@),
            Piece::Other => PieceView::Other,
        }
    }
}

impl View for Step {
    type V = StepView;

    open spec fn view(&self) -> StepView {
        match self {
            Step::Pass(i) => StepView::Pass(*i as int),
            Step::Highlight(l, c) => StepView::Highlight(opt_view(*l), c@),
        }
    }
}

impl View for CodeState {
    type V = StateView;

    open spec fn view(&self) -> StateView {
        match self {
            CodeState::Outside => StateView::Outside,
            CodeState::Inside(l, b) => StateView::Inside(opt_view(*l), b@),
        }
    }
}

/// The values of a sequence of pieces.
pub open spec fn pieces_view(v: Seq<Piece>) -> Seq<PieceView> {
    v.map_values(|p: Piece| p@)
}

/// The values of a sequence of steps.
pub open spec fn steps_view(v: Seq<Step>) -> Seq<StepView> {
    v.map_values(|s: Step| s@)
}

/// One move of the transform on the event `p` at index `idx`: the next
/// state and the steps it emits. A code block's start opens the buffer and
/// records the language; text inside a block is buffered; the block's end
/// emits one highlighted fragment for the whole buffer; every other event,
/// and text outside a block, is kept.
pub open spec fn step_spec(st: StateView, p: PieceView, idx: int) -> (StateView, Seq<StepView>) {
    match p {
        PieceView::CodeStart(l) => match st {
            StateView::Outside => (StateView::Inside(l, Seq::empty()), Seq::empty()),
            StateView::Inside(_, buf) => (StateView::Inside(l, buf), Seq::empty()),
        },
        PieceView::CodeEnd => match st {
            StateView::Outside => (StateView::Outside, Seq::empty()),
            StateView::Inside(l, buf) => (StateView::Outside, seq![StepView::Highlight(l, buf)]),
        },
        PieceView::Text(t) => match st {
            StateView::Outside => (StateView::Outside, seq![StepView::Pass(idx)]),
            StateView::Inside(l, buf) => (StateView::Inside(l, buf + t), Seq::empty()),
        },
        PieceView::Other => (st, seq![StepView::Pass(idx)]),
    }
}

/// The state after the first `n` events of `ps`, and the steps emitted on
/// the way.
pub open spec fn plan_prefix(ps: Seq<PieceView>, n: int) -> (StateView, Seq<StepView>)
    decreases n,
{
    if n <= 0 {
        (StateView::Outside, Seq::empty())
    } else {
        let prev = plan_prefix(ps, n - 1);
        let next = step_spec(prev.0, ps[n - 1], n - 1);
        (next.0, prev.1 + next.1)
    }
}

/// The rewritten stream for the events `ps`.
pub open spec fn plan_of(ps: Seq<PieceView>) -> Seq<StepView> {
    plan_prefix(ps, ps.len() as int).1
}

/// Every event that the first `n` events keep has an index below `n`.
pub proof fn plan_passes_in_range(ps: Seq<PieceView>, n: int)
    requires
        0 <= n <= ps.len(),
    ensures
        forall|k: int|
            0 <= k < plan_prefix(ps, n).1.len() ==> ((#[trigger] plan_prefix(ps, n).1[k]) is Pass
                ==> 0 <= plan_prefix(ps, n).1[k]->Pass_0 < n),
    decreases n,
{
    if n > 0 {
        plan_passes_in_range(ps, n - 1);
        let prev = plan_prefix(ps, n - 1);
        let next = step_spec(prev.0, ps[n - 1], n - 1);
        assert forall|k: int|
            0 <= k < plan_prefix(ps, n).1.len() && (#[trigger] plan_prefix(ps, n).1[k]) is Pass
            implies 0 <= plan_prefix(ps, n).1[k]->Pass_0 < n by {
            if k < prev.1.len() {
                assert(plan_prefix(ps, n).1[k] == prev.1[k]);
            } else {
                assert(plan_prefix(ps, n).1[k] == next.1[k - prev.1.len()]);
            }
        }
    }
}

/// A copy of a language token.
fn clone_lang(l: &Option<String>) -> (r: Option<String>)
    ensures
        opt_view(r) == opt_view(*l),
{
    match l {
        Some(s) => Some(s.clone()),
        None => None,
    }
}

/// Moves the transform over the event `piece` at index `idx`, appending
/// what it emits to `out`.
pub fn step(state: CodeState, piece: &Piece, idx: usize, out: &mut Vec<Step>) -> (next: CodeState)
    ensures
        next@ == step_spec(state@, piece@, idx as int).0,
        steps_view(final(out)@) == steps_view(old(out)@) + step_spec(state@, piece@, idx as int).1,
{
    let ghost before = out@;
    let next = match piece {
        Piece::CodeStart(l) => match state {
            CodeState::Outside => CodeState::Inside(clone_lang(l), String::new()),
            CodeState::Inside(_, buf) => CodeState::Inside(clone_lang(l), buf),
        },
        Piece::CodeEnd => match state {
            CodeState::Outside => CodeState::Outside,
            CodeState::Inside(l, buf) => {
                out.push(Step::Highlight(l, buf));
                CodeState::Outside
            },
        },
        Piece::Text(t) => match state {
            CodeState::Outside => {
                out.push(Step::Pass(idx));
                CodeState::Outside
            },
            CodeState::Inside(l, buf) => {
                let mut buf = buf;
                buf.append(t.as_str());
                CodeState::Inside(l, buf)
            },
        },
        Piece::Other => {
            out.push(Step::Pass(idx));
            state
        },
    };
    assert(steps_view(out@) =~= steps_view(before) + step_spec(state@, piece@, idx as int).1);
    next
}

/// Rewrites a stream of markdown events so that each code block becomes a
/// single highlighting step over its whole text.
pub fn plan_code_blocks(pieces: &Vec<Piece>) -> (r: Vec<Step>)
    ensures
        steps_view(r@) == plan_of(pieces_view(pieces@)),
        forall|k: int|
            0 <= k < r.len() ==> ((#[trigger] r@[k]) is Pass ==> r@[k]->Pass_0 < pieces.len()),
{
    let ghost ps = pieces_view(pieces@);
    let mut out: Vec<Step> = Vec::new();
    let mut state = CodeState::Outside;
    let mut i: usize = 0;
    while i < pieces.len()
        invariant
            i <= pieces.len(),
            ps == pieces_view(pieces@),
            state@ == plan_prefix(ps, i as int).0,
            steps_view(out@) == plan_prefix(ps, i as int).1,
        decreases pieces.len() - i,
    {
        state = step(state, &pieces[i], i, &mut out);
        i = i + 1;
    }
    proof {
        plan_passes_in_range(ps, pieces.len() as int);
        assert forall|k: int| 0 <= k < out.len() && (#[trigger] out@[k]) is Pass implies out@[
            k]->Pass_0 < pieces.len() by {
            assert(steps_view(out@)[k] == out@[k]@);
        }
    }
    out
}

/// One item of the rewritten event stream, as handed to the serialiser.
pub enum Emit {
    /// The parsed event at this index, unchanged.
    Keep(usize),
    /// A raw HTML fragment.
    Fragment(String),
}

/// An `Emit` as a mathematical value.
pub enum EmitView {
    Keep(int),
    Fragment(Seq<char>),
}

impl View for Emit {
    type V = EmitView;

    open spec fn view(&self) -> EmitView {
        match self {
            Emit::Keep(i) => EmitView::Keep(*i as int),
            Emit::Fragment(h) => EmitView::Fragment(h@),
        }
    }
}

/// The values of a sequence of emitted items.
pub open spec fn emits_view(v: Seq<Emit>) -> Seq<EmitView> {
    v.map_values(|e: Emit| e@)
}

/// The markdown extensions that posts are parsed with, as pulldown-cmark's
/// option bits: tables, footnotes, strikethrough, task lists, smart
/// punctuation and YAML-style metadata blocks.
pub const MARKDOWN_OPTIONS: u32 = 190;

/// The pieces of the events that pulldown-cmark parses from `body` with the
/// option bits `options`: one piece for each event, in order.
pub uninterp spec fn md_pieces(body: Seq<char>, options: u32) -> Seq<PieceView>;

/// The HTML that pulldown-cmark's serialiser writes for the stream in which
/// each `Keep(i)` of `items` stands for the `i`-th event parsed from `body`
/// with `options`, and each `Fragment(h)` for a raw HTML node holding `h`.
pub uninterp spec fn html_of(body: Seq<char>, options: u32, items: Seq<EmitView>) -> Seq<char>;

/// Whether syntect's bundled grammars have one for the language token
/// `token`.
pub uninterp spec fn known_token(token: Seq<char>) -> bool;

/// What syntect's highlighting gives for `code` with the bundled grammar of
/// the token `token` and the bundled `base16-ocean.dark` theme: the HTML, or
/// the description of the failure.
pub uninterp spec fn token_html(code: Seq<char>, token: Seq<char>) -> Result<Seq<char>, Seq<char>>;

/// What syntect's highlighting gives for `code` with the bundled plain-text
/// grammar and the bundled `base16-ocean.dark` theme.
pub uninterp spec fn plain_html(code: Seq<char>) -> Result<Seq<char>, Seq<char>>;

/// The characters of a result of strings.
pub open spec fn result_view(r: Result<String, String>) -> Result<Seq<char>, Seq<char>> {
    match r {
        Ok(s) => Ok(s@),
        Err(e) => Err(e@),
    }
}

/// The highlighted HTML of a code block in the language `lang`: the
/// grammar of the token where syntect knows it, else the plain-text grammar
/// (also for a block without a language).
pub open spec fn fragment_of(lang: Option<Seq<char>>, code: Seq<char>) -> Result<Seq<char>, Seq<char>> {
    match lang {
        Some(t) => if known_token(t) {
            token_html(code, t)
        } else {
            plain_html(code)
        },
        None => plain_html(code),
    }
}

/// The items emitted for the steps `plan`, each block's step replaced by
/// its highlighted fragment.
pub open spec fn emitted(plan: Seq<StepView>) -> Seq<EmitView> {
    Seq::new(
        plan.len(),
        |k: int|
            match plan[k] {
                StepView::Pass(i) => EmitView::Keep(i),
                StepView::Highlight(l, c) => EmitView::Fragment(fragment_of(l, c)->Ok_0),
            },
    )
}

/// The first step at or after `i` whose block fails to highlight.
pub open spec fn first_failed_block(plan: Seq<StepView>, i: int) -> Option<int>
    decreases plan.len() - i,
{
    if i < 0 || i >= plan.len() {
        None
    } else if plan[i] matches StepView::Highlight(l, c) && fragment_of(l, c) is Err {
        Some(i)
    } else {
        first_failed_block(plan, i + 1)
    }
}

/// The outcome of rendering `body`: the serialised stream where every
/// block highlights, else the failure of the first block that does not.
pub open spec fn render_outcome(body: Seq<char>) -> Result<Seq<char>, Seq<char>> {
    let plan = plan_of(md_pieces(body, MARKDOWN_OPTIONS));
    match first_failed_block(plan, 0) {
        None => Ok(html_of(body, MARKDOWN_OPTIONS, emitted(plan))),
        Some(k) => Err(fragment_of(plan[k]->Highlight_0, plan[k]->Highlight_1)->Err_0),
    }
}

#[verifier::external_type_specification]
#[verifier::external_body]
pub struct ExSyntaxSet(SyntaxSet);

#[verifier::external_type_specification]
#[verifier::external_body]
pub struct ExTheme(Theme);

/// Relies on `pulldown_cmark::Parser::new_ext`, and on the variants of
/// `pulldown_cmark::Event` to tell a code block's start (with a fenced
/// block's info string), its end and a text node from any other event.
#[verifier::external_body]
fn parse_pieces(body: &str, options: u32) -> (r: Vec<Piece>)
    ensures
        pieces_view(r@) == md_pieces(body@, options),
{
    let mut out = Vec::new();
    for e in Parser::new_ext(body, Options::from_bits_truncate(options)) {
        out.push(match e {
            Event::Start(Tag::CodeBlock(CodeBlockKind::Fenced(i))) => Piece::CodeStart(Some(i.to_string())),
            Event::Start(Tag::CodeBlock(CodeBlockKind::Indented)) => Piece::CodeStart(None),
            Event::End(TagEnd::CodeBlock) => Piece::CodeEnd,
            Event::Text(text) => Piece::Text(text.to_string()),
            _ => Piece::Other,
        });
    }
    out
}

/// Relies on `pulldown_cmark::Parser::new_ext`, `Event::Html` and
/// `pulldown_cmark::html::push_html`: serialises the rewritten stream.
#[verifier::external_body]
fn write_html(body: &str, options: u32, items: &Vec<Emit>) -> (r: String)
    requires
        forall|k: int|
            0 <= k < items.len() ==> ((#[trigger] items@[k]) is Keep ==> items@[k]->Keep_0
                < md_pieces(body@, options).len()),
    ensures
        r@ == html_of(body@, options, emits_view(items@)),
{
    let events: Vec<Event> = Parser::new_ext(body, Options::from_bits_truncate(options)).collect();
    let mut stream = Vec::new();
    for item in items.iter() {
        stream.push(match item {
            Emit::Keep(k) => events[*k].clone(),
            Emit::Fragment(h) => Event::Html(CowStr::from(h.clone())),
        });
    }
    let mut out = String::new();
    pulldown_cmark::html::push_html(&mut out, stream.into_iter());
    out
}

/// Relies on `syntect::parsing::SyntaxSet::load_defaults_newlines`.
#[verifier::external_body]
fn load_syntaxes() -> (r: SyntaxSet) {
    SyntaxSet::load_defaults_newlines()
}

/// Relies on `syntect::highlighting::ThemeSet::load_defaults`: the bundled
/// theme called `name`, if there is one; `base16-ocean.dark` is bundled.
#[verifier::external_body]
fn load_theme(name: &str) -> (r: Option<Theme>)
    ensures
        name@ == "base16-ocean.dark"@ ==> r is Some,
{
    ThemeSet::load_defaults().themes.remove(name)
}

/// Relies on `syntect::parsing::SyntaxSet::find_syntax_by_token` and
/// `syntect::html::highlighted_html_for_string`: `None` where the bundled
/// grammars have none for `token`, else the outcome of highlighting `code`
/// with it.
#[verifier::external_body]
fn highlight_token(hl: &Highlighter, code: &str, token: &str) -> (r: Option<Result<String, String>>)
    ensures
        r is Some == known_token(token@),
        r matches Some(x) ==> result_view(x) == token_html(code@, token@),
{
    hl.syntaxes.find_syntax_by_token(token).map(
        |syntax|
            syntect::html::highlighted_html_for_string(code, &hl.syntaxes, syntax, &hl.theme).map_err(
                |e| e.to_string(),
            ),
    )
}

/// Relies on `syntect::parsing::SyntaxSet::find_syntax_plain_text`, which
/// the bundled grammars satisfy, and `syntect::html::highlighted_html_for_string`.
#[verifier::external_body]
fn highlight_plain(hl: &Highlighter, code: &str) -> (r: Result<String, String>)
    ensures
        result_view(r) == plain_html(code@),
{
    let syntax = hl.syntaxes.find_syntax_plain_text();
    syntect::html::highlighted_html_for_string(code, &hl.syntaxes, syntax, &hl.theme).map_err(
        |e| e.to_string(),
    )
}

/// The bundled grammars and the `base16-ocean.dark` theme that code blocks
/// are highlighted with, loaded once and shared by every render.
pub struct Highlighter {
    syntaxes: SyntaxSet,
    theme: Theme,
}

impl Highlighter {
    /// Loads the bundled grammars and the `base16-ocean.dark` theme.
    pub fn load() -> (r: Result<Highlighter, BlogError>)
        ensures
            r is Ok,
    {
        let syntaxes = load_syntaxes();
        proof {
            reveal_strlit("base16-ocean.dark");
        }
        match load_theme("base16-ocean.dark") {
            Some(theme) => Ok(Highlighter { syntaxes, theme }),
            None => Err(BlogError::Highlight(String::from_str("theme base16-ocean.dark is missing"))),
        }
    }

    /// Highlights `code` with the grammar of the language token `lang`,
    /// falling back to the plain-text grammar where the token is absent or
    /// unknown.
    pub fn highlight(&self, code: &str, lang: &Option<String>) -> (r: Result<String, BlogError>)
        ensures
            match fragment_of(opt_view(*lang), code@) {
                Ok(h) => r matches Ok(x) && x@ == h,
                Err(m) => r matches Err(BlogError::Highlight(c)) && c@ == m,
            },
    {
        let found = match lang {
            Some(token) => highlight_token(self, code, token.as_str()),
            None => None,
        };
        let outcome = match found {
            Some(o) => o,
            None => highlight_plain(self, code),
        };
        match outcome {
            Ok(html) => Ok(html),
            Err(cause) => Err(BlogError::Highlight(cause)),
        }
    }
}

/// Renders a markdown document to HTML: the parsed events pass through
/// unchanged but for code blocks, each replaced by its highlighted HTML. A
/// block that fails to highlight fails the whole render.
pub fn render_markdown(body: &str, hl: &Highlighter) -> (r: Result<String, BlogError>)
    ensures
        match render_outcome(body@) {
            Ok(h) => r matches Ok(x) && x@ == h,
            Err(m) => r matches Err(BlogError::Highlight(c)) && c@ == m,
        },
{
    let pieces = parse_pieces(body, MARKDOWN_OPTIONS);
    let plan = plan_code_blocks(&pieces);
    let ghost sp = steps_view(plan@);
    assert(sp == plan_of(md_pieces(body@, MARKDOWN_OPTIONS)));
    let mut items: Vec<Emit> = Vec::new();
    let mut j: usize = 0;
    while j < plan.len()
        invariant
            j <= plan.len(),
            sp == steps_view(plan@),
            sp == plan_of(md_pieces(body@, MARKDOWN_OPTIONS)),
            pieces.len() == md_pieces(body@, MARKDOWN_OPTIONS).len(),
            forall|k: int|
                0 <= k < plan.len() ==> ((#[trigger] plan@[k]) is Pass ==> plan@[k]->Pass_0
                    < pieces.len()),
            first_failed_block(sp, 0) == first_failed_block(sp, j as int),
            items.len() == j,
            emits_view(items@) == emitted(sp).subrange(0, j as int),
            forall|k: int|
                0 <= k < items.len() ==> ((#[trigger] items@[k]) is Keep ==> items@[k]->Keep_0
                    < pieces.len()),
        decreases plan.len() - j,
    {
        assert(sp[j as int] == plan@[j as int]@);
        let ghost before = items@;
        match &plan[j] {
            Step::Pass(k) => {
                assert(sp[j as int] == StepView::Pass(*k as int));
                items.push(Emit::Keep(*k));
            },
            Step::Highlight(lang, code) => {
                assert(sp[j as int] == StepView::Highlight(opt_view(*lang), code@));
                match hl.highlight(code.as_str(), lang) {
                    Ok(h) => {
                        assert(fragment_of(opt_view(*lang), code@) == Ok::<Seq<char>, Seq<char>>(h@));
                        items.push(Emit::Fragment(h));
                    },
                    Err(e) => {
                        assert(first_failed_block(sp, j as int) == Some(j as int));
                        assert(sp[j as int]->Highlight_0 == opt_view(*lang));
                        assert(sp[j as int]->Highlight_1 == code@);
                        return Err(e);
                    },
                }
            },
        }
        assert(items@[j as int]@ == emitted(sp)[j as int]);
        assert(emits_view(items@) =~= emitted(sp).subrange(0, j + 1));
        j = j + 1;
    }
    assert(emitted(sp).subrange(0, plan.len() as int) =~= emitted(sp));
    Ok(write_html(body, MARKDOWN_OPTIONS, &items))
}

/// A block whose language token syntect does not know is highlighted as
/// plain text, exactly as a block without a language.
pub proof fn unknown_token_falls_back(token: Seq<char>, code: Seq<char>)
    requires
        !known_token(token),
    ensures
        fragment_of(Some(token), code) == fragment_of(None, code),
        fragment_of(Some(token), code) == plain_html(code),
{
}

/// A document that parses to a single code block, holding the text `code`,
/// renders to exactly one highlighted fragment of that text, which stands in
/// place of the whole block, when highlighting it succeeds.
pub proof fn single_block_renders_one_fragment(
    body: Seq<char>,
    lang: Option<Seq<char>>,
    code: Seq<char>,
)
    requires
        md_pieces(body, MARKDOWN_OPTIONS) == seq![
            PieceView::CodeStart(lang),
            PieceView::Text(code),
            PieceView::CodeEnd,
        ],
        fragment_of(lang, code) is Ok,
    ensures
        plan_of(md_pieces(body, MARKDOWN_OPTIONS)) == seq![StepView::Highlight(lang, code)],
        render_outcome(body) == Ok::<Seq<char>, Seq<char>>(
            html_of(body, MARKDOWN_OPTIONS, seq![EmitView::Fragment(fragment_of(lang, code)->Ok_0)]),
        ),
{
    let ps = md_pieces(body, MARKDOWN_OPTIONS);
    let e = Seq::<StepView>::empty();
    assert(plan_prefix(ps, 0) == (StateView::Outside, e));
    assert(e + e =~= e);
    assert(plan_prefix(ps, 1) == (StateView::Inside(lang, Seq::<char>::empty()), e));
    assert(Seq::<char>::empty() + code =~= code);
    assert(plan_prefix(ps, 2) == (StateView::Inside(lang, code), e));
    assert(e + seq![StepView::Highlight(lang, code)] =~= seq![StepView::Highlight(lang, code)]);
    assert(plan_prefix(ps, 3).1 == seq![StepView::Highlight(lang, code)]);
    let plan = plan_of(ps);
    assert(first_failed_block(plan, 1) is None);
    assert(emitted(plan) =~= seq![EmitView::Fragment(fragment_of(lang, code)->Ok_0)]);
}

/// Events that are neither code blocks nor text are kept as they are.
pub open spec fn is_plain(p: PieceView) -> bool {
    p is Text || p is Other
}

/// Over events with no code block, the transform keeps every event in
/// order.
pub proof fn plain_prefix_passes_through(ps: Seq<PieceView>, n: int)
    requires
        0 <= n <= ps.len(),
        forall|k: int| 0 <= k < ps.len() ==> is_plain(#[trigger] ps[k]),
    ensures
        plan_prefix(ps, n).0 == StateView::Outside,
        plan_prefix(ps, n).1 == Seq::new(n as nat, |k: int| StepView::Pass(k)),
    decreases n,
{
    if n > 0 {
        plain_prefix_passes_through(ps, n - 1);
        assert(is_plain(ps[n - 1]));
        assert(plan_prefix(ps, n).1 =~= Seq::new(n as nat, |k: int| StepView::Pass(k)));
    }
}

/// A document without code blocks renders with every parsed event passed
/// through unchanged to the serialiser, and never fails.
pub proof fn plain_document_passes_through(body: Seq<char>)
    requires
        forall|k: int|
            0 <= k < md_pieces(body, MARKDOWN_OPTIONS).len() ==> is_plain(
                #[trigger] md_pieces(body, MARKDOWN_OPTIONS)[k],
            ),
    ensures
        render_outcome(body) == Ok::<Seq<char>, Seq<char>>(
            html_of(
                body,
                MARKDOWN_OPTIONS,
                Seq::new(
                    md_pieces(body, MARKDOWN_OPTIONS).len(),
                    |k: int| EmitView::Keep(k),
                ),
            ),
        ),
{
    let ps = md_pieces(body, MARKDOWN_OPTIONS);
    plain_prefix_passes_through(ps, ps.len() as int);
    let plan = plan_of(ps);
    no_failure_without_blocks(plan, 0);
    assert(emitted(plan) =~= Seq::new(ps.len(), |k: int| EmitView::Keep(k)));
}

/// A plan without highlighting steps has no failed block.
pub proof fn no_failure_without_blocks(plan: Seq<StepView>, i: int)
    requires
        0 <= i,
        forall|k: int| 0 <= k < plan.len() ==> (#[trigger] plan[k]) is Pass,
    ensures
        first_failed_block(plan, i) is None,
    decreases plan.len() - i,
{
    if i < plan.len() {
        no_failure_without_blocks(plan, i + 1);
    }
}

} // verus!
