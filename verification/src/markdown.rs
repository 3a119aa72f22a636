//! The markdown event stream: tokenizing a body, replacing fenced code blocks
//! by highlighted markup, and serializing the events to HTML.

use crate::highlight::{highlighted, SyntaxHighlightRegistry};
use crate::text::text_view;
use pulldown_cmark::CodeBlockKind as Fence;
use pulldown_cmark::html::push_html;
use pulldown_cmark::Tag::CodeBlock;
use pulldown_cmark::{Event, Parser};
use vstd::prelude::*;
use vstd::string::*;

verus! {

/// How a code block was written: indented, or fenced with a language token
/// (which may be empty).
#[derive(Debug)]
pub enum CodeBlockKind {
    Indented,
    Fenced(String),
}

/// One event of the stream. Only code blocks and text are looked into; every
/// other event of the tokenizer is `Other`, named by its position in the
/// token sequence of the body it came from.
#[derive(Debug)]
pub enum MarkdownEvent {
    StartCodeBlock(CodeBlockKind),
    EndCodeBlock,
    Text(String),
    Html(String),
    Other(usize),
}

/// `CodeBlockKind` with its text as a character sequence.
pub enum KindModel {
    Indented,
    Fenced(Seq<char>),
}

/// `MarkdownEvent` with its texts as character sequences.
pub enum EventModel {
    StartCodeBlock(KindModel),
    EndCodeBlock,
    Text(Seq<char>),
    Html(Seq<char>),
    Other(usize),
}

impl View for CodeBlockKind {
    type V = KindModel;

    open spec fn view(&self) -> KindModel {
        match self {
            CodeBlockKind::Indented => KindModel::Indented,
            CodeBlockKind::Fenced(lang) => KindModel::Fenced(lang@),
        }
    }
}

impl View for MarkdownEvent {
    type V = EventModel;

    open spec fn view(&self) -> EventModel {
        match self {
            MarkdownEvent::StartCodeBlock(kind) => EventModel::StartCodeBlock(kind@),
            MarkdownEvent::EndCodeBlock => EventModel::EndCodeBlock,
            MarkdownEvent::Text(text) => EventModel::Text(text@),
            MarkdownEvent::Html(html) => EventModel::Html(html@),
            MarkdownEvent::Other(position) => EventModel::Other(*position),
        }
    }
}

/// The models of a sequence of events.
pub open spec fn models(events: Seq<MarkdownEvent>) -> Seq<EventModel> {
    events.map_values(|e: MarkdownEvent| e@)
}

/// Whether every `Other` in `events` names a position below `bound`.
pub open spec fn positions_below(events: Seq<EventModel>, bound: nat) -> bool {
    forall|i: int|
        0 <= i < events.len() ==> (#[trigger] events[i] matches EventModel::Other(k) ==> k < bound)
}

impl CodeBlockKind {
    /// A copy of `self`.
    pub fn duplicate(&self) -> (copy: CodeBlockKind)
        ensures
            copy == *self,
    {
        match self {
            CodeBlockKind::Indented => CodeBlockKind::Indented,
            CodeBlockKind::Fenced(lang) => CodeBlockKind::Fenced(lang.clone()),
        }
    }
}

impl MarkdownEvent {
    /// A copy of `self`.
    pub fn duplicate(&self) -> (copy: MarkdownEvent)
        ensures
            copy == *self,
    {
        match self {
            MarkdownEvent::StartCodeBlock(kind) => MarkdownEvent::StartCodeBlock(kind.duplicate()),
            MarkdownEvent::EndCodeBlock => MarkdownEvent::EndCodeBlock,
            MarkdownEvent::Text(text) => MarkdownEvent::Text(text.clone()),
            MarkdownEvent::Html(html) => MarkdownEvent::Html(html.clone()),
            MarkdownEvent::Other(position) => MarkdownEvent::Other(*position),
        }
    }
}

/// The events that pulldown-cmark's parser, with no option enabled, yields
/// for a body.
pub uninterp spec fn markdown_tokens(body: Seq<char>) -> Seq<EventModel>;

/// The HTML that pulldown-cmark's serializer writes for `events`, where each
/// `Other` stands for the token of `body` at its position.
pub uninterp spec fn rendered_html(body: Seq<char>, events: Seq<EventModel>) -> Seq<char>;

/// Runs `pulldown_cmark::Parser::new` over `body` and collects its events:
/// code-block starts and text runs by their content, code-block ends without
/// their kind, every other event as `Other` with its position. The contract
/// names the sequence `markdown_tokens(body)` and states that each `Other`
/// holds its own position.
#[verifier::external_body]
fn tokenize(body: &str) -> (events: Vec<MarkdownEvent>)
    ensures
        models(events@) == markdown_tokens(body@),
        forall|i: int|
            0 <= i < events@.len() ==> (#[trigger] events@[i] matches MarkdownEvent::Other(k) ==> k
                == i),
{
    Parser::new(body).enumerate().map(|(position, event)| match event {
        Event::Start(CodeBlock(Fence::Fenced(lang))) => MarkdownEvent::StartCodeBlock(CodeBlockKind::Fenced(lang.to_string())),
        Event::Start(CodeBlock(Fence::Indented)) => MarkdownEvent::StartCodeBlock(CodeBlockKind::Indented),
        Event::End(CodeBlock(_)) => MarkdownEvent::EndCodeBlock,
        Event::Text(text) => MarkdownEvent::Text(text.to_string()),
        _ => MarkdownEvent::Other(position),
    }).collect()
}

/// Runs `pulldown_cmark::html::push_html` over `events`, each `Other` replaced
/// by the token of `body` at its position; the end of a code block is written
/// as that of an indented one, since the serializer writes every kind alike.
/// The positions must exist among the tokens of `body`. The contract names
/// the text `rendered_html(body, events)`.
#[verifier::external_body]
fn render(body: &str, events: &Vec<MarkdownEvent>) -> (html: String)
    requires
        positions_below(models(events@), markdown_tokens(body@).len()),
    ensures
        html@ == rendered_html(body@, models(events@)),
{
    let tokens: Vec<Event> = Parser::new(body).collect();
    let mut html = String::new();
    push_html(&mut html, events.iter().map(|event| match event {
        MarkdownEvent::StartCodeBlock(CodeBlockKind::Fenced(lang)) => Event::Start(CodeBlock(Fence::Fenced(lang.clone().into()))),
        MarkdownEvent::StartCodeBlock(CodeBlockKind::Indented) => Event::Start(CodeBlock(Fence::Indented)),
        MarkdownEvent::EndCodeBlock => Event::End(CodeBlock(Fence::Indented)),
        MarkdownEvent::Text(text) => Event::Text(text.clone().into()),
        MarkdownEvent::Html(text) => Event::Html(text.clone().into()),
        MarkdownEvent::Other(position) => tokens[*position].clone(),
    }));
    html
}

/// The language token that a code block declares: empty for an indented one.
pub open spec fn declared_language(kind: KindModel) -> Seq<char> {
    match kind {
        KindModel::Indented => Seq::empty(),
        KindModel::Fenced(lang) => lang,
    }
}

/// The kind under which a block that is not highlighted is written out again.
pub open spec fn plain_kind(lang: Seq<char>) -> KindModel {
    if lang.len() == 0 {
        KindModel::Indented
    } else {
        KindModel::Fenced(lang)
    }
}

/// The HTML fragment that stands for a highlighted block.
pub open spec fn highlighted_fragment(lang: Seq<char>, markup: Seq<char>) -> Seq<char> {
    "<pre class=\"code-block code-"@ + lang + "\"><code>"@ + markup + "</code></pre>"@
}

/// The events that stand for a finished code block, given what highlighting
/// made of it: one HTML fragment, or the block written out plainly.
pub open spec fn block_events(lang: Seq<char>, code: Seq<char>, markup: Option<Seq<char>>) -> Seq<
    EventModel,
> {
    match markup {
        Some(m) => seq![EventModel::Html(highlighted_fragment(lang, m))],
        None => seq![
            EventModel::StartCodeBlock(plain_kind(lang)),
            EventModel::Text(code),
            EventModel::EndCodeBlock,
        ],
    }
}

/// What highlighting makes of a finished block: an unlabeled block is never
/// highlighted.
pub open spec fn block_markup(lang: Seq<char>, code: Seq<char>) -> Option<Seq<char>> {
    if lang.len() == 0 {
        None
    } else {
        highlighted(lang, code)
    }
}

/// Where the transformer stands: inside a code block or not, and the language
/// and text of the block last entered.
pub struct BlockState {
    pub in_block: bool,
    pub lang: Seq<char>,
    pub code: Seq<char>,
}

/// The state before the first event.
pub open spec fn initial_state() -> BlockState {
    BlockState { in_block: false, lang: Seq::empty(), code: Seq::empty() }
}

/// The state after `event`.
pub open spec fn next_state(state: BlockState, event: EventModel) -> BlockState {
    match event {
        EventModel::StartCodeBlock(kind) => BlockState {
            in_block: true,
            lang: declared_language(kind),
            code: Seq::empty(),
        },
        EventModel::EndCodeBlock => BlockState { in_block: false, ..state },
        EventModel::Text(text) => if state.in_block {
            BlockState { code: state.code + text, ..state }
        } else {
            state
        },
        _ => state,
    }
}

/// The events that `event` puts out in `state`.
pub open spec fn emitted(state: BlockState, event: EventModel) -> Seq<EventModel> {
    match event {
        EventModel::StartCodeBlock(_) => Seq::empty(),
        EventModel::EndCodeBlock => block_events(
            state.lang,
            state.code,
            block_markup(state.lang, state.code),
        ),
        EventModel::Text(_) => if state.in_block {
            Seq::empty()
        } else {
            seq![event]
        },
        _ => seq![event],
    }
}

/// The output of the transformer on `events`, started in `state`.
pub open spec fn transformed_from(events: Seq<EventModel>, state: BlockState) -> Seq<EventModel>
    decreases events.len(),
{
    if events.len() == 0 {
        Seq::empty()
    } else {
        emitted(state, events[0]) + transformed_from(
            events.drop_first(),
            next_state(state, events[0]),
        )
    }
}

/// The output of the transformer on a whole stream.
pub open spec fn transformed(events: Seq<EventModel>) -> Seq<EventModel> {
    transformed_from(events, initial_state())
}

/// The state after the events of `events`, started in `state`.
pub open spec fn state_after(events: Seq<EventModel>, state: BlockState) -> BlockState
    decreases events.len(),
{
    if events.len() == 0 {
        state
    } else {
        state_after(events.drop_first(), next_state(state, events[0]))
    }
}

/// Text runs as events.
pub open spec fn text_events(texts: Seq<Seq<char>>) -> Seq<EventModel> {
    texts.map_values(|t: Seq<char>| EventModel::Text(t))
}

/// Text runs joined in their order.
pub open spec fn joined(texts: Seq<Seq<char>>) -> Seq<char>
    decreases texts.len(),
{
    if texts.len() == 0 {
        Seq::empty()
    } else {
        texts[0] + joined(texts.drop_first())
    }
}

/// A code block as the tokenizer gives it: its start, its text runs, its end.
pub open spec fn code_block(kind: KindModel, texts: Seq<Seq<char>>) -> Seq<EventModel> {
    seq![EventModel::StartCodeBlock(kind)] + text_events(texts) + seq![EventModel::EndCodeBlock]
}

/// The transformer works through a stream piece by piece: the output of two
/// pieces in a row is the output of the first, then that of the second
/// started in the state that the first leaves.
pub proof fn lemma_transform_concat(a: Seq<EventModel>, b: Seq<EventModel>, state: BlockState)
    ensures
        transformed_from(a + b, state) == transformed_from(a, state) + transformed_from(
            b,
            state_after(a, state),
        ),
        state_after(a + b, state) == state_after(b, state_after(a, state)),
    decreases a.len(),
{
    if a.len() > 0 {
        assert((a + b).drop_first() =~= a.drop_first() + b);
        lemma_transform_concat(a.drop_first(), b, next_state(state, a[0]));
    }
}

/// One event alone puts out what it emits and leaves the state that follows it.
pub proof fn lemma_single_event(event: EventModel, state: BlockState)
    ensures
        transformed_from(seq![event], state) == emitted(state, event),
        state_after(seq![event], state) == next_state(state, event),
{
    let one = seq![event];
    let next = next_state(state, event);
    assert(transformed_from(one.drop_first(), next) =~= Seq::<EventModel>::empty());
    assert(state_after(one.drop_first(), next) == next);
}

/// Outside a code block, events that neither start nor end one come out
/// unchanged, in their order, and leave the state as it was.
pub proof fn lemma_passes_through(events: Seq<EventModel>, state: BlockState)
    requires
        !state.in_block,
        is_run(events),
    ensures
        transformed_from(events, state) == events,
        state_after(events, state) == state,
    decreases events.len(),
{
    if events.len() > 0 {
        lemma_passes_through(events.drop_first(), state);
    }
}

/// Inside a code block, text runs put nothing out and add to the block's text.
pub proof fn lemma_texts_in_block(texts: Seq<Seq<char>>, state: BlockState)
    requires
        state.in_block,
    ensures
        transformed_from(text_events(texts), state) == Seq::<EventModel>::empty(),
        state_after(text_events(texts), state) == (BlockState {
            code: state.code + joined(texts),
            ..state
        }),
    decreases texts.len(),
{
    let events = text_events(texts);
    if texts.len() > 0 {
        assert(events.drop_first() =~= text_events(texts.drop_first()));
        lemma_texts_in_block(texts.drop_first(), next_state(state, events[0]));
        assert((state.code + texts[0]) + joined(texts.drop_first()) =~= state.code + joined(texts));
    }
}

/// A code block comes out as the events that stand for it, whatever came
/// before: its language is the declared one, its text the text runs joined.
pub proof fn lemma_code_block(kind: KindModel, texts: Seq<Seq<char>>, state: BlockState)
    ensures
        transformed_from(code_block(kind, texts), state) == block_events(
            declared_language(kind),
            joined(texts),
            block_markup(declared_language(kind), joined(texts)),
        ),
        state_after(code_block(kind, texts), state) == (BlockState {
            in_block: false,
            lang: declared_language(kind),
            code: joined(texts),
        }),
{
    let start = seq![EventModel::StartCodeBlock(kind)];
    let end = seq![EventModel::EndCodeBlock];
    let entered = BlockState { in_block: true, lang: declared_language(kind), code: Seq::empty() };
    let filled = BlockState { code: joined(texts), ..entered };
    lemma_single_event(EventModel::StartCodeBlock(kind), state);
    lemma_texts_in_block(texts, entered);
    lemma_single_event(EventModel::EndCodeBlock, filled);
    lemma_transform_concat(start, text_events(texts), state);
    lemma_transform_concat(start + text_events(texts), end, state);
}

/// A piece of a stream: a run of events that neither start nor end a code
/// block, or one code block with its text runs.
pub enum Segment {
    Run(Seq<EventModel>),
    Block(KindModel, Seq<Seq<char>>),
}

/// Whether no event of `events` starts or ends a code block.
pub open spec fn is_run(events: Seq<EventModel>) -> bool {
    forall|i: int|
        0 <= i < events.len() ==> !(#[trigger] events[i] is StartCodeBlock) && !(events[i]
            is EndCodeBlock)
}

/// Whether every run among `segments` is one.
pub open spec fn are_segments(segments: Seq<Segment>) -> bool {
    forall|i: int|
        0 <= i < segments.len() ==> (#[trigger] segments[i] matches Segment::Run(events)
            ==> is_run(events))
}

/// The events of a segment as the tokenizer gives them.
pub open spec fn segment_events(segment: Segment) -> Seq<EventModel> {
    match segment {
        Segment::Run(events) => events,
        Segment::Block(kind, texts) => code_block(kind, texts),
    }
}

/// What a segment comes out as: a run as it is, a block as the events that
/// stand for it.
pub open spec fn segment_output(segment: Segment) -> Seq<EventModel> {
    match segment {
        Segment::Run(events) => events,
        Segment::Block(kind, texts) => block_events(
            declared_language(kind),
            joined(texts),
            block_markup(declared_language(kind), joined(texts)),
        ),
    }
}

/// The events of the segments in a row.
pub open spec fn stream_of(segments: Seq<Segment>) -> Seq<EventModel>
    decreases segments.len(),
{
    if segments.len() == 0 {
        Seq::empty()
    } else {
        segment_events(segments[0]) + stream_of(segments.drop_first())
    }
}

/// The outputs of the segments in a row.
pub open spec fn output_of(segments: Seq<Segment>) -> Seq<EventModel>
    decreases segments.len(),
{
    if segments.len() == 0 {
        Seq::empty()
    } else {
        segment_output(segments[0]) + output_of(segments.drop_first())
    }
}

/// A stream of runs and code blocks comes out segment by segment: every
/// event outside a code block unchanged and in its place, every code block
/// replaced by the events that stand for it.
pub proof fn lemma_stream(segments: Seq<Segment>, state: BlockState)
    requires
        !state.in_block,
        are_segments(segments),
    ensures
        transformed_from(stream_of(segments), state) == output_of(segments),
        !state_after(stream_of(segments), state).in_block,
    decreases segments.len(),
{
    if segments.len() > 0 {
        let first = segments[0];
        let rest = segments.drop_first();
        lemma_transform_concat(segment_events(first), stream_of(rest), state);
        match first {
            Segment::Run(events) => {
                lemma_passes_through(events, state);
            },
            Segment::Block(kind, texts) => {
                lemma_code_block(kind, texts, state);
            },
        }
        lemma_stream(rest, state_after(segment_events(first), state));
    }
}

/// A code block without a language label, or with one that highlighting
/// makes nothing of, comes out as an ordinary code block whose one text run
/// is the block's text, character for character.
pub proof fn lemma_plain_block(kind: KindModel, texts: Seq<Seq<char>>, state: BlockState)
    requires
        declared_language(kind).len() == 0 || highlighted(declared_language(kind), joined(texts))
            is None,
    ensures
        transformed_from(code_block(kind, texts), state) == seq![
            EventModel::StartCodeBlock(plain_kind(declared_language(kind))),
            EventModel::Text(joined(texts)),
            EventModel::EndCodeBlock,
        ],
{
    lemma_code_block(kind, texts, state);
}

/// A code block whose language highlighting knows comes out as one HTML
/// fragment: the markup inside a `pre` of the classes `code-block` and
/// `code-` with the language.
pub proof fn lemma_highlighted_block(kind: KindModel, texts: Seq<Seq<char>>, state: BlockState)
    requires
        declared_language(kind).len() > 0,
        highlighted(declared_language(kind), joined(texts)) is Some,
    ensures
        transformed_from(code_block(kind, texts), state) == seq![
            EventModel::Html(
                "<pre class=\"code-block code-"@ + declared_language(kind) + "\"><code>"@
                    + highlighted(declared_language(kind), joined(texts))->0 + "</code></pre>"@,
            ),
        ],
{
    lemma_code_block(kind, texts, state);
}

/// Writes out a finished code block, given what highlighting made of it:
/// one HTML fragment that wraps the markup, or the block as an ordinary one
/// with its text unchanged.
pub fn code_block_events(lang: &str, code: &str, markup: Option<String>) -> (out: Vec<
    MarkdownEvent,
>)
    ensures
        models(out@) == block_events(lang@, code@, text_view(markup)),
{
    let mut out: Vec<MarkdownEvent> = Vec::new();
    match markup {
        Some(m) => {
            let html = String::from_str("<pre class=\"code-block code-").concat(lang).concat(
                "\"><code>",
            ).concat(m.as_str()).concat("</code></pre>");
            out.push(MarkdownEvent::Html(html));
        },
        None => {
            if lang.is_empty() {
                out.push(MarkdownEvent::StartCodeBlock(CodeBlockKind::Indented));
                out.push(MarkdownEvent::Text(String::from_str(code)));
                out.push(MarkdownEvent::EndCodeBlock);
            } else {
                out.push(
                    MarkdownEvent::StartCodeBlock(CodeBlockKind::Fenced(String::from_str(lang))),
                );
                out.push(MarkdownEvent::Text(String::from_str(code)));
                out.push(MarkdownEvent::EndCodeBlock);
            }
        },
    }
    out
}

/// Replaces each fenced code block whose language has a grammar by one HTML
/// fragment with the highlighted text, writes every other code block out as
/// an ordinary one, and passes all other events through in their order.
pub fn highlight_code_blocks(registry: &SyntaxHighlightRegistry, events: &Vec<MarkdownEvent>) -> (out:
    Vec<MarkdownEvent>)
    ensures
        models(out@) == transformed(models(events@)),
        forall|bound: nat|
            positions_below(models(events@), bound) ==> positions_below(models(out@), bound),
{
    let mut out: Vec<MarkdownEvent> = Vec::new();
    let mut in_block = false;
    let mut lang = String::new();
    let mut code = String::new();
    let n: usize = events.len();
    let mut i: usize = 0;
    proof {
        assert(models(events@).skip(0) =~= models(events@));
    }
    while i < n
        invariant
            i <= n == events.len(),
            transformed(models(events@)) == models(out@) + transformed_from(
                models(events@).skip(i as int),
                BlockState { in_block, lang: lang@, code: code@ },
            ),
            forall|bound: nat|
                positions_below(models(events@), bound) ==> positions_below(models(out@), bound),
        decreases n - i,
    {
        let ghost before = models(out@);
        let ghost rest = models(events@).skip(i as int);
        proof {
            assert(rest.drop_first() =~= models(events@).skip(i + 1));
        }
        match &events[i] {
            MarkdownEvent::StartCodeBlock(kind) => {
                in_block = true;
                lang =
                match kind {
                    CodeBlockKind::Fenced(name) => name.clone(),
                    CodeBlockKind::Indented => String::new(),
                };
                code = String::new();
            },
            MarkdownEvent::EndCodeBlock => {
                in_block = false;
                let markup = if lang.as_str().is_empty() {
                    None
                } else {
                    match registry.highlight(lang.as_str(), code.as_str()) {
                        Ok(markup) => markup,
                        Err(_) => None,
                    }
                };
                let mut block = code_block_events(lang.as_str(), code.as_str(), markup);
                let ghost added = models(block@);
                out.append(&mut block);
                proof {
                    assert(models(out@) =~= before + added);
                }
            },
            MarkdownEvent::Text(text) => {
                if in_block {
                    code.append(text.as_str());
                } else {
                    out.push(events[i].duplicate());
                    proof {
                        assert(models(out@) =~= before + seq![rest[0]]);
                    }
                }
            },
            _ => {
                out.push(events[i].duplicate());
                proof {
                    assert(models(out@) =~= before + seq![rest[0]]);
                }
            },
        }
        i += 1;
    }
    out
}

/// The HTML of a markdown body with its code blocks highlighted.
pub open spec fn markdown_html(body: Seq<char>) -> Seq<char> {
    rendered_html(body, transformed(markdown_tokens(body)))
}

/// Renders a markdown body to HTML: tokenizes it, highlights its code blocks
/// and serializes the events.
pub fn render_markdown(registry: &SyntaxHighlightRegistry, body: &str) -> (html: String)
    ensures
        html@ == markdown_html(body@),
{
    let tokens = tokenize(body);
    let events = highlight_code_blocks(registry, &tokens);
    render(body, &events)
}

} // verus!
