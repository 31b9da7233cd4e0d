//! The `fend` command: evaluating expressions with per-channel context, and
//! the interactive REPL.
use vstd::prelude::*;

use circular_buffer::FixedCircularBuffer;

use crate::text::{
    chars_of, concat, is_ws, lines, lines_of, push_char, replace_char, replace_char_of,
    slice_chars, str_eq, trim, trim_str, views,
};
use crate::utils::ansi_color;
use crate::utils::ansi_color::{format_spec, Style};

verus! {

/// `fend_core::Context`, fend's evaluation state (variables and settings),
/// carried as an opaque value.
#[verifier::external_type_specification]
#[verifier::external_body]
pub struct ExFendContext(fend_core::Context);

/// `fend_core::SpanKind`, the kind of a piece of fend's output: an enum of
/// unit variants, which Verus reads.
#[verifier::external_type_specification]
pub struct ExFendSpanKind(fend_core::SpanKind);

/// What cloning a context with `Context::clone` gives.
pub uninterp spec fn fend_context_clone(c: fend_core::Context) -> fend_core::Context;

/// `fend_core::Context::new`: a fresh context. Its variable map is seeded
/// anew in each process, so nothing is said of the result.
#[verifier::external_body]
fn context_new() -> fend_core::Context {
    fend_core::Context::new()
}

/// What `Context::set_output_mode_terminal` makes of a context: the same
/// context, with fixed-width terminal output.
pub uninterp spec fn terminal_output_mode(c: fend_core::Context) -> fend_core::Context;

/// Whether a context has a source of random numbers (its `random_u32` is
/// set), which fend needs to roll dice.
pub uninterp spec fn has_random_source(c: fend_core::Context) -> bool;

/// `Context::set_output_mode_terminal`: fixed-width terminal output. It only
/// sets the output mode, so its result is a function of the context before,
/// and a random source is kept.
#[verifier::external_body]
fn set_output_mode_terminal(ctx: &mut fend_core::Context)
    ensures
        *final(ctx) == terminal_output_mode(*old(ctx)),
        has_random_source(*old(ctx)) ==> has_random_source(*final(ctx)),
{
    ctx.set_output_mode_terminal();
}

/// `Context::set_random_u32_fn`, with `rand::random::<u32>` as the source of
/// random numbers: afterwards the context has a random source. The source is
/// boxed on the heap, so the context is not named.
#[verifier::external_body]
fn set_random_u32_fn(ctx: &mut fend_core::Context)
    ensures
        has_random_source(*final(ctx)),
{
    ctx.set_random_u32_fn(rand::random::<u32>);
}

/// `Context::clone`. The clone keeps variables and settings, but not the
/// random number source; the result is named by `fend_context_clone`.
#[verifier::external_body]
fn clone_context(c: &fend_core::Context) -> (r: fend_core::Context)
    ensures
        r == fend_context_clone(*c),
        !has_random_source(r),
{
    c.clone()
}

/// The kind of a span of fend's output, which decides its colours.
#[derive(Clone, Copy, Debug, PartialEq, Eq, Structural)]
pub enum SpanClass {
    Number,
    BuiltInFunction,
    Keyword,
    String,
    Date,
    Whitespace,
    Ident,
    Boolean,
    Other,
}

/// The library's kind for a kind of fend's output: each of fend's kinds has
/// the library kind of the same name, and kinds added later are `Other`.
pub open spec fn span_class(k: fend_core::SpanKind) -> SpanClass {
    match k {
        fend_core::SpanKind::Number => SpanClass::Number,
        fend_core::SpanKind::BuiltInFunction => SpanClass::BuiltInFunction,
        fend_core::SpanKind::Keyword => SpanClass::Keyword,
        fend_core::SpanKind::String => SpanClass::String,
        fend_core::SpanKind::Date => SpanClass::Date,
        fend_core::SpanKind::Whitespace => SpanClass::Whitespace,
        fend_core::SpanKind::Ident => SpanClass::Ident,
        fend_core::SpanKind::Boolean => SpanClass::Boolean,
        _ => SpanClass::Other,
    }
}

/// Tells apart the variants of `fend_core::SpanKind`; kinds added later map
/// to `Other`.
fn span_kind(k: fend_core::SpanKind) -> (r: SpanClass)
    ensures
        r == span_class(k),
{
    match k {
        fend_core::SpanKind::Number => SpanClass::Number,
        fend_core::SpanKind::BuiltInFunction => SpanClass::BuiltInFunction,
        fend_core::SpanKind::Keyword => SpanClass::Keyword,
        fend_core::SpanKind::String => SpanClass::String,
        fend_core::SpanKind::Date => SpanClass::Date,
        fend_core::SpanKind::Whitespace => SpanClass::Whitespace,
        fend_core::SpanKind::Ident => SpanClass::Ident,
        fend_core::SpanKind::Boolean => SpanClass::Boolean,
        _ => SpanClass::Other,
    }
}

/// fend's kinds keep their meaning: a number stays a number, a boolean a
/// boolean, and so on for each kind fend names, and fend's `Other` is the
/// library's `Other`; no two named kinds share a library kind.
pub proof fn lemma_span_classes()
    ensures
        span_class(fend_core::SpanKind::Number) == SpanClass::Number,
        span_class(fend_core::SpanKind::BuiltInFunction) == SpanClass::BuiltInFunction,
        span_class(fend_core::SpanKind::Keyword) == SpanClass::Keyword,
        span_class(fend_core::SpanKind::String) == SpanClass::String,
        span_class(fend_core::SpanKind::Date) == SpanClass::Date,
        span_class(fend_core::SpanKind::Whitespace) == SpanClass::Whitespace,
        span_class(fend_core::SpanKind::Ident) == SpanClass::Ident,
        span_class(fend_core::SpanKind::Boolean) == SpanClass::Boolean,
        span_class(fend_core::SpanKind::Other) == SpanClass::Other,
        forall|a: fend_core::SpanKind, b: fend_core::SpanKind|
            #![trigger span_class(a), span_class(b)]
            span_class(a) == span_class(b) && span_class(a) != SpanClass::Other ==> a == b,
{
}

/// How each of fend's kinds is shown: numbers white and bold, built-in
/// functions yellow, keywords magenta, strings green and bold, dates cyan and
/// bold, whitespace white, identifiers blue, booleans red and bold, and
/// anything else white.
pub proof fn lemma_span_styles(k: fend_core::SpanKind)
    ensures
        k == fend_core::SpanKind::Number ==> style_for_spec(span_class(k)) == seq![Style::WhiteForeground, Style::Bold],
        k == fend_core::SpanKind::BuiltInFunction ==> style_for_spec(span_class(k)) == seq![Style::YellowForeground],
        k == fend_core::SpanKind::Keyword ==> style_for_spec(span_class(k)) == seq![Style::MagentaForeground],
        k == fend_core::SpanKind::String ==> style_for_spec(span_class(k)) == seq![Style::GreenForeground, Style::Bold],
        k == fend_core::SpanKind::Date ==> style_for_spec(span_class(k)) == seq![Style::CyanForeground, Style::Bold],
        k == fend_core::SpanKind::Whitespace ==> style_for_spec(span_class(k)) == seq![Style::WhiteForeground],
        k == fend_core::SpanKind::Ident ==> style_for_spec(span_class(k)) == seq![Style::BlueForeground],
        k == fend_core::SpanKind::Boolean ==> style_for_spec(span_class(k)) == seq![Style::RedForeground, Style::Bold],
        k == fend_core::SpanKind::Other ==> style_for_spec(span_class(k)) == seq![Style::WhiteForeground],
{
}

/// A piece of fend's output and its kind.
pub struct Span {
    pub kind: SpanClass,
    pub text: String,
}

/// The styles a span of each kind is shown in.
pub open spec fn style_for_spec(k: SpanClass) -> Seq<Style> {
    match k {
        SpanClass::Number => seq![Style::WhiteForeground, Style::Bold],
        SpanClass::BuiltInFunction => seq![Style::YellowForeground],
        SpanClass::Keyword => seq![Style::MagentaForeground],
        SpanClass::String => seq![Style::GreenForeground, Style::Bold],
        SpanClass::Date => seq![Style::CyanForeground, Style::Bold],
        SpanClass::Whitespace => seq![Style::WhiteForeground],
        SpanClass::Ident => seq![Style::BlueForeground],
        SpanClass::Boolean => seq![Style::RedForeground, Style::Bold],
        SpanClass::Other => seq![Style::WhiteForeground],
    }
}

/// The styles a span of kind `k` is shown in.
pub fn style_for(k: SpanClass) -> (r: Vec<Style>)
    ensures
        r@ == style_for_spec(k),
{
    let r = match k {
        SpanClass::Number => vec![Style::WhiteForeground, Style::Bold],
        SpanClass::BuiltInFunction => vec![Style::YellowForeground],
        SpanClass::Keyword => vec![Style::MagentaForeground],
        SpanClass::String => vec![Style::GreenForeground, Style::Bold],
        SpanClass::Date => vec![Style::CyanForeground, Style::Bold],
        SpanClass::Whitespace => vec![Style::WhiteForeground],
        SpanClass::Ident => vec![Style::BlueForeground],
        SpanClass::Boolean => vec![Style::RedForeground, Style::Bold],
        SpanClass::Other => vec![Style::WhiteForeground],
    };
    assert(r@ =~= style_for_spec(k));
    r
}

/// Spans rendered one after the other, each in the styles of its kind.
pub open spec fn render_spec(spans: Seq<Span>) -> Seq<char>
    decreases spans.len(),
{
    if spans.len() == 0 {
        seq![]
    } else {
        render_spec(spans.drop_last()) + format_spec(
            spans.last().text@,
            style_for_spec(spans.last().kind),
        )
    }
}

/// Renders spans of fend's output with ANSI colours.
pub fn render_spans(spans: &Vec<Span>) -> (r: String)
    ensures
        r@ == render_spec(spans@),
{
    let mut buf = String::new();
    let mut i: usize = 0;
    while i < spans.len()
        invariant
            i <= spans.len(),
            buf@ == render_spec(spans@.take(i as int)),
        decreases spans.len() - i,
    {
        let piece = ansi_color::format(spans[i].text.as_str(), style_for(spans[i].kind));
        buf.append(piece.as_str());
        i += 1;
        proof {
            assert(spans@.take(i as int).drop_last() =~= spans@.take(i - 1));
        }
    }
    proof {
        assert(spans@.take(spans.len() as int) =~= spans@);
    }
    buf
}

/// How one evaluation result is shown: the rendered spans, or the error in
/// red.
pub open spec fn result_text(r: Result<Seq<Span>, String>) -> Seq<char> {
    match r {
        Ok(spans) => render_spec(spans),
        Err(e) => format_spec(e@, seq![Style::RedForeground]),
    }
}

/// The part of the output for one input line: with several lines, an echo
/// `> line` of the trimmed line first; then the result and a line break.
pub open spec fn line_output(line: Seq<char>, multiline: bool, r: Result<Seq<Span>, String>) -> Seq<
    char,
> {
    (if multiline {
        seq!['>', ' '] + trim(line) + seq!['\n']
    } else {
        seq![]
    }) + result_text(r) + seq!['\n']
}

/// The output parts for `lines` and their `results`, one after the other.
pub open spec fn body_output(
    lines: Seq<Seq<char>>,
    results: Seq<Result<Seq<Span>, String>>,
    multiline: bool,
) -> Seq<char>
    decreases lines.len(),
{
    if lines.len() == 0 || results.len() == 0 {
        seq![]
    } else {
        body_output(lines.drop_last(), results.drop_last(), multiline) + line_output(
            lines.last(),
            multiline,
            results.last(),
        )
    }
}

/// The answer to `lines` evaluated with `results`: the output parts inside an
/// `ansi` code block.
pub open spec fn fend_output(lines: Seq<Seq<char>>, results: Seq<Result<Seq<Span>, String>>) -> Seq<
    char,
> {
    "```ansi\n"@ + body_output(lines, results, lines.len() > 1) + "\n```"@
}

/// The output part for one input line and its evaluation result.
pub fn render_line(line: &str, multiline: bool, result: &Result<Vec<Span>, String>) -> (r: String)
    ensures
        r@ == line_output(
            line@,
            multiline,
            match result {
                Ok(v) => Ok(v@),
                Err(e) => Err(*e),
            },
        ),
{
    let mut out = String::new();
    if multiline {
        push_char(&mut out, '>');
        push_char(&mut out, ' ');
        let t = trim_str(line);
        out.append(t.as_str());
        push_char(&mut out, '\n');
    }
    let shown = match result {
        Ok(spans) => render_spans(spans),
        Err(e) => ansi_color::format(e.as_str(), vec![Style::RedForeground]),
    };
    out.append(shown.as_str());
    push_char(&mut out, '\n');
    assert(out@ =~= line_output(
        line@,
        multiline,
        match result {
            Ok(v) => Ok(v@),
            Err(e) => Err(*e),
        },
    ));
    out
}

/// Whether `spans` are the spans `raw` of fend's output, one for one, in the
/// library's kinds.
pub open spec fn converted(raw: Seq<(fend_core::SpanKind, String)>, spans: Seq<Span>) -> bool {
    &&& spans.len() == raw.len()
    &&& forall|i: int|
        0 <= i < spans.len() ==> (#[trigger] spans[i]).kind == span_class(raw[i].0)
            && spans[i].text@ == raw[i].1@
}

/// The outcome of evaluating one line, as the library renders it: fend's main
/// result spans (see `converted`), or fend's error message.
pub fn evaluation_outcome(raw: Result<Vec<(fend_core::SpanKind, String)>, String>) -> (r: Result<
    Vec<Span>,
    String,
>)
    ensures
        match raw {
            Ok(v) => r matches Ok(s) && converted(v@, s@),
            Err(e) => r == Err::<Vec<Span>, String>(e),
        },
{
    match raw {
        Ok(v) => {
            let mut spans: Vec<Span> = Vec::new();
            let mut i: usize = 0;
            while i < v.len()
                invariant
                    i <= v.len(),
                    spans@.len() == i,
                    forall|j: int|
                        0 <= j < i ==> (#[trigger] spans@[j]).kind == span_class(v@[j].0)
                            && spans@[j].text@ == v@[j].1@,
                decreases v.len() - i,
            {
                let (k, text) = &v[i];
                spans.push(Span { kind: span_kind(*k), text: text.clone() });
                i += 1;
            }
            Ok(spans)
        },
        Err(e) => Err(e),
    }
}

/// An evaluation outcome, by the views of its spans.
pub open spec fn outcome_view(r: Result<Vec<Span>, String>) -> Result<Seq<Span>, String> {
    match r {
        Ok(v) => Ok(v@),
        Err(e) => Err(e),
    }
}

/// The lines of evaluation steps.
pub open spec fn step_lines(steps: Seq<(String, Result<Vec<Span>, String>)>) -> Seq<Seq<char>> {
    steps.map_values(|st: (String, Result<Vec<Span>, String>)| st.0@)
}

/// The outcomes of evaluation steps.
pub open spec fn step_results(steps: Seq<(String, Result<Vec<Span>, String>)>) -> Seq<
    Result<Seq<Span>, String>,
> {
    steps.map_values(|st: (String, Result<Vec<Span>, String>)| outcome_view(st.1))
}

/// The answer to a series of lines, each with the outcome of its evaluation
/// (evaluated one after the other in one context): for each line its result
/// (echoed first when there are several lines), all in an `ansi` code block.
pub fn fend_run(steps: Vec<(String, Result<Vec<Span>, String>)>) -> (r: String)
    ensures
        r@ == fend_output(step_lines(steps@), step_results(steps@)),
{
    let mut result_buf = String::new();
    let multiline = steps.len() > 1;
    let mut i: usize = 0;
    while i < steps.len()
        invariant
            i <= steps.len(),
            multiline == (steps@.len() > 1),
            result_buf@ == body_output(
                step_lines(steps@).take(i as int),
                step_results(steps@).take(i as int),
                multiline,
            ),
        decreases steps.len() - i,
    {
        let (line, result) = &steps[i];
        let part = render_line(line.as_str(), multiline, result);
        result_buf.append(part.as_str());
        proof {
            let t = step_lines(steps@).take(i + 1);
            let u = step_results(steps@).take(i + 1);
            assert(t.drop_last() =~= step_lines(steps@).take(i as int));
            assert(u.drop_last() =~= step_results(steps@).take(i as int));
            assert(t.last() == steps@[i as int].0@);
            assert(u.last() == outcome_view(steps@[i as int].1));
        }
        i += 1;
    }
    let mut out = String::new();
    out.append("```ansi\n");
    out.append(result_buf.as_str());
    out.append("\n```");
    proof {
        assert(step_lines(steps@).take(steps.len() as int) =~= step_lines(steps@));
        assert(step_results(steps@).take(steps.len() as int) =~= step_results(steps@));
        assert(out@ =~= fend_output(step_lines(steps@), step_results(steps@)));
    }
    out
}


/// The maximum number of fend contexts kept in memory.
pub const MAX_FEND_CTX: usize = 128;

/// What the buffer of per-channel contexts holds, front first: a channel id
/// and that channel's context.
pub uninterp spec fn fend_context_items(b: FixedCircularBuffer<(u64, fend_core::Context), 128>) -> Seq<(u64, fend_core::Context)>;

/// `FixedCircularBuffer::new`: an empty buffer.
#[verifier::external_body]
fn ctx_ring_new() -> (r: FixedCircularBuffer<(u64, fend_core::Context), 128>)
    ensures
        fend_context_items(r) == Seq::<(u64, fend_core::Context)>::empty(),
{
    FixedCircularBuffer::new()
}

/// `CircularBuffer::len`: the number of items, never above the capacity.
#[verifier::external_body]
fn ctx_ring_len(b: &FixedCircularBuffer<(u64, fend_core::Context), 128>) -> (r: usize)
    ensures
        r == fend_context_items(*b).len(),
        r <= 128,
{
    b.len()
}

/// `CircularBuffer::get`: the item at `index`, counted from the front.
#[verifier::external_body]
fn ctx_ring_get(b: &FixedCircularBuffer<(u64, fend_core::Context), 128>, index: usize) -> (r: Option<&(u64, fend_core::Context)>)
    ensures
        index < fend_context_items(*b).len() ==> r == Some(&fend_context_items(*b)[index as int]),
        index >= fend_context_items(*b).len() ==> r is None,
{
    b.get(index)
}

/// `CircularBuffer::remove`: takes out the item at `index`; the others keep
/// their order. It returns `None` on an index out of range and never panics
/// (fend's `Context` has no drop code of its own).
#[verifier::external_body]
fn ctx_ring_remove(b: &mut FixedCircularBuffer<(u64, fend_core::Context), 128>, index: usize) -> (r: Option<(u64, fend_core::Context)>)
    ensures
        index < fend_context_items(*old(b)).len() ==> r == Some(fend_context_items(*old(b))[index as int]),
        index < fend_context_items(*old(b)).len() ==> fend_context_items(*final(b)) == fend_context_items(*old(b)).remove(index as int),
        index >= fend_context_items(*old(b)).len() ==> r is None,
        index >= fend_context_items(*old(b)).len() ==> fend_context_items(*final(b)) == fend_context_items(*old(b)),
    no_unwind
{
    b.remove(index)
}

/// `CircularBuffer::push_front`: puts `item` at the front; when the buffer is
/// full, the item at the back is dropped. It never panics.
#[verifier::external_body]
fn ctx_ring_push_front(b: &mut FixedCircularBuffer<(u64, fend_core::Context), 128>, item: (u64, fend_core::Context))
    ensures
        fend_context_items(*old(b)).len() < 128 ==> fend_context_items(*final(b)) == seq![item] + fend_context_items(*old(b)),
        fend_context_items(*old(b)).len() >= 128 ==> fend_context_items(*final(b)) == seq![item] + fend_context_items(*old(b)).drop_last(),
    no_unwind
{
    b.push_front(item);
}

/// `CircularBuffer::nth_front_mut`, used to replace the context of the item at
/// `index`; when there is no such item, nothing changes and `ctx` comes back.
/// It never panics.
#[verifier::external_body]
fn ctx_ring_replace_nth(b: &mut FixedCircularBuffer<(u64, fend_core::Context), 128>, index: usize, ctx: fend_core::Context) -> (r: Option<fend_core::Context>)
    ensures
        index < fend_context_items(*old(b)).len() ==> r is None,
        index < fend_context_items(*old(b)).len() ==> fend_context_items(*final(b)) == fend_context_items(*old(b)).update(index as int, (fend_context_items(*old(b))[index as int].0, ctx)),
        index >= fend_context_items(*old(b)).len() ==> r == Some(ctx),
        index >= fend_context_items(*old(b)).len() ==> fend_context_items(*final(b)) == fend_context_items(*old(b)),
    no_unwind
{
    match b.nth_front_mut(index) {
        Some(slot) => {
            slot.1 = ctx;
            None
        },
        None => Some(ctx),
    }
}

/// Index of the first item for `channel`, if any.
pub open spec fn channel_index(items: Seq<(u64, fend_core::Context)>, channel: u64) -> Option<int>
    decreases items.len(),
{
    if items.len() == 0 {
        None
    } else if items[0].0 == channel {
        Some(0)
    } else {
        match channel_index(items.drop_first(), channel) {
            Some(i) => Some(i + 1),
            None => None,
        }
    }
}

/// `items` with `item` put at the front of a ring of capacity `cap`: when it
/// is full, the item at the back is dropped.
pub open spec fn ring_push_front<T>(items: Seq<T>, item: T, cap: nat) -> Seq<T> {
    if items.len() < cap {
        seq![item] + items
    } else {
        seq![item] + items.drop_last()
    }
}

/// The contexts after storing `ctx` for `channel`: it replaces that channel's
/// context where there is one, else it goes to the front, evicting the
/// oldest context when the buffer is full.
pub open spec fn store_spec(items: Seq<(u64, fend_core::Context)>, channel: u64, ctx: fend_core::Context) -> Seq<(u64, fend_core::Context)> {
    match channel_index(items, channel) {
        Some(i) => items.update(i, (channel, ctx)),
        None => ring_push_front(items, (channel, ctx), MAX_FEND_CTX as nat),
    }
}

/// The contexts after clearing `channel`'s: its (first) entry is removed.
pub open spec fn clear_spec(items: Seq<(u64, fend_core::Context)>, channel: u64) -> Seq<(u64, fend_core::Context)> {
    match channel_index(items, channel) {
        Some(i) => items.remove(i),
        None => items,
    }
}

/// The first item for the channel is where `channel_index` points.
proof fn lemma_channel_index_found(items: Seq<(u64, fend_core::Context)>, channel: u64, i: int)
    requires
        0 <= i < items.len(),
        items[i].0 == channel,
        forall|j: int| 0 <= j < i ==> (#[trigger] items[j]).0 != channel,
    ensures
        channel_index(items, channel) == Some(i),
    decreases i,
{
    if i > 0 {
        let t = items.drop_first();
        assert forall|j: int| 0 <= j < i - 1 implies (#[trigger] t[j]).0 != channel by {
            assert(t[j] == items[j + 1]);
        }
        lemma_channel_index_found(t, channel, i - 1);
    }
}

/// `channel_index` points into the items, at an item for the channel.
proof fn lemma_channel_index_bound(items: Seq<(u64, fend_core::Context)>, channel: u64)
    ensures
        channel_index(items, channel) matches Some(i) ==> 0 <= i < items.len() && items[i].0 == channel,
    decreases items.len(),
{
    if items.len() > 0 && items[0].0 != channel {
        lemma_channel_index_bound(items.drop_first(), channel);
    }
}

/// Without an item for the channel, `channel_index` finds nothing.
proof fn lemma_channel_index_none(items: Seq<(u64, fend_core::Context)>, channel: u64)
    requires
        forall|j: int| 0 <= j < items.len() ==> (#[trigger] items[j]).0 != channel,
    ensures
        channel_index(items, channel) is None,
    decreases items.len(),
{
    if items.len() > 0 {
        let t = items.drop_first();
        assert forall|j: int| 0 <= j < t.len() implies (#[trigger] t[j]).0 != channel by {
            assert(t[j] == items[j + 1]);
        }
        lemma_channel_index_none(t, channel);
    }
}

/// No channel appears twice among `items`.
pub open spec fn distinct_channels(items: Seq<(u64, fend_core::Context)>) -> bool {
    forall|i: int, j: int| 0 <= i < j < items.len() ==> (#[trigger] items[i]).0 != (#[trigger] items[j]).0
}

/// Context retention: right after a context is stored for a channel, that
/// channel's lookup finds exactly this context.
pub proof fn lemma_store_then_lookup(items: Seq<(u64, fend_core::Context)>, channel: u64, ctx: fend_core::Context)
    ensures
        channel_index(store_spec(items, channel, ctx), channel) matches Some(i) && store_spec(items, channel, ctx)[i] == (channel, ctx),
{
    let after = store_spec(items, channel, ctx);
    lemma_channel_index_bound(items, channel);
    match channel_index(items, channel) {
        Some(i) => {
            assert forall|j: int| 0 <= j < i implies (#[trigger] after[j]).0 != channel by {
                if items[j].0 == channel {
                    lemma_channel_index_first(items, channel, j);
                }
            }
            lemma_channel_index_found(after, channel, i);
        },
        None => {
            lemma_channel_index_found(after, channel, 0);
        },
    }
}

/// No entry before the first match has the channel.
proof fn lemma_channel_index_first(items: Seq<(u64, fend_core::Context)>, channel: u64, j: int)
    requires
        0 <= j < items.len(),
        items[j].0 == channel,
    ensures
        channel_index(items, channel) matches Some(i) && i <= j,
    decreases j,
{
    if j > 0 && items[0].0 != channel {
        assert(items.drop_first()[j - 1] == items[j]);
        lemma_channel_index_first(items.drop_first(), channel, j - 1);
    }
}

/// Storing a context never puts a channel in the buffer twice.
pub proof fn lemma_store_keeps_channels_distinct(items: Seq<(u64, fend_core::Context)>, channel: u64, ctx: fend_core::Context)
    requires
        distinct_channels(items),
    ensures
        distinct_channels(store_spec(items, channel, ctx)),
{
    let after = store_spec(items, channel, ctx);
    lemma_channel_index_bound(items, channel);
    match channel_index(items, channel) {
        Some(i) => {
            assert forall|a: int, b: int| 0 <= a < b < after.len() implies (#[trigger] after[a]).0 != (#[trigger] after[b]).0 by {
                assert(items[a].0 != items[b].0);
            }
        },
        None => {
            assert forall|j: int| 0 <= j < items.len() implies (#[trigger] items[j]).0 != channel by {
                if items[j].0 == channel {
                    lemma_channel_index_first(items, channel, j);
                }
            }
            assert forall|a: int, b: int| 0 <= a < b < after.len() implies (#[trigger] after[a]).0 != (#[trigger] after[b]).0 by {
                if a == 0 {
                    assert(after[b] == items[b - 1]);
                } else {
                    assert(after[a] == items[a - 1] && after[b] == items[b - 1]);
                }
            }
        },
    }
}

/// `clear-context` forgets the channel: once its entry is removed, looking the
/// channel up finds nothing, and the other channels keep their contexts.
pub proof fn lemma_clear_forgets_channel(items: Seq<(u64, fend_core::Context)>, channel: u64, other: u64)
    requires
        distinct_channels(items),
        other != channel,
    ensures
        channel_index(clear_spec(items, channel), channel) is None,
        match channel_index(items, other) {
            Some(i) => channel_index(clear_spec(items, channel), other) matches Some(k) && clear_spec(items, channel)[k] == items[i],
            None => channel_index(clear_spec(items, channel), other) is None,
        },
{
    let after = clear_spec(items, channel);
    lemma_channel_index_bound(items, channel);
    lemma_channel_index_bound(items, other);
    lemma_clear_forgets_channel_alone(items, channel);
    match channel_index(items, other) {
        Some(i) => {
            let k = match channel_index(items, channel) {
                Some(ci) => if i < ci { i } else { i - 1 },
                None => i,
            };
            assert(after[k] == items[i]);
            assert forall|j: int| 0 <= j < k implies (#[trigger] after[j]).0 != other by {
                let src = match channel_index(items, channel) {
                    Some(ci) => if j < ci { j } else { j + 1 },
                    None => j,
                };
                assert(after[j] == items[src]);
                if items[src].0 == other {
                    lemma_channel_index_first(items, other, src);
                }
            }
            lemma_channel_index_found(after, other, k);
        },
        None => {
            assert forall|j: int| 0 <= j < after.len() implies (#[trigger] after[j]).0 != other by {
                let src = match channel_index(items, channel) {
                    Some(ci) => if j < ci { j } else { j + 1 },
                    None => j,
                };
                assert(after[j] == items[src]);
                if items[src].0 == other {
                    lemma_channel_index_first(items, other, src);
                }
            }
            lemma_channel_index_none(after, other);
        },
    }
}

/// Storing a channel's context leaves the contexts of other channels alone,
/// unless a new entry pushes the oldest one out of a full buffer.
pub proof fn lemma_store_keeps_other_channels(items: Seq<(u64, fend_core::Context)>, channel: u64, ctx: fend_core::Context, other: u64)
    requires
        other != channel,
        channel_index(items, channel) is Some || items.len() < MAX_FEND_CTX,
    ensures
        match channel_index(items, other) {
            Some(i) => channel_index(store_spec(items, channel, ctx), other) matches Some(k) && store_spec(items, channel, ctx)[k] == items[i],
            None => channel_index(store_spec(items, channel, ctx), other) is None,
        },
{
    let after = store_spec(items, channel, ctx);
    lemma_channel_index_bound(items, channel);
    lemma_channel_index_bound(items, other);
    let shift: int = if channel_index(items, channel) is Some { 0 } else { 1 };
    assert(after.len() == items.len() + shift);
    assert forall|j: int| 0 <= j < items.len() implies after[j + shift].0 == items[j].0 && (items[j].0 == other ==> after[j + shift] == items[j]) by {
    }
    if shift == 1 {
        assert(after[0].0 == channel);
    }
    match channel_index(items, other) {
        Some(i) => {
            assert forall|j: int| 0 <= j < i + shift implies (#[trigger] after[j]).0 != other by {
                if shift == 1 && j == 0 {
                } else {
                    if items[j - shift].0 == other {
                        lemma_channel_index_first(items, other, j - shift);
                    }
                }
            }
            lemma_channel_index_found(after, other, i + shift);
        },
        None => {
            assert forall|j: int| 0 <= j < after.len() implies (#[trigger] after[j]).0 != other by {
                if shift == 1 && j == 0 {
                } else {
                    if items[j - shift].0 == other {
                        lemma_channel_index_first(items, other, j - shift);
                    }
                }
            }
            lemma_channel_index_none(after, other);
        },
    }
}

/// Clearing a channel keeps the remaining channels distinct.
proof fn lemma_clear_keeps_channels_distinct(items: Seq<(u64, fend_core::Context)>, channel: u64)
    requires
        distinct_channels(items),
    ensures
        distinct_channels(clear_spec(items, channel)),
{
    lemma_channel_index_bound(items, channel);
    let after = clear_spec(items, channel);
    if let Some(i) = channel_index(items, channel) {
        assert forall|a: int, b: int| 0 <= a < b < after.len() implies (#[trigger] after[a]).0 != (#[trigger] after[b]).0 by {
            let sa = if a < i { a } else { a + 1 };
            let sb = if b < i { b } else { b + 1 };
            assert(after[a] == items[sa] && after[b] == items[sb]);
        }
    }
}

/// Once a channel of a buffer without repeats is cleared, it is gone.
proof fn lemma_clear_forgets_channel_alone(items: Seq<(u64, fend_core::Context)>, channel: u64)
    requires
        distinct_channels(items),
    ensures
        channel_index(clear_spec(items, channel), channel) is None,
{
    let after = clear_spec(items, channel);
    lemma_channel_index_bound(items, channel);
    assert forall|j: int| 0 <= j < after.len() implies (#[trigger] after[j]).0 != channel by {
        match channel_index(items, channel) {
            Some(i) => {
                if j < i {
                    assert(after[j] == items[j]);
                } else {
                    assert(after[j] == items[j + 1]);
                }
            },
            None => {
                if items[j].0 == channel {
                    lemma_channel_index_first(items, channel, j);
                }
            },
        }
    }
    lemma_channel_index_none(after, channel);
}

/// The fend contexts of channels, so that users can continue their
/// calculations: newest first, at most `MAX_FEND_CTX` of them.
pub struct FendContexts {
    buf: FixedCircularBuffer<(u64, fend_core::Context), 128>,
}

impl FendContexts {
    /// The channels and their contexts, newest first.
    pub closed spec fn items(&self) -> Seq<(u64, fend_core::Context)> {
        fend_context_items(self.buf)
    }

    /// Each channel has at most one context.
    #[verifier::type_invariant]
    closed spec fn well_formed(&self) -> bool {
        distinct_channels(self.items())
    }

    /// No contexts yet.
    pub fn new() -> (r: Self)
        ensures
            r.items() == Seq::<(u64, fend_core::Context)>::empty(),
    {
        FendContexts { buf: ctx_ring_new() }
    }

    /// The number of contexts kept, which never exceeds `MAX_FEND_CTX`.
    pub fn len(&self) -> (r: usize)
        ensures
            r == self.items().len(),
            r <= MAX_FEND_CTX,
    {
        ctx_ring_len(&self.buf)
    }

    /// Position of the first entry for `channel`.
    fn position(&self, channel: u64) -> (r: Option<usize>)
        ensures
            match r {
                Some(k) => channel_index(self.items(), channel) == Some(k as int) && k < self.items().len(),
                None => channel_index(self.items(), channel) is None,
            },
    {
        let n = ctx_ring_len(&self.buf);
        let mut i: usize = 0;
        while i < n
            invariant
                i <= n == self.items().len(),
                forall|j: int| 0 <= j < i ==> (#[trigger] self.items()[j]).0 != channel,
            decreases n - i,
        {
            let entry = ctx_ring_get(&self.buf, i).unwrap();
            if entry.0 == channel {
                proof {
                    lemma_channel_index_found(self.items(), channel, i as int);
                }
                return Some(i);
            }
            i += 1;
        }
        proof {
            lemma_channel_index_none(self.items(), channel);
        }
        None
    }

    /// A clone of the context kept for `channel`, if there is one; the clone
    /// has no random source.
    pub fn context_for(&self, channel: u64) -> (r: Option<fend_core::Context>)
        ensures
            match channel_index(self.items(), channel) {
                Some(i) => r == Some(fend_context_clone(self.items()[i].1)),
                None => r is None,
            },
            r matches Some(c) ==> !has_random_source(c),
    {
        match self.position(channel) {
            Some(i) => {
                let entry = ctx_ring_get(&self.buf, i).unwrap();
                Some(clone_context(&entry.1))
            },
            None => None,
        }
    }

    /// Keeps `ctx` as the context of `channel` (see `store_spec`).
    pub fn store(&mut self, channel: u64, ctx: fend_core::Context)
        ensures
            final(self).items() == store_spec(old(self).items(), channel, ctx),
            distinct_channels(final(self).items()),
    {
        proof {
            use_type_invariant(&*self);
            lemma_channel_index_bound(self.items(), channel);
            lemma_store_keeps_channels_distinct(self.items(), channel, ctx);
        }
        match self.position(channel) {
            Some(i) => {
                let back = ctx_ring_replace_nth(&mut self.buf, i, ctx);
                if let Some(ctx) = back {
                    ctx_ring_push_front(&mut self.buf, (channel, ctx));
                }
            },
            None => {
                ctx_ring_push_front(&mut self.buf, (channel, ctx));
            },
        }
    }

    /// Drops the context of `channel`; tells whether there was one.
    pub fn remove_channel(&mut self, channel: u64) -> (r: bool)
        ensures
            r == (channel_index(old(self).items(), channel) is Some),
            final(self).items() == clear_spec(old(self).items(), channel),
            channel_index(final(self).items(), channel) is None,
            distinct_channels(final(self).items()),
    {
        proof {
            use_type_invariant(&*self);
            lemma_clear_keeps_channels_distinct(self.items(), channel);
            lemma_clear_forgets_channel_alone(self.items(), channel);
        }
        match self.position(channel) {
            Some(i) => {
                ctx_ring_remove(&mut self.buf, i);
                true
            },
            None => false,
        }
    }
}

/// Clears the fend context of `channel`, and returns the answer to give.
pub fn clear_context(contexts: &mut FendContexts, channel: u64) -> (r: String)
    ensures
        final(contexts).items() == clear_spec(old(contexts).items(), channel),
        channel_index(final(contexts).items(), channel) is None,
        channel_index(old(contexts).items(), channel) is Some ==> r@ == "Context cleared"@,
        channel_index(old(contexts).items(), channel) is None ==> r@ == "No context to clear"@,
{
    let mut r = String::new();
    if contexts.remove_channel(channel) {
        r.append("Context cleared");
    } else {
        r.append("No context to clear");
    }
    r
}

/// Whether `c` has fixed-width terminal output: it is what setting that
/// output mode made of some context.
pub open spec fn in_terminal_mode(c: fend_core::Context) -> bool {
    exists|b: fend_core::Context| #[trigger] terminal_output_mode(b) == c
}

/// A fresh context: random numbers from `rand`, and terminal output mode.
pub fn new_context() -> (r: fend_core::Context)
    ensures
        in_terminal_mode(r),
        has_random_source(r),
{
    let mut ctx = context_new();
    set_random_u32_fn(&mut ctx);
    let ghost before = ctx;
    set_output_mode_terminal(&mut ctx);
    assert(terminal_output_mode(before) == ctx);
    ctx
}


/// The command word `~fend` that starts the message.
pub open spec fn fend_prefix() -> Seq<char> {
    seq!['~', 'f', 'e', 'n', 'd']
}

/// The expression part of a `fend` message: what follows `~fend` (nothing if
/// the message does not start with it), trimmed, with backticks turned into
/// spaces.
pub open spec fn fend_args_spec(s: Seq<char>) -> Seq<char> {
    let rest = if s.len() >= 5 && s.take(5) == fend_prefix() {
        s.skip(5)
    } else {
        seq![]
    };
    replace_char(trim(rest), '`', ' ')
}

/// The lines of `ls` that hold more than whitespace.
pub open spec fn nonblank(ls: Seq<Seq<char>>) -> Seq<Seq<char>>
    decreases ls.len(),
{
    if ls.len() == 0 {
        seq![]
    } else if trim(ls.last()).len() > 0 {
        nonblank(ls.drop_last()).push(ls.last())
    } else {
        nonblank(ls.drop_last())
    }
}

/// The expressions of a `fend` message: the non-blank lines of its expression
/// part.
pub open spec fn fend_lines_spec(s: Seq<char>) -> Seq<Seq<char>> {
    nonblank(lines(fend_args_spec(s)))
}

/// The expression part of a `fend` message (see `fend_args_spec`).
pub fn fend_args(content: &str) -> (r: String)
    ensures
        r@ == fend_args_spec(content@),
{
    let v = chars_of(content);
    let n = v.len();
    let rest = if n >= 5 && v[0] == '~' && v[1] == 'f' && v[2] == 'e' && v[3] == 'n' && v[4] == 'd' {
        assert(v@.take(5) =~= fend_prefix());
        slice_chars(&v, 5, n)
    } else {
        proof {
            if v@.len() >= 5 && v@.take(5) == fend_prefix() {
                assert(v@.take(5)[0] == '~' && v@.take(5)[1] == 'f' && v@.take(5)[2] == 'e');
                assert(v@.take(5)[3] == 'n' && v@.take(5)[4] == 'd');
            }
        }
        Vec::new()
    };
    proof {
        if n >= 5 && v@.take(5) == fend_prefix() {
            assert(rest@ =~= v@.skip(5));
        } else {
            assert(rest@ =~= Seq::<char>::empty());
        }
    }
    let trimmed = chars_of(trim_str(crate::text::string_of(&rest).as_str()).as_str());
    crate::text::string_of(&replace_char_of(&trimmed, '`', ' '))
}

/// The non-blank lines among `ls`.
fn keep_nonblank(ls: Vec<String>) -> (r: Vec<String>)
    ensures
        views(r@) == nonblank(views(ls@)),
{
    let mut out: Vec<String> = Vec::new();
    let mut i: usize = 0;
    while i < ls.len()
        invariant
            i <= ls.len(),
            views(out@) == nonblank(views(ls@).take(i as int)),
        decreases ls.len() - i,
    {
        let ghost before = views(out@);
        let t = trim_str(ls[i].as_str());
        if !t.as_str().is_empty() {
            out.push(ls[i].clone());
            proof {
                assert(views(out@) =~= before.push(ls@[i as int]@));
            }
        }
        i += 1;
        proof {
            let w = views(ls@).take(i as int);
            assert(w.drop_last() =~= views(ls@).take(i - 1));
            assert(w.last() == ls@[i - 1]@);
        }
    }
    proof {
        assert(views(ls@).take(ls.len() as int) =~= views(ls@));
    }
    out
}

/// The expressions of a `fend` message (see `fend_lines_spec`).
pub fn fend_lines(content: &str) -> (r: Vec<String>)
    ensures
        views(r@) == fend_lines_spec(content@),
{
    let args = fend_args(content);
    keep_nonblank(lines_of(&chars_of(args.as_str())))
}

/// What a `fend` command turns into.
pub enum FendPlan {
    /// No expression, and nothing to edit: start an interactive session.
    Interactive,
    /// Evaluate these lines in the channel's context.
    Evaluate(Vec<String>),
}

/// Decides what the `fend` command does with a message: with no expression
/// and no earlier answer to edit, an interactive REPL session; otherwise the
/// evaluation of the message's expression lines.
pub fn cmd(content: &str, editing: bool) -> (r: FendPlan)
    ensures
        match r {
            FendPlan::Interactive => fend_lines_spec(content@).len() == 0 && !editing,
            FendPlan::Evaluate(ls) => (fend_lines_spec(content@).len() > 0 || editing) && views(ls@)
                == fend_lines_spec(content@),
        },
{
    let ls = fend_lines(content);
    if ls.len() == 0 && !editing {
        FendPlan::Interactive
    } else {
        FendPlan::Evaluate(ls)
    }
}

/// The lines of a REPL message: all its lines, backticks turned into spaces.
pub open spec fn repl_lines_spec(s: Seq<char>) -> Seq<Seq<char>> {
    lines(replace_char(s, '`', ' '))
}

/// What a message in a REPL session asks for.
pub enum ReplStep {
    /// `exit` or `quit`: end the session.
    Exit,
    /// Evaluate these lines.
    Evaluate(Vec<String>),
}

/// Reads a message of a REPL session: `exit` and `quit` end it, anything else
/// is evaluated line by line.
pub fn repl_step(content: &str) -> (r: ReplStep)
    ensures
        match r {
            ReplStep::Exit => content@ == "exit"@ || content@ == "quit"@,
            ReplStep::Evaluate(ls) => !(content@ == "exit"@ || content@ == "quit"@) && views(ls@)
                == repl_lines_spec(content@),
        },
{
    if str_eq(content, "exit") || str_eq(content, "quit") {
        return ReplStep::Exit;
    }
    let v = replace_char_of(&chars_of(content), '`', ' ');
    ReplStep::Evaluate(lines_of(&v))
}

/// How an evaluation run in the background ended.
pub enum EvalOutcome<C> {
    /// It finished with this answer and updated context.
    Finished(String, C),
    /// The task failed, with this error.
    Crashed(String),
    /// It took longer than allowed.
    TimedOut,
}

/// The answer to give for an evaluation, and the context to keep, if any.
pub fn settle_evaluation<C>(outcome: EvalOutcome<C>) -> (r: (String, Option<C>))
    ensures
        match outcome {
            EvalOutcome::Finished(text, c) => r.0@ == text@ && r.1 == Some(c),
            EvalOutcome::Crashed(e) => r.0@ == "Error: "@ + e@ && r.1 is None,
            EvalOutcome::TimedOut => r.0@ == "Operation timed out."@ && r.1 is None,
        },
{
    match outcome {
        EvalOutcome::Finished(text, c) => (text, Some(c)),
        EvalOutcome::Crashed(e) => {
            let mut t = String::new();
            t.append("Error: ");
            t.append(e.as_str());
            (t, None)
        },
        EvalOutcome::TimedOut => {
            let mut t = String::new();
            t.append("Operation timed out.");
            (t, None)
        },
    }
}

/// The answer to give for an evaluation in a REPL session, whether the
/// session goes on, and the new context, if any (otherwise the session keeps
/// its context): a failed task is reported and the session goes on; a
/// timeout ends it.
pub fn repl_outcome<C>(outcome: EvalOutcome<C>) -> (r: (String, bool, Option<C>))
    ensures
        match outcome {
            EvalOutcome::Finished(text, c) => r.0@ == text@ && r.1 && r.2 == Some(c),
            EvalOutcome::Crashed(e) => r.0@ == "Error: "@ + e@ && r.1 && r.2 is None,
            EvalOutcome::TimedOut => r.0@ == "Operation timed out."@ && !r.1 && r.2 is None,
        },
{
    let timed_out = match &outcome {
        EvalOutcome::TimedOut => true,
        _ => false,
    };
    let (text, ctx) = settle_evaluation(outcome);
    (text, !timed_out, ctx)
}

/// The context a REPL session evaluates its next message in, after an
/// evaluation ended with `outcome`: the finished evaluation's context, or the
/// one it had before when the evaluation failed or timed out.
pub open spec fn next_context<C>(ctx: C, outcome: EvalOutcome<C>) -> C {
    match outcome {
        EvalOutcome::Finished(_, c) => c,
        _ => ctx,
    }
}

/// The context a REPL session that started from `c0` has after evaluations
/// that ended with `outcomes`, in order.
pub open spec fn context_after<C>(c0: C, outcomes: Seq<EvalOutcome<C>>) -> C
    decreases outcomes.len(),
{
    if outcomes.len() == 0 {
        c0
    } else {
        next_context(context_after(c0, outcomes.drop_last()), outcomes.last())
    }
}

/// Context retention across the messages of a REPL session: after a series of
/// evaluations, the next message is evaluated in the context the latest
/// finished evaluation left, or in the starting context when none finished.
pub proof fn lemma_repl_context_chain<C>(c0: C, outcomes: Seq<EvalOutcome<C>>)
    ensures
        (forall|i: int| 0 <= i < outcomes.len() ==> !(#[trigger] outcomes[i] is Finished))
            ==> context_after(c0, outcomes) == c0,
        forall|i: int|
            0 <= i < outcomes.len() && #[trigger] outcomes[i] is Finished && (forall|j: int|
                i < j < outcomes.len() ==> !(#[trigger] outcomes[j] is Finished))
                ==> context_after(c0, outcomes) == outcomes[i]->Finished_1,
    decreases outcomes.len(),
{
    if outcomes.len() > 0 {
        let init = outcomes.drop_last();
        lemma_repl_context_chain(c0, init);
        assert forall|i: int| 0 <= i < init.len() implies init[i] == outcomes[i] by {}
        let n = outcomes.len() - 1;
        assert forall|i: int|
            0 <= i < outcomes.len() && #[trigger] outcomes[i] is Finished && (forall|j: int|
                i < j < outcomes.len() ==> !(#[trigger] outcomes[j] is Finished))
            implies context_after(c0, outcomes) == outcomes[i]->Finished_1 by {
            if i < n {
                assert(!(outcomes[n] is Finished));
                assert(init[i] is Finished);
                assert forall|j: int| i < j < init.len() implies !(#[trigger] init[j] is Finished) by {
                    assert(init[j] == outcomes[j]);
                }
            }
        }
        if forall|i: int| 0 <= i < outcomes.len() ==> !(#[trigger] outcomes[i] is Finished) {
            assert forall|i: int| 0 <= i < init.len() implies !(#[trigger] init[i] is Finished) by {
                assert(init[i] == outcomes[i]);
            }
            assert(!(outcomes[n] is Finished));
        }
    }
}

/// A fend REPL session: the context its next message is evaluated in, and
/// whether it still runs.
pub struct Repl<C> {
    ctx: C,
    open: bool,
}

impl<C> Repl<C> {
    /// The context the next message is evaluated in.
    pub closed spec fn context(&self) -> C {
        self.ctx
    }

    /// Whether the session still runs.
    pub closed spec fn is_open(&self) -> bool {
        self.open
    }

    /// A running session that starts from `ctx`.
    pub fn start(ctx: C) -> (r: Self)
        ensures
            r.context() == ctx,
            r.is_open(),
    {
        Repl { ctx, open: true }
    }

    /// The context the next message is evaluated in.
    pub fn current_context(&self) -> (r: &C)
        ensures
            *r == self.context(),
    {
        &self.ctx
    }

    /// Whether the session still runs.
    pub fn is_running(&self) -> (r: bool)
        ensures
            r == self.is_open(),
    {
        self.open
    }

    /// A message of the user: `exit` and `quit` end the session; anything else
    /// is to be evaluated, line by line, in the session's context (see
    /// `repl_step`).
    pub fn on_message(&mut self, content: &str) -> (r: ReplStep)
        ensures
            match r {
                ReplStep::Exit => content@ == "exit"@ || content@ == "quit"@,
                ReplStep::Evaluate(ls) => !(content@ == "exit"@ || content@ == "quit"@)
                    && views(ls@) == repl_lines_spec(content@),
            },
            final(self).context() == old(self).context(),
            final(self).is_open() == (old(self).is_open() && !(r is Exit)),
    {
        let r = repl_step(content);
        if let ReplStep::Exit = r {
            self.open = false;
        }
        r
    }

    /// No message came in time: the session ends.
    pub fn on_silence(&mut self)
        ensures
            !final(self).is_open(),
            final(self).context() == old(self).context(),
    {
        self.open = false;
    }

    /// An evaluation of a message ended with `outcome`: returns the answer to
    /// give; the session goes on in the finished evaluation's context, keeps
    /// its context after a failure, and ends after a timeout.
    pub fn on_outcome(&mut self, outcome: EvalOutcome<C>) -> (r: String)
        ensures
            match outcome {
                EvalOutcome::Finished(text, _) => r@ == text@,
                EvalOutcome::Crashed(e) => r@ == "Error: "@ + e@,
                EvalOutcome::TimedOut => r@ == "Operation timed out."@,
            },
            final(self).context() == next_context(old(self).context(), outcome),
            final(self).is_open() == (old(self).is_open() && !(outcome is TimedOut)),
    {
        let (text, go_on, ctx) = repl_outcome(outcome);
        if let Some(c) = ctx {
            self.ctx = c;
        }
        if !go_on {
            self.open = false;
        }
        text
    }
}

/// A fixed answer of the `fend` command, as a `String`.
fn answer(text: &str) -> (r: String)
    ensures
        r@ == text@,
{
    let mut r = String::new();
    r.append(text);
    r
}

/// Said when a REPL session starts.
pub fn repl_start_text() -> (r: String)
    ensures
        r@ == "Starting fend REPL. Type `exit` to exit."@,
{
    answer("Starting fend REPL. Type `exit` to exit.")
}

/// Said when no message came in time during a REPL session.
pub fn repl_timeout_text() -> (r: String)
    ensures
        r@ == "Session timed out."@,
{
    answer("Session timed out.")
}

/// Said when a REPL session is ended by the user.
pub fn repl_exit_text() -> (r: String)
    ensures
        r@ == "Fend exited."@,
{
    answer("Fend exited.")
}

/// Said when the user already has a session in the channel.
pub fn session_taken_text() -> (r: String)
    ensures
        r@ == "You already have an active interactive session."@,
{
    answer("You already have an active interactive session.")
}

} // verus!
