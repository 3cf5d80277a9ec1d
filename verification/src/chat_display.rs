//! How a conversation is laid out in lines.
use crate::chat_app::App;
use crate::chat_prompt::{AttachmentView, MessageAttachment, attachment_views};
use crate::chat_stream::{Message, MessageView, Role, conversation};
use crate::text::{clone_strings, opt_view, same, split_char, split_on, views};
use vstd::prelude::*;
use vstd::string::*;

verus! {

/// The least width that messages are laid out in.
pub const MIN_CONTENT_WIDTH: usize = 4;

// ---------------------------------------------------------------------------
// Lines
// ---------------------------------------------------------------------------

/// A single tool-call reference embedded in an AI header row.
#[derive(Debug)]
pub struct ToolRef {
    pub name: String,
    pub args: String,
    pub result: String,
    pub complete: bool,
    pub failed: bool,
}

pub struct ToolRefView {
    pub name: Seq<char>,
    pub args: Seq<char>,
    pub result: Seq<char>,
    pub complete: bool,
    pub failed: bool,
}

impl View for ToolRef {
    type V = ToolRefView;

    open spec fn view(&self) -> ToolRefView {
        ToolRefView {
            name: self.name@,
            args: self.args@,
            result: self.result@,
            complete: self.complete,
            failed: self.failed,
        }
    }
}

pub open spec fn tool_ref_views(list: Seq<ToolRef>) -> Seq<ToolRefView> {
    list.map_values(|t: ToolRef| t@)
}

/// Inline text style produced by the lightweight markdown tokenizer.
///
/// Only the styles we can cleanly render in a narrow TUI. Strikethrough is
/// collapsed to plain (content kept, markers dropped). Links keep the visible
/// label and drop the URL.
#[derive(Clone, Copy, Debug, PartialEq, Eq, Structural)]
pub enum InlineStyle {
    Plain,
    Bold,
    Italic,
    Code,
    /// ATX heading `#` prefix rendered before the heading body text.
    HeadingMarker,
    Highlighted(u8, u8, u8),
}

#[derive(Debug)]
pub struct InlineSpan {
    pub text: String,
    pub style: InlineStyle,
}

pub struct SpanView {
    pub text: Seq<char>,
    pub style: InlineStyle,
}

impl View for InlineSpan {
    type V = SpanView;

    open spec fn view(&self) -> SpanView {
        SpanView { text: self.text@, style: self.style }
    }
}

pub open spec fn span_views(list: Seq<InlineSpan>) -> Seq<SpanView> {
    list.map_values(|s: InlineSpan| s@)
}

pub open spec fn rows_of(list: Seq<Vec<InlineSpan>>) -> Seq<Seq<SpanView>> {
    list.map_values(|row: Vec<InlineSpan>| span_views(row@))
}

pub open spec fn plain_span(text: Seq<char>) -> SpanView {
    SpanView { text, style: InlineStyle::Plain }
}

#[derive(Clone, Copy, Debug, PartialEq, Eq, Structural)]
pub enum DiffKind {
    Unmarked,
    Add,
    Remove,
    Hunk,
}

/// Block-level classification for a single wrapped display line: it controls
/// line-level decoration (indent, bullet, rule), while the spans inside the line
/// carry character-level emphasis.
#[derive(Clone, Copy, Debug, PartialEq, Eq, Structural)]
pub enum BlockStyle {
    Normal,
    Heading(u8),
    Quote,
    Hr,
    Code,
    DiffAdd,
    DiffRemove,
    DiffHunk,
    /// First wrapped line of a list item (renders the bullet/number); subsequent
    /// wrapped lines of the same item use `ListContinuation` to keep the indent
    /// without re-emitting the marker.
    ListItem,
    ListContinuation,
}

#[derive(Debug)]
pub enum DisplayLine {
    Header {
        role: Role,
        /// Tool calls attached to this AI header row. Always empty for User headers.
        tools: Vec<ToolRef>,
    },
    AttachmentSummary { labels: Vec<String> },
    Text { segments: Vec<InlineSpan>, role: Role, block: BlockStyle },
    /// Standalone "AI is thinking" indicator placed where the assistant's
    /// message will appear. The renderer substitutes the current spinner
    /// frame at draw time so the dot pulses without rebuilding the cache.
    LoadingDot,
    /// Collapsible reasoning header. Shows character count when collapsed,
    /// reasoning content follows as Quote-styled lines when expanded.
    ThinkingHeader { char_count: usize, expanded: bool },
    Blank,
}

pub enum ShownView {
    Header { role: Role, tools: Seq<ToolRefView> },
    AttachmentSummary { labels: Seq<Seq<char>> },
    Text { segments: Seq<SpanView>, role: Role, block: BlockStyle },
    LoadingDot,
    ThinkingHeader { char_count: nat, expanded: bool },
    Blank,
}

impl View for DisplayLine {
    type V = ShownView;

    open spec fn view(&self) -> ShownView {
        match *self {
            DisplayLine::Header { role, tools } => ShownView::Header {
                role,
                tools: tool_ref_views(tools@),
            },
            DisplayLine::AttachmentSummary { labels } => ShownView::AttachmentSummary {
                labels: views(labels@),
            },
            DisplayLine::Text { segments, role, block } => ShownView::Text {
                segments: span_views(segments@),
                role,
                block,
            },
            DisplayLine::LoadingDot => ShownView::LoadingDot,
            DisplayLine::ThinkingHeader { char_count, expanded } => ShownView::ThinkingHeader {
                char_count: char_count as nat,
                expanded,
            },
            DisplayLine::Blank => ShownView::Blank,
        }
    }
}

pub open spec fn shown_views(list: Seq<DisplayLine>) -> Seq<ShownView> {
    list.map_values(|l: DisplayLine| l@)
}

fn copy_spans(list: &Vec<InlineSpan>) -> (r: Vec<InlineSpan>)
    ensures
        span_views(r@) == span_views(list@),
{
    let mut out: Vec<InlineSpan> = Vec::new();
    let mut i: usize = 0;
    while i < list.len()
        invariant
            i <= list.len(),
            out.len() == i,
            forall|k: int| 0 <= k < i ==> (#[trigger] out@[k])@ == list@[k]@,
        decreases list.len() - i,
    {
        out.push(InlineSpan { text: list[i].text.clone(), style: list[i].style });
        i += 1;
    }
    assert(span_views(out@) =~= span_views(list@));
    out
}

fn copy_tools(list: &Vec<ToolRef>) -> (r: Vec<ToolRef>)
    ensures
        tool_ref_views(r@) == tool_ref_views(list@),
{
    let mut out: Vec<ToolRef> = Vec::new();
    let mut i: usize = 0;
    while i < list.len()
        invariant
            i <= list.len(),
            out.len() == i,
            forall|k: int| 0 <= k < i ==> (#[trigger] out@[k])@ == list@[k]@,
        decreases list.len() - i,
    {
        let t = &list[i];
        out.push(
            ToolRef {
                name: t.name.clone(),
                args: t.args.clone(),
                result: t.result.clone(),
                complete: t.complete,
                failed: t.failed,
            },
        );
        i += 1;
    }
    assert(tool_ref_views(out@) =~= tool_ref_views(list@));
    out
}

impl DisplayLine {
    /// A copy of the line.
    pub fn duplicate(&self) -> (r: DisplayLine)
        ensures
            r@ == self@,
    {
        match self {
            DisplayLine::Header { role, tools } => DisplayLine::Header {
                role: *role,
                tools: copy_tools(tools),
            },
            DisplayLine::AttachmentSummary { labels } => DisplayLine::AttachmentSummary {
                labels: clone_strings(labels),
            },
            DisplayLine::Text { segments, role, block } => DisplayLine::Text {
                segments: copy_spans(segments),
                role: *role,
                block: *block,
            },
            DisplayLine::LoadingDot => DisplayLine::LoadingDot,
            DisplayLine::ThinkingHeader { char_count, expanded } => DisplayLine::ThinkingHeader {
                char_count: *char_count,
                expanded: *expanded,
            },
            DisplayLine::Blank => DisplayLine::Blank,
        }
    }
}

fn add_line(list: &mut Vec<DisplayLine>, line: DisplayLine)
    ensures
        shown_views(final(list)@) == shown_views(old(list)@).push(line@),
{
    list.push(line);
    assert(shown_views(list@) =~= shown_views(old(list)@).push(line@));
}

fn add_lines(list: &mut Vec<DisplayLine>, more: &Vec<DisplayLine>)
    ensures
        shown_views(final(list)@) == shown_views(old(list)@) + shown_views(more@),
{
    let ghost before = shown_views(list@);
    let ghost all = shown_views(more@);
    let mut i: usize = 0;
    assert(before + all.take(0) =~= before);
    while i < more.len()
        invariant
            i <= more.len(),
            all == shown_views(more@),
            shown_views(list@) == before + all.take(i as int),
        decreases more.len() - i,
    {
        assert(all[i as int] == more@[i as int]@);
        add_line(list, more[i].duplicate());
        assert(before + all.take(i + 1) =~= (before + all.take(i as int)).push(all[i as int]));
        i += 1;
    }
    assert(all.take(i as int) =~= all);
}

// ---------------------------------------------------------------------------
// Plain text
// ---------------------------------------------------------------------------

/// A row of text: one without spans gets an empty one, so that it takes up a
/// line.
pub open spec fn plain_row(row: Seq<SpanView>, role: Role, block: BlockStyle) -> ShownView {
    ShownView::Text {
        segments: if row.len() == 0 {
            seq![plain_span(seq![])]
        } else {
            row
        },
        role,
        block,
    }
}

pub open spec fn plain_rows(rows: Seq<Seq<SpanView>>, role: Role, block: BlockStyle) -> Seq<
    ShownView,
> {
    rows.map_values(|row: Seq<SpanView>| plain_row(row, role, block))
}

/// The rows that each line of a text is laid out in, one after the other.
pub open spec fn all_rows(lines: Seq<Seq<Seq<SpanView>>>) -> Seq<Seq<SpanView>>
    decreases lines.len(),
{
    if lines.len() == 0 {
        seq![]
    } else {
        all_rows(lines.drop_last()) + lines.last()
    }
}

pub open spec fn wrapped_views(lines: Seq<Vec<Vec<InlineSpan>>>) -> Seq<Seq<Seq<SpanView>>> {
    lines.map_values(|rows: Vec<Vec<InlineSpan>>| rows_of(rows@))
}

/// The spans of each line of a plain text, ready to be wrapped.
pub fn plain_lines(content: &str) -> (r: Vec<InlineSpan>)
    ensures
        span_views(r@) == split_on(content@, '\n').map_values(|line: Seq<char>| plain_span(line)),
{
    let pieces = split_char(content, '\n');
    let ghost all = views(pieces@);
    let mut out: Vec<InlineSpan> = Vec::new();
    let mut i: usize = 0;
    while i < pieces.len()
        invariant
            i <= pieces.len(),
            all == views(pieces@),
            out.len() == i,
            forall|k: int| 0 <= k < i ==> (#[trigger] out@[k])@ == plain_span(all[k]),
        decreases pieces.len() - i,
    {
        assert(all[i as int] == pieces@[i as int]@);
        out.push(InlineSpan { text: pieces[i].clone(), style: InlineStyle::Plain });
        i += 1;
    }
    assert(span_views(out@) =~= all.map_values(|line: Seq<char>| plain_span(line)));
    out
}

fn emit_plain(
    out: &mut Vec<DisplayLine>,
    rows: &Vec<Vec<InlineSpan>>,
    role: Role,
    block: BlockStyle,
)
    ensures
        shown_views(final(out)@) == shown_views(old(out)@) + plain_rows(
            rows_of(rows@),
            role,
            block,
        ),
{
    let ghost before = shown_views(out@);
    let ghost all = rows_of(rows@);
    let ghost target = plain_rows(all, role, block);
    let mut i: usize = 0;
    assert(before + target.take(0) =~= before);
    while i < rows.len()
        invariant
            i <= rows.len(),
            all == rows_of(rows@),
            target == plain_rows(all, role, block),
            shown_views(out@) == before + target.take(i as int),
        decreases rows.len() - i,
    {
        assert(all[i as int] == span_views(rows@[i as int]@));
        assert(span_views(rows@[i as int]@).len() == rows@[i as int]@.len());
        let segments = if rows[i].len() == 0 {
            let mut one: Vec<InlineSpan> = Vec::new();
            one.push(InlineSpan { text: String::new(), style: InlineStyle::Plain });
            assert(one@[0]@.text =~= seq![]);
            assert(span_views(one@) =~= seq![plain_span(seq![])]);
            one
        } else {
            copy_spans(&rows[i])
        };
        add_line(out, DisplayLine::Text { segments, role, block });
        assert(before + target.take(i + 1) =~= (before + target.take(i as int)).push(
            target[i as int],
        ));
        i += 1;
    }
    assert(target.take(i as int) =~= target);
}

fn emit_plain_lines(
    out: &mut Vec<DisplayLine>,
    wrapped: &Vec<Vec<Vec<InlineSpan>>>,
    role: Role,
    block: BlockStyle,
)
    ensures
        shown_views(final(out)@) == shown_views(old(out)@) + plain_rows(
            all_rows(wrapped_views(wrapped@)),
            role,
            block,
        ),
{
    let ghost before = shown_views(out@);
    let ghost all = wrapped_views(wrapped@);
    let mut i: usize = 0;
    assert(all.take(0) =~= seq![]);
    assert(before + plain_rows(all_rows(all.take(0)), role, block) =~= before);
    while i < wrapped.len()
        invariant
            i <= wrapped.len(),
            all == wrapped_views(wrapped@),
            shown_views(out@) == before + plain_rows(all_rows(all.take(i as int)), role, block),
        decreases wrapped.len() - i,
    {
        assert(all.take(i + 1).drop_last() =~= all.take(i as int));
        assert(all.take(i + 1).last() == rows_of(wrapped@[i as int]@));
        let ghost so_far = all_rows(all.take(i as int));
        let ghost more = rows_of(wrapped@[i as int]@);
        emit_plain(out, &wrapped[i], role, block);
        assert(plain_rows(so_far + more, role, block) =~= plain_rows(so_far, role, block)
            + plain_rows(more, role, block));
        assert(before + plain_rows(so_far, role, block) + plain_rows(more, role, block) =~= before
            + plain_rows(so_far + more, role, block));
        i += 1;
    }
    assert(all.take(i as int) =~= all);
}

/// Emit wrapped User content. No markdown parsing for user input: the user
/// typed it, we show it literally. `wrapped` holds the rows of each line.
pub fn emit_user_lines(out: &mut Vec<DisplayLine>, wrapped: &Vec<Vec<Vec<InlineSpan>>>)
    ensures
        shown_views(final(out)@) == shown_views(old(out)@) + plain_rows(
            all_rows(wrapped_views(wrapped@)),
            Role::User,
            BlockStyle::Normal,
        ),
{
    emit_plain_lines(out, wrapped, Role::User, BlockStyle::Normal)
}

/// Emit wrapped reasoning as a quote. `wrapped` holds the rows of each line.
pub fn emit_reasoning_lines(out: &mut Vec<DisplayLine>, wrapped: &Vec<Vec<Vec<InlineSpan>>>)
    ensures
        shown_views(final(out)@) == shown_views(old(out)@) + plain_rows(
            all_rows(wrapped_views(wrapped@)),
            Role::Assistant,
            BlockStyle::Quote,
        ),
{
    emit_plain_lines(out, wrapped, Role::Assistant, BlockStyle::Quote)
}

/// The width that reasoning is wrapped at.
pub fn reasoning_width(width: usize) -> (r: usize)
    ensures
        r == if width <= 4 {
            0
        } else {
            width - 4
        },
{
    width.saturating_sub(4)
}

// ---------------------------------------------------------------------------
// Markdown
// ---------------------------------------------------------------------------

/// A block of markdown. We do NOT support: tables, reference links, footnotes,
/// nested lists, HTML, setext headings.
#[derive(Debug)]
pub enum MdBlock {
    Blank,
    Paragraph(String),
    Heading { level: u8, text: String },
    Quote(String),
    ListItem { marker: String, text: String },
    CodeLine { text: String, diff: DiffKind, lang: String },
    Hr,
}

pub enum BlockView {
    Blank,
    Paragraph(Seq<char>),
    Heading { level: u8, text: Seq<char> },
    Quote(Seq<char>),
    ListItem { marker: Seq<char>, text: Seq<char> },
    CodeLine { text: Seq<char>, diff: DiffKind, lang: Seq<char> },
    Hr,
}

impl View for MdBlock {
    type V = BlockView;

    open spec fn view(&self) -> BlockView {
        match *self {
            MdBlock::Blank => BlockView::Blank,
            MdBlock::Paragraph(text) => BlockView::Paragraph(text@),
            MdBlock::Heading { level, text } => BlockView::Heading { level, text: text@ },
            MdBlock::Quote(text) => BlockView::Quote(text@),
            MdBlock::ListItem { marker, text } => BlockView::ListItem {
                marker: marker@,
                text: text@,
            },
            MdBlock::CodeLine { text, diff, lang } => BlockView::CodeLine {
                text: text@,
                diff,
                lang: lang@,
            },
            MdBlock::Hr => BlockView::Hr,
        }
    }
}

pub open spec fn block_views(list: Seq<MdBlock>) -> Seq<BlockView> {
    list.map_values(|b: MdBlock| b@)
}

/// How the rows of a block are marked.
#[derive(Debug)]
pub enum Shape {
    /// Every row alike.
    Block(BlockStyle),
    /// The first row behind a bullet or a number.
    Item(String),
}

pub enum ShapeView {
    Block(BlockStyle),
    Item(Seq<char>),
}

impl View for Shape {
    type V = ShapeView;

    open spec fn view(&self) -> ShapeView {
        match *self {
            Shape::Block(b) => ShapeView::Block(b),
            Shape::Item(m) => ShapeView::Item(m@),
        }
    }
}

#[derive(Debug)]
pub struct CodeText {
    pub text: String,
    pub diff: DiffKind,
}

pub open spec fn code_views(list: Seq<CodeText>) -> Seq<(Seq<char>, DiffKind)> {
    list.map_values(|c: CodeText| (c.text@, c.diff))
}

/// What is to be laid out of a piece of markdown.
#[derive(Debug)]
pub enum LayoutJob {
    /// Nothing more to do.
    Ready(DisplayLine),
    /// Inline markdown, tokenized and wrapped behind `head`.
    Inline { head: Vec<InlineSpan>, text: String, width: usize, shape: Shape },
    /// Code of one language, highlighted as a whole and wrapped line by line.
    Code { lines: Vec<CodeText>, lang: String, width: usize },
}

pub enum JobView {
    Ready(ShownView),
    Inline { head: Seq<SpanView>, text: Seq<char>, width: usize, shape: ShapeView },
    Code { lines: Seq<(Seq<char>, DiffKind)>, lang: Seq<char>, width: usize },
}

impl View for LayoutJob {
    type V = JobView;

    open spec fn view(&self) -> JobView {
        match *self {
            LayoutJob::Ready(line) => JobView::Ready(line@),
            LayoutJob::Inline { head, text, width, shape } => JobView::Inline {
                head: span_views(head@),
                text: text@,
                width,
                shape: shape@,
            },
            LayoutJob::Code { lines, lang, width } => JobView::Code {
                lines: code_views(lines@),
                lang: lang@,
                width,
            },
        }
    }
}

pub open spec fn job_views(list: Seq<LayoutJob>) -> Seq<JobView> {
    list.map_values(|j: LayoutJob| j@)
}

/// How many columns a text takes up: `termwiz::cell::unicode_column_width`, for
/// the latest Unicode version.
pub uninterp spec fn column_width(text: Seq<char>) -> nat;

/// The columns that a text takes up, from
/// `termwiz::cell::unicode_column_width`: a function of the text. Which
/// characters are wide is not stated.
#[verifier::external_body]
fn text_width(text: &str) -> (r: usize)
    ensures
        r == column_width(text@),
{
    termwiz::cell::unicode_column_width(text, None)
}

/// What is left of the width behind something, at least one column.
pub open spec fn width_behind(width: nat, taken: nat) -> usize {
    if width <= taken + 1 {
        1
    } else {
        (width - taken) as usize
    }
}

/// What is left of the width behind something, at least one column.
pub fn remaining_width(width: usize, taken: usize) -> (r: usize)
    ensures
        r == width_behind(width as nat, taken as nat),
        r >= 1,
{
    let left: usize = width.saturating_sub(taken);
    if left < 1 {
        1
    } else {
        left
    }
}

pub open spec fn repeated(c: char, n: nat) -> Seq<char> {
    Seq::new(n, |i: int| c)
}

fn repeat_char(c: char, n: usize) -> (r: String)
    ensures
        r@ == repeated(c, n as nat),
{
    let mut out = String::new();
    let mut i: usize = 0;
    while i < n
        invariant
            i <= n,
            out@ == repeated(c, i as nat),
        decreases n - i,
    {
        out.push(c);
        assert(out@ =~= repeated(c, (i + 1) as nat));
        i += 1;
    }
    assert(i == n);
    out
}

/// What is laid out of a block that is no code.
pub open spec fn job_of(block: BlockView, width: usize) -> JobView {
    match block {
        BlockView::Blank => JobView::Ready(ShownView::Blank),
        BlockView::Hr => JobView::Ready(
            ShownView::Text {
                segments: seq![plain_span(repeated('─', width as nat))],
                role: Role::Assistant,
                block: BlockStyle::Hr,
            },
        ),
        BlockView::Paragraph(text) => JobView::Inline {
            head: seq![],
            text,
            width,
            shape: ShapeView::Block(BlockStyle::Normal),
        },
        BlockView::Heading { level, text } => JobView::Inline {
            head: seq![
                SpanView {
                    text: repeated('#', level as nat) + " "@,
                    style: InlineStyle::HeadingMarker,
                },
            ],
            text,
            width,
            shape: ShapeView::Block(BlockStyle::Heading(level)),
        },
        BlockView::Quote(text) => JobView::Inline {
            head: seq![],
            text,
            width: width_behind(width as nat, 2),
            shape: ShapeView::Block(BlockStyle::Quote),
        },
        BlockView::ListItem { marker, text } => JobView::Inline {
            head: seq![],
            text,
            width: width_behind(width as nat, column_width(marker)),
            shape: ShapeView::Item(marker),
        },
        BlockView::CodeLine { text, diff, lang } => JobView::Code {
            lines: seq![(text, diff)],
            lang,
            width,
        },
    }
}

/// How many blocks at the start are code of a language.
pub open spec fn code_run(blocks: Seq<BlockView>, lang: Seq<char>) -> nat
    decreases blocks.len(),
{
    if blocks.len() == 0 {
        0
    } else {
        match blocks[0] {
            BlockView::CodeLine { lang: l, .. } => if l == lang {
                1 + code_run(blocks.drop_first(), lang)
            } else {
                0
            },
            _ => 0,
        }
    }
}

/// The code of some blocks.
pub open spec fn code_of(blocks: Seq<BlockView>) -> Seq<(Seq<char>, DiffKind)> {
    blocks.map_values(
        |b: BlockView|
            match b {
                BlockView::CodeLine { text, diff, .. } => (text, diff),
                _ => (seq![], DiffKind::Unmarked),
            },
    )
}

/// What is laid out of some blocks: code lines of one language together, so that
/// they are highlighted as a whole.
pub open spec fn jobs_of(blocks: Seq<BlockView>, width: usize) -> Seq<JobView>
    decreases blocks.len(),
{
    if blocks.len() == 0 {
        seq![]
    } else {
        match blocks[0] {
            BlockView::CodeLine { lang, .. } => {
                let n = 1 + code_run(blocks.drop_first(), lang) as int;
                if n > blocks.len() {
                    seq![]
                } else {
                    seq![
                        JobView::Code { lines: code_of(blocks.take(n)), lang, width },
                    ] + jobs_of(blocks.skip(n), width)
                }
            },
            other => seq![job_of(other, width)] + jobs_of(blocks.drop_first(), width),
        }
    }
}

proof fn lemma_code_run(blocks: Seq<BlockView>, lang: Seq<char>)
    ensures
        code_run(blocks, lang) <= blocks.len(),
        forall|k: int|
            0 <= k < code_run(blocks, lang) ==> (#[trigger] blocks[k]) is CodeLine
                && blocks[k]->CodeLine_lang == lang,
    decreases blocks.len(),
{
    if blocks.len() > 0 && (blocks[0] matches BlockView::CodeLine { lang: l, .. } && l == lang) {
        let rest = blocks.drop_first();
        lemma_code_run(rest, lang);
        assert forall|k: int| 0 <= k < code_run(blocks, lang) implies (#[trigger] blocks[k])
            is CodeLine && blocks[k]->CodeLine_lang == lang by {
            if k > 0 {
                assert(rest[k - 1] == blocks[k]);
            }
        }
    }
}

fn inline_job(text: &str, width: usize, block: BlockStyle) -> (r: LayoutJob)
    ensures
        r@ == (JobView::Inline {
            head: seq![],
            text: text@,
            width,
            shape: ShapeView::Block(block),
        }),
{
    let head: Vec<InlineSpan> = Vec::new();
    assert(span_views(head@) =~= seq![]);
    LayoutJob::Inline { head, text: text.to_owned(), width, shape: Shape::Block(block) }
}

fn job_of_block(block: &MdBlock, width: usize) -> (r: LayoutJob)
    ensures
        r@ == job_of(block@, width),
{
    match block {
        MdBlock::Blank => LayoutJob::Ready(DisplayLine::Blank),
        MdBlock::Hr => {
            let mut segments: Vec<InlineSpan> = Vec::new();
            segments.push(
                InlineSpan { text: repeat_char('─', width), style: InlineStyle::Plain },
            );
            assert(span_views(segments@) =~= seq![plain_span(repeated('─', width as nat))]);
            LayoutJob::Ready(
                DisplayLine::Text { segments, role: Role::Assistant, block: BlockStyle::Hr },
            )
        },
        MdBlock::Paragraph(text) => inline_job(text.as_str(), width, BlockStyle::Normal),
        MdBlock::Heading { level, text } => {
            let mut marker = repeat_char('#', *level as usize);
            marker.append(" ");
            let mut head: Vec<InlineSpan> = Vec::new();
            head.push(InlineSpan { text: marker, style: InlineStyle::HeadingMarker });
            assert(span_views(head@) =~= seq![
                SpanView {
                    text: repeated('#', *level as nat) + " "@,
                    style: InlineStyle::HeadingMarker,
                },
            ]);
            LayoutJob::Inline {
                head,
                text: text.clone(),
                width,
                shape: Shape::Block(BlockStyle::Heading(*level)),
            }
        },
        MdBlock::Quote(text) => inline_job(
            text.as_str(),
            remaining_width(width, 2),
            BlockStyle::Quote,
        ),
        MdBlock::ListItem { marker, text } => {
            let taken: usize = text_width(marker.as_str());
            let head: Vec<InlineSpan> = Vec::new();
            assert(span_views(head@) =~= seq![]);
            LayoutJob::Inline {
                head,
                text: text.clone(),
                width: remaining_width(width, taken),
                shape: Shape::Item(marker.clone()),
            }
        },
        MdBlock::CodeLine { text, diff, lang } => {
            let mut lines: Vec<CodeText> = Vec::new();
            lines.push(CodeText { text: text.clone(), diff: *diff });
            assert(code_views(lines@) =~= seq![(text@, *diff)]);
            LayoutJob::Code { lines, lang: lang.clone(), width }
        },
    }
}

/// What is to be laid out of AI markdown content. Each parsed block becomes one
/// or more lines (wrapping applied per block; list items carry their
/// bullet/number on the first wrapped line only).
pub fn markdown_jobs(blocks: &Vec<MdBlock>, width: usize) -> (r: Vec<LayoutJob>)
    ensures
        job_views(r@) == jobs_of(block_views(blocks@), width),
{
    let ghost all = block_views(blocks@);
    let ghost target = jobs_of(all, width);
    let mut out: Vec<LayoutJob> = Vec::new();
    let mut i: usize = 0;
    assert(all.skip(0) =~= all);
    assert(job_views(out@) + jobs_of(all, width) =~= jobs_of(all, width));
    while i < blocks.len()
        invariant
            i <= blocks.len(),
            all == block_views(blocks@),
            target == job_views(out@) + jobs_of(all.skip(i as int), width),
        decreases blocks.len() - i,
    {
        let ghost from = all.skip(i as int);
        let ghost before = job_views(out@);
        assert(from[0] == blocks@[i as int]@);
        assert(from.drop_first() =~= all.skip(i + 1));
        match &blocks[i] {
            MdBlock::CodeLine { lang, .. } => {
                let ghost run = code_run(from.drop_first(), lang@);
                proof {
                    lemma_code_run(from.drop_first(), lang@);
                }
                let start: usize = i;
                let mut lines: Vec<CodeText> = Vec::new();
                let mut more = true;
                proof {
                    assert(from == all.skip(start as int));
                    assert(code_run(from, lang@) == 1 + run);
                    assert(code_views(lines@) =~= code_of(from.take(0)));
                }
                while i < blocks.len() && more
                    invariant
                        start <= i <= blocks.len(),
                        all == block_views(blocks@),
                        from == all.skip(start as int),
                        0 <= i - start,
                        code_run(from, lang@) == (i - start) + code_run(
                            all.skip(i as int),
                            lang@,
                        ),
                        !more ==> code_run(all.skip(i as int), lang@) == 0,
                        code_views(lines@) == code_of(from.take(i - start)),
                    decreases blocks.len() - i, (if more { 1int } else { 0int }),
                {
                    let ghost here = all.skip(i as int);
                    assert(here[0] == blocks@[i as int]@);
                    assert(here.drop_first() =~= all.skip(i + 1));
                    match &blocks[i] {
                        MdBlock::CodeLine { text, diff, lang: l } => {
                            if same(l.as_str(), lang.as_str()) {
                                let ghost so_far = code_views(lines@);
                                lines.push(CodeText { text: text.clone(), diff: *diff });
                                proof {
                                    let n = i - start;
                                    assert(from[n] == here[0]);
                                    assert(from.take(n + 1) =~= from.take(n).push(here[0]));
                                    assert(code_views(lines@) =~= so_far.push((text@, *diff)));
                                    assert(code_of(from.take(n + 1)) =~= code_of(
                                        from.take(n),
                                    ).push((text@, *diff)));
                                }
                                i += 1;
                            } else {
                                more = false;
                            }
                        },
                        _ => {
                            more = false;
                        },
                    }
                }
                proof {
                    if i >= blocks.len() {
                        assert(all.skip(i as int).len() == 0);
                    }
                    assert(i - start == 1 + run);
                    assert(from.skip(i - start) =~= all.skip(i as int));
                }
                let job = LayoutJob::Code { lines, lang: lang.clone(), width };
                out.push(job);
                proof {
                    assert(job_views(out@) =~= before.push(job@));
                    assert(jobs_of(from, width) =~= seq![job@] + jobs_of(
                        all.skip(i as int),
                        width,
                    ));
                    assert(before + (seq![job@] + jobs_of(all.skip(i as int), width))
                        =~= before.push(job@) + jobs_of(all.skip(i as int), width));
                }
            },
            _ => {
                let job = job_of_block(&blocks[i], width);
                out.push(job);
                proof {
                    assert(job_views(out@) =~= before.push(job@));
                    assert(before + (seq![job@] + jobs_of(all.skip(i + 1), width)) =~= before.push(
                        job@,
                    ) + jobs_of(all.skip(i + 1), width));
                }
                i += 1;
            },
        }
    }
    proof {
        assert(jobs_of(all.skip(i as int), width) =~= seq![]);
        assert(job_views(out@) =~= target);
    }
    out
}

/// The line of a row of a block.
pub open spec fn placed_row(row: Seq<SpanView>, index: int, shape: ShapeView) -> ShownView {
    match shape {
        ShapeView::Block(block) => ShownView::Text {
            segments: row,
            role: Role::Assistant,
            block,
        },
        ShapeView::Item(marker) => if index == 0 {
            ShownView::Text {
                segments: seq![plain_span(marker)] + row,
                role: Role::Assistant,
                block: BlockStyle::ListItem,
            }
        } else {
            ShownView::Text {
                segments: row,
                role: Role::Assistant,
                block: BlockStyle::ListContinuation,
            }
        },
    }
}

pub open spec fn placed_rows(rows: Seq<Seq<SpanView>>, shape: ShapeView) -> Seq<ShownView> {
    Seq::new(rows.len(), |i: int| placed_row(rows[i], i, shape))
}

/// The lines of a block, from the rows it was wrapped in.
pub fn place_inline(rows: &Vec<Vec<InlineSpan>>, shape: &Shape) -> (r: Vec<DisplayLine>)
    ensures
        shown_views(r@) == placed_rows(rows_of(rows@), shape@),
{
    let ghost all = rows_of(rows@);
    let mut out: Vec<DisplayLine> = Vec::new();
    let mut i: usize = 0;
    while i < rows.len()
        invariant
            i <= rows.len(),
            all == rows_of(rows@),
            out.len() == i,
            forall|k: int| 0 <= k < i ==> (#[trigger] out@[k])@ == placed_row(all[k], k, shape@),
        decreases rows.len() - i,
    {
        assert(all[i as int] == span_views(rows@[i as int]@));
        let row = copy_spans(&rows[i]);
        let line = match shape {
            Shape::Block(block) => DisplayLine::Text {
                segments: row,
                role: Role::Assistant,
                block: *block,
            },
            Shape::Item(marker) => {
                if i == 0 {
                    let mut segments: Vec<InlineSpan> = Vec::new();
                    segments.push(InlineSpan { text: marker.clone(), style: InlineStyle::Plain });
                    let mut rest = row;
                    segments.append(&mut rest);
                    assert(span_views(segments@) =~= seq![plain_span(marker@)] + all[0]);
                    DisplayLine::Text {
                        segments,
                        role: Role::Assistant,
                        block: BlockStyle::ListItem,
                    }
                } else {
                    DisplayLine::Text {
                        segments: row,
                        role: Role::Assistant,
                        block: BlockStyle::ListContinuation,
                    }
                }
            },
        };
        out.push(line);
        i += 1;
    }
    assert(shown_views(out@) =~= placed_rows(all, shape@));
    out
}

pub open spec fn diff_style(diff: DiffKind) -> BlockStyle {
    match diff {
        DiffKind::Add => BlockStyle::DiffAdd,
        DiffKind::Remove => BlockStyle::DiffRemove,
        DiffKind::Hunk => BlockStyle::DiffHunk,
        DiffKind::Unmarked => BlockStyle::Code,
    }
}

/// A highlighted line of code, in the rows it was wrapped in.
#[derive(Debug)]
pub struct CodeRows {
    pub rows: Vec<Vec<InlineSpan>>,
    pub diff: DiffKind,
}

pub open spec fn code_rows(list: Seq<CodeRows>) -> Seq<(Seq<Seq<SpanView>>, DiffKind)> {
    list.map_values(|c: CodeRows| (rows_of(c.rows@), c.diff))
}

/// The lines of some code.
pub open spec fn placed_code(list: Seq<(Seq<Seq<SpanView>>, DiffKind)>) -> Seq<ShownView>
    decreases list.len(),
{
    if list.len() == 0 {
        seq![]
    } else {
        placed_code(list.drop_last()) + placed_rows(
            list.last().0,
            ShapeView::Block(diff_style(list.last().1)),
        )
    }
}

/// The lines of some code, from its highlighted and wrapped lines.
pub fn place_code(list: &Vec<CodeRows>) -> (r: Vec<DisplayLine>)
    ensures
        shown_views(r@) == placed_code(code_rows(list@)),
{
    let ghost all = code_rows(list@);
    let mut out: Vec<DisplayLine> = Vec::new();
    let mut i: usize = 0;
    assert(all.take(0) =~= seq![]);
    assert(shown_views(out@) =~= seq![]);
    while i < list.len()
        invariant
            i <= list.len(),
            all == code_rows(list@),
            shown_views(out@) == placed_code(all.take(i as int)),
        decreases list.len() - i,
    {
        assert(all.take(i + 1).drop_last() =~= all.take(i as int));
        assert(all.take(i + 1).last() == (rows_of(list@[i as int].rows@), list@[i as int].diff));
        let style = match list[i].diff {
            DiffKind::Add => BlockStyle::DiffAdd,
            DiffKind::Remove => BlockStyle::DiffRemove,
            DiffKind::Hunk => BlockStyle::DiffHunk,
            DiffKind::Unmarked => BlockStyle::Code,
        };
        let lines = place_inline(&list[i].rows, &Shape::Block(style));
        add_lines(&mut out, &lines);
        i += 1;
    }
    assert(all.take(i as int) =~= all);
    out
}

// ---------------------------------------------------------------------------
// The whole conversation
// ---------------------------------------------------------------------------

/// A piece of the display.
#[derive(Debug)]
pub enum PlanItem {
    Line(DisplayLine),
    Reasoning(String),
    UserText(String),
    /// Markdown of the assistant. What is finished is laid out once and kept.
    Markdown { content: String, keep: bool },
}

pub enum PlanView {
    Line(ShownView),
    Reasoning(Seq<char>),
    UserText(Seq<char>),
    Markdown { content: Seq<char>, keep: bool },
}

impl View for PlanItem {
    type V = PlanView;

    open spec fn view(&self) -> PlanView {
        match *self {
            PlanItem::Line(line) => PlanView::Line(line@),
            PlanItem::Reasoning(text) => PlanView::Reasoning(text@),
            PlanItem::UserText(text) => PlanView::UserText(text@),
            PlanItem::Markdown { content, keep } => PlanView::Markdown { content: content@, keep },
        }
    }
}

pub open spec fn plan_views(list: Seq<PlanItem>) -> Seq<PlanView> {
    list.map_values(|p: PlanItem| p@)
}

pub open spec fn or_empty(o: Option<Seq<char>>) -> Seq<char> {
    match o {
        Some(s) => s,
        None => seq![],
    }
}

pub open spec fn tool_ref(m: MessageView) -> ToolRefView {
    ToolRefView {
        name: or_empty(m.tool_name),
        args: or_empty(m.tool_args),
        result: m.content,
        complete: m.complete,
        failed: m.tool_failed,
    }
}

pub open spec fn labels_of(list: Seq<AttachmentView>) -> Seq<Seq<char>> {
    list.map_values(|a: AttachmentView| a.label)
}

pub open spec fn header(role: Role, tools: Seq<ToolRefView>) -> PlanView {
    PlanView::Line(ShownView::Header { role, tools })
}

/// The head of a message: its attachments, who speaks, which tools ran before,
/// and how much was thought.
pub open spec fn head_items(m: MessageView, tools: Seq<ToolRefView>, thinking: bool) -> Seq<
    PlanView,
> {
    let flushed: Seq<PlanView> = if m.role == Role::User && tools.len() > 0 {
        seq![header(Role::Assistant, tools)]
    } else {
        seq![]
    };
    let attached = if m.role == Role::User && m.attachments.len() > 0 {
        flushed.push(
            PlanView::Line(ShownView::AttachmentSummary { labels: labels_of(m.attachments) }),
        )
    } else {
        flushed
    };
    let headed = attached.push(
        header(
            m.role,
            if m.role == Role::Assistant {
                tools
            } else {
                seq![]
            },
        ),
    );
    if m.role == Role::Assistant && m.reasoning_content.len() > 0 {
        let told = headed.push(
            PlanView::Line(
                ShownView::ThinkingHeader {
                    char_count: m.reasoning_content.len(),
                    expanded: thinking,
                },
            ),
        );
        if thinking {
            told.push(PlanView::Reasoning(m.reasoning_content))
        } else {
            told
        }
    } else {
        headed
    }
}

/// The body of a message.
pub open spec fn body_items(m: MessageView) -> Seq<PlanView> {
    if m.role == Role::Assistant && m.content.len() == 0 && !m.complete {
        if m.reasoning_content.len() == 0 {
            seq![PlanView::Line(ShownView::LoadingDot)]
        } else {
            seq![]
        }
    } else {
        seq![
            match m.role {
                Role::User => PlanView::UserText(m.content),
                Role::Assistant => PlanView::Markdown {
                    content: m.content,
                    keep: m.complete && m.content.len() > 0,
                },
            },
            PlanView::Line(ShownView::Blank),
        ]
    }
}

/// The pieces of some messages, and the tool calls that wait for the answer they
/// belong to.
pub open spec fn planned(list: Seq<MessageView>, thinking: bool) -> (
    Seq<PlanView>,
    Seq<ToolRefView>,
)
    decreases list.len(),
{
    if list.len() == 0 {
        (seq![], seq![])
    } else {
        let (items, tools) = planned(list.drop_last(), thinking);
        let m = list.last();
        if m.is_tool() {
            (items, tools.push(tool_ref(m)))
        } else {
            (items + head_items(m, tools, thinking) + body_items(m), seq![])
        }
    }
}

/// The pieces of the whole display. Tools still running with no AI text yet get
/// a header row of their own.
pub open spec fn display_plan(list: Seq<MessageView>, thinking: bool) -> Seq<PlanView> {
    let (items, tools) = planned(list, thinking);
    if tools.len() > 0 {
        items.push(header(Role::Assistant, tools))
    } else {
        items
    }
}

fn add_item(list: &mut Vec<PlanItem>, item: PlanItem)
    ensures
        plan_views(final(list)@) == plan_views(old(list)@).push(item@),
{
    list.push(item);
    assert(plan_views(list@) =~= plan_views(old(list)@).push(item@));
}

fn no_tools() -> (r: Vec<ToolRef>)
    ensures
        tool_ref_views(r@) == Seq::<ToolRefView>::empty(),
{
    let r: Vec<ToolRef> = Vec::new();
    assert(tool_ref_views(r@) =~= Seq::<ToolRefView>::empty());
    r
}

fn attachment_labels(list: &Vec<MessageAttachment>) -> (r: Vec<String>)
    ensures
        views(r@) == labels_of(attachment_views(list@)),
{
    let ghost all = attachment_views(list@);
    let mut out: Vec<String> = Vec::new();
    let mut i: usize = 0;
    while i < list.len()
        invariant
            i <= list.len(),
            all == attachment_views(list@),
            out.len() == i,
            forall|k: int| 0 <= k < i ==> (#[trigger] out@[k])@ == all[k].label,
        decreases list.len() - i,
    {
        assert(all[i as int] == list@[i as int]@);
        out.push(list[i].label.clone());
        i += 1;
    }
    assert(views(out@) =~= labels_of(all));
    out
}

/// Adds the head of a message.
fn add_head(out: &mut Vec<PlanItem>, m: &Message, tools: Vec<ToolRef>, thinking: bool)
    ensures
        plan_views(final(out)@) == plan_views(old(out)@) + head_items(
            m@,
            tool_ref_views(tools@),
            thinking,
        ),
{
    let ghost before = plan_views(out@);
    let ghost waiting = tool_ref_views(tools@);
    assert(waiting.len() == tools@.len());
    assert(attachment_views(m.attachments@).len() == m.attachments@.len());
    if m.role == Role::User {
        if tools.len() > 0 {
            add_item(out, PlanItem::Line(DisplayLine::Header { role: Role::Assistant, tools }));
        }
        if m.attachments.len() > 0 {
            let labels = attachment_labels(&m.attachments);
            add_item(out, PlanItem::Line(DisplayLine::AttachmentSummary { labels }));
        }
        add_item(
            out,
            PlanItem::Line(DisplayLine::Header { role: Role::User, tools: no_tools() }),
        );
    } else {
        add_item(out, PlanItem::Line(DisplayLine::Header { role: Role::Assistant, tools }));
        if !m.reasoning_content.as_str().is_empty() {
            let char_count: usize = m.reasoning_content.as_str().unicode_len();
            add_item(
                out,
                PlanItem::Line(DisplayLine::ThinkingHeader { char_count, expanded: thinking }),
            );
            if thinking {
                add_item(out, PlanItem::Reasoning(m.reasoning_content.clone()));
            }
        }
    }
    assert(plan_views(out@) =~= before + head_items(m@, waiting, thinking));
}

/// Adds the body of a message.
fn add_body(out: &mut Vec<PlanItem>, m: &Message)
    ensures
        plan_views(final(out)@) == plan_views(old(out)@) + body_items(m@),
{
    let ghost before = plan_views(out@);
    if m.role == Role::Assistant && m.content.as_str().is_empty() && !m.complete {
        if m.reasoning_content.as_str().is_empty() {
            add_item(out, PlanItem::Line(DisplayLine::LoadingDot));
        }
    } else {
        if m.role == Role::User {
            add_item(out, PlanItem::UserText(m.content.clone()));
        } else {
            let keep = m.complete && !m.content.as_str().is_empty();
            add_item(out, PlanItem::Markdown { content: m.content.clone(), keep });
        }
        add_item(out, PlanItem::Line(DisplayLine::Blank));
    }
    assert(plan_views(out@) =~= before + body_items(m@));
}

fn or_empty_string(o: &Option<String>) -> (r: String)
    ensures
        r@ == or_empty(opt_view(*o)),
{
    match o {
        Some(s) => s.clone(),
        None => {
            let r = String::new();
            assert(r@ =~= seq![]);
            r
        },
    }
}

/// The pieces of the display of a conversation. Tool calls are gathered until
/// the owning AI text arrives, and embedded in its header row rather than
/// rendered as separate lines.
pub fn plan_display(messages: &Vec<Message>, show_thinking: bool) -> (r: Vec<PlanItem>)
    ensures
        plan_views(r@) == display_plan(conversation(messages@), show_thinking),
{
    let ghost all = conversation(messages@);
    let mut out: Vec<PlanItem> = Vec::new();
    let mut tools = no_tools();
    let mut i: usize = 0;
    assert(all.take(0) =~= seq![]);
    assert(plan_views(out@) =~= seq![]);
    while i < messages.len()
        invariant
            i <= messages.len(),
            all == conversation(messages@),
            (plan_views(out@), tool_ref_views(tools@)) == planned(
                all.take(i as int),
                show_thinking,
            ),
        decreases messages.len() - i,
    {
        assert(all.take(i + 1).drop_last() =~= all.take(i as int));
        assert(all.take(i + 1).last() == messages@[i as int]@);
        let m = &messages[i];
        if m.is_tool() {
            let ghost before = tool_ref_views(tools@);
            let one = ToolRef {
                name: or_empty_string(&m.tool_name),
                args: or_empty_string(&m.tool_args),
                result: m.content.clone(),
                complete: m.complete,
                failed: m.tool_failed,
            };
            tools.push(one);
            assert(tool_ref_views(tools@) =~= before.push(tool_ref(m@)));
        } else {
            add_head(&mut out, m, tools, show_thinking);
            tools = no_tools();
            add_body(&mut out, m);
        }
        i += 1;
    }
    assert(all.take(i as int) =~= all);
    assert(tool_ref_views(tools@).len() == tools@.len());
    if tools.len() > 0 {
        add_item(&mut out, PlanItem::Line(DisplayLine::Header { role: Role::Assistant, tools }));
    }
    out
}

/// The lines of a display, from its pieces and what each was laid out in.
pub open spec fn assembled(plan: Seq<PlanView>, laid: Seq<Seq<ShownView>>) -> Seq<ShownView>
    decreases plan.len(),
{
    if plan.len() == 0 || laid.len() < plan.len() {
        seq![]
    } else {
        let at = plan.len() - 1;
        assembled(plan.drop_last(), laid) + (match plan[at] {
            PlanView::Line(line) => seq![line],
            _ => laid[at],
        })
    }
}

/// A finished piece of markdown, laid out.
#[derive(Debug)]
pub struct MemoEntry {
    pub content: String,
    pub width: usize,
    pub is_light: bool,
    pub lines: Vec<DisplayLine>,
}

/// Rendered lines of completed assistant messages. While a reply streams, the
/// display is rebuilt every drain tick; without this memo, every rebuild
/// re-parses the markdown and re-runs syntax highlighting for the whole
/// conversation history, so streaming cost grows with conversation size.
/// Entries not referenced by a rebuild are dropped by that rebuild.
#[derive(Debug)]
pub struct RenderMemo {
    pub entries: Vec<MemoEntry>,
}

pub struct EntryView {
    pub content: Seq<char>,
    pub width: usize,
    pub is_light: bool,
    pub lines: Seq<ShownView>,
}

impl View for MemoEntry {
    type V = EntryView;

    open spec fn view(&self) -> EntryView {
        EntryView {
            content: self.content@,
            width: self.width,
            is_light: self.is_light,
            lines: shown_views(self.lines@),
        }
    }
}

pub open spec fn entry_views(list: Seq<MemoEntry>) -> Seq<EntryView> {
    list.map_values(|e: MemoEntry| e@)
}

/// Whether an entry is of a piece of markdown. Width and theme count because
/// both change the wrapped/styled output.
pub open spec fn entry_is_of(e: EntryView, content: Seq<char>, width: usize, is_light: bool) -> bool {
    e.content == content && e.width == width && e.is_light == is_light
}

/// The entries for the next rebuild: those of the pieces of this one.
pub open spec fn kept_entries(
    plan: Seq<PlanView>,
    laid: Seq<Seq<ShownView>>,
    width: usize,
    is_light: bool,
) -> Seq<EntryView>
    decreases plan.len(),
{
    if plan.len() == 0 || laid.len() < plan.len() {
        seq![]
    } else {
        let at = plan.len() - 1;
        let before = kept_entries(plan.drop_last(), laid, width, is_light);
        match plan[at] {
            PlanView::Markdown { content, keep } => if keep {
                before.push(EntryView { content, width, is_light, lines: laid[at] })
            } else {
                before
            },
            _ => before,
        }
    }
}

/// The lines that a finished piece was laid out in, where an entry has them.
pub open spec fn remembered(
    entries: Seq<EntryView>,
    content: Seq<char>,
    width: usize,
    is_light: bool,
) -> Option<Seq<ShownView>>
    decreases entries.len(),
{
    if entries.len() == 0 {
        None
    } else if entry_is_of(entries[0], content, width, is_light) {
        Some(entries[0].lines)
    } else {
        remembered(entries.drop_first(), content, width, is_light)
    }
}

/// The lines that the memo has for a piece, if any: it keeps finished markdown.
pub open spec fn recalled(
    entries: Seq<EntryView>,
    item: PlanView,
    width: usize,
    is_light: bool,
) -> Option<Seq<ShownView>> {
    match item {
        PlanView::Markdown { content, keep } => if keep {
            remembered(entries, content, width, is_light)
        } else {
            None
        },
        _ => None,
    }
}

/// Whether a piece has to be laid out: it is no ready line, and the memo does
/// not have it.
pub open spec fn to_lay_out(
    entries: Seq<EntryView>,
    item: PlanView,
    width: usize,
    is_light: bool,
) -> bool {
    !(item is Line) && recalled(entries, item, width, is_light) is None
}

/// What each piece is shown in: what the memo has for it, else what it was laid
/// out in now.
pub open spec fn chosen_lines(
    entries: Seq<EntryView>,
    plan: Seq<PlanView>,
    laid: Seq<Seq<ShownView>>,
    width: usize,
    is_light: bool,
) -> Seq<Seq<ShownView>> {
    Seq::new(
        plan.len(),
        |i: int|
            match recalled(entries, plan[i], width, is_light) {
                Some(lines) => lines,
                None => laid[i],
            },
    )
}

pub open spec fn lines_views(list: Seq<Vec<DisplayLine>>) -> Seq<Seq<ShownView>> {
    list.map_values(|lines: Vec<DisplayLine>| shown_views(lines@))
}

pub open spec fn opt_lines(o: Option<Vec<DisplayLine>>) -> Option<Seq<ShownView>> {
    match o {
        Some(lines) => Some(shown_views(lines@)),
        None => None,
    }
}

fn copy_lines(list: &Vec<DisplayLine>) -> (r: Vec<DisplayLine>)
    ensures
        shown_views(r@) == shown_views(list@),
{
    let mut out: Vec<DisplayLine> = Vec::new();
    add_lines(&mut out, list);
    assert(shown_views(out@) =~= shown_views(list@));
    out
}

impl RenderMemo {
    pub fn new() -> (r: RenderMemo)
        ensures
            entry_views(r.entries@) == Seq::<EntryView>::empty(),
    {
        let r = RenderMemo { entries: Vec::new() };
        assert(entry_views(r.entries@) =~= Seq::<EntryView>::empty());
        r
    }

    /// The lines that a finished piece was laid out in last time, if it was.
    pub fn recall(&self, content: &str, width: usize, is_light: bool) -> (r: Option<
        Vec<DisplayLine>,
    >)
        ensures
            opt_lines(r) == remembered(entry_views(self.entries@), content@, width, is_light),
    {
        let ghost all = entry_views(self.entries@);
        let mut i: usize = 0;
        assert(all.skip(0) =~= all);
        while i < self.entries.len()
            invariant
                i <= self.entries.len(),
                all == entry_views(self.entries@),
                remembered(all, content@, width, is_light) == remembered(
                    all.skip(i as int),
                    content@,
                    width,
                    is_light,
                ),
            decreases self.entries.len() - i,
        {
            let e = &self.entries[i];
            assert(all.skip(i as int)[0] == e@);
            assert(all.skip(i as int).drop_first() =~= all.skip(i + 1));
            if e.width == width && e.is_light == is_light && same(e.content.as_str(), content) {
                return Some(copy_lines(&e.lines));
            }
            i += 1;
        }
        None
    }
}

/// The lines of a conversation, with what is kept of them.
#[derive(Debug)]
pub struct Display {
    pub lines: Vec<DisplayLine>,
    pub memo: RenderMemo,
}

impl Display {
    pub fn new() -> (r: Display)
        ensures
            r.lines.len() == 0,
            entry_views(r.memo.entries@) == Seq::<EntryView>::empty(),
    {
        Display { lines: Vec::new(), memo: RenderMemo::new() }
    }

    /// The pieces to lay out and their width, where the display is out of date.
    pub fn plan_rebuild(&self, app: &App) -> (r: Option<(usize, Vec<PlanItem>)>)
        ensures
            match r {
                None => !app.dirty,
                Some(p) => app.dirty && p.0 == (if app.cols < 8 {
                    MIN_CONTENT_WIDTH
                } else {
                    (app.cols - 4) as usize
                }) && plan_views(p.1@) == display_plan(
                    conversation(app.stream.messages@),
                    app.show_thinking,
                ),
            },
    {
        if !app.dirty {
            return None;
        }
        let content: usize = app.content_width();
        let width: usize = if content < MIN_CONTENT_WIDTH {
            MIN_CONTENT_WIDTH
        } else {
            content
        };
        Some((width, plan_display(&app.stream.messages, app.show_thinking)))
    }

    /// Whether a piece has to be laid out for the next rebuild.
    pub fn needs_layout(&self, item: &PlanItem, width: usize, is_light: bool) -> (r: bool)
        ensures
            r == to_lay_out(entry_views(self.memo.entries@), item@, width, is_light),
    {
        match item {
            PlanItem::Line(_) => false,
            _ => self.recall_piece(item, width, is_light).is_none(),
        }
    }

    fn recall_piece(&self, item: &PlanItem, width: usize, is_light: bool) -> (r: Option<
        Vec<DisplayLine>,
    >)
        ensures
            opt_lines(r) == recalled(entry_views(self.memo.entries@), item@, width, is_light),
    {
        match item {
            PlanItem::Markdown { content, keep } => if *keep {
                self.memo.recall(content.as_str(), width, is_light)
            } else {
                None
            },
            _ => None,
        }
    }

    /// Rebuilds the lines, where they are out of date, from the pieces and what
    /// those were laid out in that have to be. Only entries referenced by this
    /// rebuild are carried over, so the memo never outgrows the current
    /// conversation.
    pub fn rebuild_display_cache(
        &mut self,
        app: &mut App,
        plan: &Vec<PlanItem>,
        laid: &Vec<Vec<DisplayLine>>,
        width: usize,
        is_light: bool,
    )
        requires
            laid.len() == plan.len(),
        ensures
            !old(app).dirty ==> *final(self) == *old(self),
            old(app).dirty ==> ({
                let rows = chosen_lines(
                    entry_views(old(self).memo.entries@),
                    plan_views(plan@),
                    lines_views(laid@),
                    width,
                    is_light,
                );
                &&& shown_views(final(self).lines@) == assembled(plan_views(plan@), rows)
                &&& entry_views(final(self).memo.entries@) == kept_entries(
                    plan_views(plan@),
                    rows,
                    width,
                    is_light,
                )
            }),
            *final(app) == (App { dirty: false, ..*old(app) }),
    {
        if !app.dirty {
            return;
        }
        let ghost items = plan_views(plan@);
        let ghost prior = entry_views(self.memo.entries@);
        let ghost rows = chosen_lines(prior, items, lines_views(laid@), width, is_light);
        let mut lines: Vec<DisplayLine> = Vec::new();
        let mut entries: Vec<MemoEntry> = Vec::new();
        let mut i: usize = 0;
        assert(shown_views(lines@) =~= seq![]);
        assert(entry_views(entries@) =~= seq![]);
        assert(items.take(0) =~= seq![]);
        while i < plan.len()
            invariant
                i <= plan.len() == laid.len(),
                items == plan_views(plan@),
                prior == entry_views(self.memo.entries@),
                rows == chosen_lines(prior, items, lines_views(laid@), width, is_light),
                shown_views(lines@) == assembled(items.take(i as int), rows),
                entry_views(entries@) == kept_entries(items.take(i as int), rows, width, is_light),
            decreases plan.len() - i,
        {
            assert(items.take(i + 1).drop_last() =~= items.take(i as int));
            assert(items.take(i + 1).last() == plan@[i as int]@);
            assert(lines_views(laid@)[i as int] == shown_views(laid@[i as int]@));
            match &plan[i] {
                PlanItem::Line(line) => {
                    let ghost before = shown_views(lines@);
                    add_line(&mut lines, line.duplicate());
                    assert(shown_views(lines@) =~= before + seq![line@]);
                },
                PlanItem::Markdown { content, keep } => {
                    let segment = match self.recall_piece(&plan[i], width, is_light) {
                        Some(segment) => segment,
                        None => copy_lines(&laid[i]),
                    };
                    assert(shown_views(segment@) == rows[i as int]);
                    add_lines(&mut lines, &segment);
                    if *keep {
                        let ghost before = entry_views(entries@);
                        let entry = MemoEntry {
                            content: content.clone(),
                            width,
                            is_light,
                            lines: segment,
                        };
                        entries.push(entry);
                        assert(entry_views(entries@) =~= before.push(entry@));
                    }
                },
                _ => {
                    assert(rows[i as int] == shown_views(laid@[i as int]@));
                    add_lines(&mut lines, &laid[i]);
                },
            }
            i += 1;
        }
        assert(items.take(i as int) =~= items);
        self.lines = lines;
        self.memo = RenderMemo { entries };
        app.dirty = false;
    }
}

/// Whether the entries of a memo are what their pieces are laid out in.
pub open spec fn faithful(
    entries: Seq<EntryView>,
    layout: spec_fn(PlanView, usize, bool) -> Seq<ShownView>,
) -> bool {
    forall|k: int|
        0 <= k < entries.len() ==> (#[trigger] entries[k]).lines == layout(
            PlanView::Markdown { content: entries[k].content, keep: true },
            entries[k].width,
            entries[k].is_light,
        )
}

/// Every piece, laid out anew.
pub open spec fn laid_anew(
    plan: Seq<PlanView>,
    layout: spec_fn(PlanView, usize, bool) -> Seq<ShownView>,
    width: usize,
    is_light: bool,
) -> Seq<Seq<ShownView>> {
    plan.map_values(|item: PlanView| layout(item, width, is_light))
}

/// The display does not depend on the memo: as long as its entries are what
/// their pieces are laid out in, the lines are those that laying out every
/// piece anew gives, whether the memo is empty or was filled by earlier
/// rebuilds. The rebuild leaves such a memo behind.
pub proof fn display_does_not_depend_on_the_memo(
    entries: Seq<EntryView>,
    plan: Seq<PlanView>,
    laid: Seq<Seq<ShownView>>,
    width: usize,
    is_light: bool,
    layout: spec_fn(PlanView, usize, bool) -> Seq<ShownView>,
)
    requires
        faithful(entries, layout),
        laid.len() == plan.len(),
        forall|i: int|
            0 <= i < plan.len() && to_lay_out(entries, #[trigger] plan[i], width, is_light)
                ==> laid[i] == layout(plan[i], width, is_light),
    ensures
        assembled(plan, chosen_lines(entries, plan, laid, width, is_light)) == assembled(
            plan,
            laid_anew(plan, layout, width, is_light),
        ),
        faithful(
            kept_entries(
                plan,
                chosen_lines(entries, plan, laid, width, is_light),
                width,
                is_light,
            ),
            layout,
        ),
{
    let rows = chosen_lines(entries, plan, laid, width, is_light);
    let anew = laid_anew(plan, layout, width, is_light);
    assert forall|i: int| 0 <= i < plan.len() && !((#[trigger] plan[i]) is Line) implies rows[i]
        == anew[i] by {
        if let PlanView::Markdown { content, keep } = plan[i] {
            if keep && remembered(entries, content, width, is_light) is Some {
                let k = lemma_remembered(entries, content, width, is_light);
                assert(entries[k].lines == rows[i]);
            }
        }
        assert(to_lay_out(entries, plan[i], width, is_light) || recalled(
            entries,
            plan[i],
            width,
            is_light,
        ) is Some);
    }
    lemma_assembled_same(plan, rows, anew);
    let kept = kept_entries(plan, rows, width, is_light);
    assert forall|k: int| 0 <= k < kept.len() implies (#[trigger] kept[k]).lines == layout(
        PlanView::Markdown { content: kept[k].content, keep: true },
        kept[k].width,
        kept[k].is_light,
    ) by {
        lemma_kept_entry(plan, rows, width, is_light, k);
        let i = choose|i: int|
            #![trigger plan[i]]
            0 <= i < plan.len() && plan[i] == (PlanView::Markdown {
                content: kept[k].content,
                keep: true,
            }) && kept[k].lines == rows[i];
        assert(!(plan[i] is Line));
        assert(rows[i] == anew[i]);
    }
}

proof fn lemma_assembled_same(
    plan: Seq<PlanView>,
    a: Seq<Seq<ShownView>>,
    b: Seq<Seq<ShownView>>,
)
    requires
        a.len() >= plan.len(),
        b.len() >= plan.len(),
        forall|i: int| 0 <= i < plan.len() && !((#[trigger] plan[i]) is Line) ==> a[i] == b[i],
    ensures
        assembled(plan, a) == assembled(plan, b),
    decreases plan.len(),
{
    if plan.len() > 0 {
        let rest = plan.drop_last();
        assert forall|i: int| 0 <= i < rest.len() && !((#[trigger] rest[i]) is Line) implies a[i]
            == b[i] by {
            assert(rest[i] == plan[i]);
        }
        lemma_assembled_same(rest, a, b);
        assert(plan[plan.len() - 1] is Line || a[plan.len() - 1] == b[plan.len() - 1]);
    }
}

/// Whether a message is a finished answer with this text.
pub open spec fn is_finished_answer(m: MessageView, content: Seq<char>) -> bool {
    m.role == Role::Assistant && !m.is_tool() && m.complete && m.content == content
}

proof fn lemma_kept_markdown(list: Seq<MessageView>, thinking: bool, k: int, content: Seq<char>)
    requires
        0 <= k < planned(list, thinking).0.len(),
        planned(list, thinking).0[k] == (PlanView::Markdown { content, keep: true }),
    ensures
        exists|j: int| 0 <= j < list.len() && is_finished_answer(#[trigger] list[j], content),
    decreases list.len(),
{
    let rest = list.drop_last();
    let (items, tools) = planned(rest, thinking);
    let m = list.last();
    let all = planned(list, thinking).0;
    if k < items.len() {
        assert(all[k] == items[k]);
        lemma_kept_markdown(rest, thinking, k, content);
        let j = choose|j: int|
            0 <= j < rest.len() && is_finished_answer(#[trigger] rest[j], content);
        assert(is_finished_answer(list[j], content));
    } else {
        let head = head_items(m, tools, thinking);
        let body = body_items(m);
        if k < items.len() + head.len() {
            assert(all[k] == head[k - items.len()]);
        } else {
            assert(all[k] == body[k - items.len() - head.len()]);
        }
        assert(is_finished_answer(list[list.len() - 1], content));
    }
}

/// The memo holds finished answers of the current conversation and nothing
/// else.
pub proof fn memo_holds_finished_answers(
    list: Seq<MessageView>,
    thinking: bool,
    rows: Seq<Seq<ShownView>>,
    width: usize,
    is_light: bool,
    k: int,
)
    requires
        rows.len() == display_plan(list, thinking).len(),
        0 <= k < kept_entries(display_plan(list, thinking), rows, width, is_light).len(),
    ensures
        exists|j: int|
            0 <= j < list.len() && is_finished_answer(
                #[trigger] list[j],
                kept_entries(display_plan(list, thinking), rows, width, is_light)[k].content,
            ),
{
    let plan = display_plan(list, thinking);
    let e = kept_entries(plan, rows, width, is_light)[k];
    lemma_kept_entry(plan, rows, width, is_light, k);
    let i = choose|i: int|
        #![trigger plan[i]]
        0 <= i < plan.len() && plan[i] == (PlanView::Markdown { content: e.content, keep: true })
            && e.lines == rows[i];
    assert(plan[i] == planned(list, thinking).0[i]);
    lemma_kept_markdown(list, thinking, i, e.content);
}

/// What the memo hands back for a piece is what a piece of the same markdown
/// was laid out in.
pub proof fn memo_hands_back_what_was_laid_out(
    plan: Seq<PlanView>,
    laid: Seq<Seq<ShownView>>,
    width: usize,
    is_light: bool,
    content: Seq<char>,
    w: usize,
    light: bool,
)
    requires
        laid.len() == plan.len(),
        remembered(kept_entries(plan, laid, width, is_light), content, w, light) is Some,
    ensures
        w == width && light == is_light,
        exists|i: int|
            #![trigger plan[i]]
            0 <= i < plan.len() && plan[i] == (PlanView::Markdown { content, keep: true })
                && remembered(kept_entries(plan, laid, width, is_light), content, w, light) == Some(
                laid[i],
            ),
{
    let entries = kept_entries(plan, laid, width, is_light);
    let k = lemma_remembered(entries, content, w, light);
    lemma_kept_entry(plan, laid, width, is_light, k);
}

proof fn lemma_remembered(
    entries: Seq<EntryView>,
    content: Seq<char>,
    width: usize,
    is_light: bool,
) -> (k: int)
    requires
        remembered(entries, content, width, is_light) is Some,
    ensures
        0 <= k < entries.len(),
        entry_is_of(entries[k], content, width, is_light),
        remembered(entries, content, width, is_light) == Some(entries[k].lines),
    decreases entries.len(),
{
    if entry_is_of(entries[0], content, width, is_light) {
        0
    } else {
        let k = lemma_remembered(entries.drop_first(), content, width, is_light);
        assert(entries.drop_first()[k] == entries[k + 1]);
        k + 1
    }
}

proof fn lemma_kept_entry(
    plan: Seq<PlanView>,
    laid: Seq<Seq<ShownView>>,
    width: usize,
    is_light: bool,
    k: int,
)
    requires
        laid.len() >= plan.len(),
        0 <= k < kept_entries(plan, laid, width, is_light).len(),
    ensures
        ({
            let e = kept_entries(plan, laid, width, is_light)[k];
            &&& e.width == width && e.is_light == is_light
            &&& exists|i: int|
                #![trigger plan[i]]
                0 <= i < plan.len() && plan[i] == (PlanView::Markdown {
                    content: e.content,
                    keep: true,
                }) && e.lines == laid[i]
        }),
    decreases plan.len(),
{
    let at = plan.len() - 1;
    let before = kept_entries(plan.drop_last(), laid, width, is_light);
    let e = kept_entries(plan, laid, width, is_light)[k];
    if k < before.len() {
        lemma_kept_entry(plan.drop_last(), laid, width, is_light, k);
        let i = choose|i: int|
            #![trigger plan.drop_last()[i]]
            0 <= i < plan.drop_last().len() && plan.drop_last()[i] == (PlanView::Markdown {
                content: e.content,
                keep: true,
            }) && e.lines == laid[i];
        assert(plan[i] == plan.drop_last()[i]);
    } else {
        assert(plan[at] == (PlanView::Markdown { content: e.content, keep: true }));
    }
}

/// A user's header row never carries tool calls.
pub proof fn user_headers_carry_no_tools(list: Seq<MessageView>, thinking: bool, i: int)
    requires
        0 <= i < display_plan(list, thinking).len(),
    ensures
        display_plan(list, thinking)[i] matches PlanView::Line(ShownView::Header {
            role: Role::User,
            tools,
        }) ==> tools.len() == 0,
{
    lemma_user_headers(list, thinking);
}

pub open spec fn is_proper_header(item: PlanView) -> bool {
    item matches PlanView::Line(ShownView::Header { role: Role::User, tools }) ==> tools.len() == 0
}

proof fn lemma_user_headers(list: Seq<MessageView>, thinking: bool)
    ensures
        forall|k: int|
            0 <= k < planned(list, thinking).0.len() ==> is_proper_header(
                #[trigger] planned(list, thinking).0[k],
            ),
    decreases list.len(),
{
    if list.len() > 0 {
        lemma_user_headers(list.drop_last(), thinking);
        let (items, tools) = planned(list.drop_last(), thinking);
        let m = list.last();
        if !m.is_tool() {
            let head = head_items(m, tools, thinking);
            let body = body_items(m);
            let all = planned(list, thinking).0;
            assert forall|k: int| 0 <= k < all.len() implies is_proper_header(#[trigger] all[k]) by {
                if k < items.len() {
                    assert(all[k] == items[k]);
                } else if k < items.len() + head.len() {
                    assert(all[k] == head[k - items.len()]);
                } else {
                    assert(all[k] == body[k - items.len() - head.len()]);
                }
            }
        }
    }
}

} // verus!
