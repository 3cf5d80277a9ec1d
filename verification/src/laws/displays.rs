//! What the chat shows of a conversation, and how quads are buffered.
use crate::chat_display::{
    BlockStyle, BlockView, DiffKind, EntryView, InlineStyle, JobView, PlanView, ShapeView,
    ShownView, SpanView, ToolRefView, assembled, body_items, code_of, code_run, diff_style, display_plan, head_items,
    job_of, jobs_of, labels_of, placed_rows, plain_row, planned, remembered, to_lay_out, tool_ref,
};
use crate::chat_stream::{MessageView, Role};
use crate::renderstate::{
    TripleVertexBuffer, all_glsl_versions, filled, grown_buffer, overwritten, quad_at, quad_indices,
    version_order, versions_after,
};
use crate::text::trimmed;
use vstd::prelude::*;
use vstd::string::*;

verus! {

// ---------------------------------------------------------------------------
// The conversation
// ---------------------------------------------------------------------------

/// The piece that shows the words of a message.
pub open spec fn words_of_message(m: MessageView) -> PlanView {
    match m.role {
        Role::User => PlanView::UserText(m.content),
        Role::Assistant => PlanView::Markdown {
            content: m.content,
            keep: m.complete && m.content.len() > 0,
        },
    }
}

proof fn lemma_body(list: Seq<MessageView>, thinking: bool, i: int)
    requires
        0 <= i < list.len(),
        list[i].tool_name is None,
        list[i].role == Role::User || list[i].content.len() > 0 || list[i].complete,
    ensures
        planned(list, thinking).0.contains(words_of_message(list[i])),
    decreases list.len(),
{
    let rest = list.drop_last();
    let (items, tools) = planned(rest, thinking);
    let m = list.last();
    let all = planned(list, thinking).0;
    if i < rest.len() {
        lemma_body(rest, thinking, i);
        assert(rest[i] == list[i]);
        let k = choose|k: int| 0 <= k < items.len() && items[k] == words_of_message(list[i]);
        assert(all[k] == items[k]);
    } else {
        let head = head_items(m, tools, thinking);
        let at = items.len() + head.len();
        assert(all[at as int] == body_items(m)[0]);
    }
}

/// The words of every message are shown, those of the user as they are and those
/// of the assistant as markdown; only an answer that has none yet is not.
pub proof fn every_message_is_shown(list: Seq<MessageView>, thinking: bool, i: int)
    requires
        0 <= i < list.len(),
        list[i].tool_name is None,
    ensures
        list[i].role == Role::User || list[i].content.len() > 0 || list[i].complete
            ==> display_plan(list, thinking).contains(words_of_message(list[i])),
{
    if list[i].role == Role::User || list[i].content.len() > 0 || list[i].complete {
        lemma_body(list, thinking, i);
        let (items, tools) = planned(list, thinking);
        let k = choose|k: int| 0 <= k < items.len() && items[k] == words_of_message(list[i]);
        assert(display_plan(list, thinking)[k] == items[k]);
    }
}

/// Whether a piece is a header of the assistant that carries the tool call.
pub open spec fn carries(item: PlanView, t: ToolRefView) -> bool {
    item matches PlanView::Line(ShownView::Header { role: Role::Assistant, tools })
        && tools.contains(t)
}

proof fn lemma_tools(list: Seq<MessageView>, thinking: bool, i: int)
    requires
        0 <= i < list.len(),
        list[i].tool_name is Some,
    ensures
        planned(list, thinking).1.contains(tool_ref(list[i])) || exists|k: int|
            0 <= k < planned(list, thinking).0.len() && carries(
                #[trigger] planned(list, thinking).0[k],
                tool_ref(list[i]),
            ),
    decreases list.len(),
{
    let rest = list.drop_last();
    let (items, tools) = planned(rest, thinking);
    let m = list.last();
    let (all, waiting) = planned(list, thinking);
    let t = tool_ref(list[i]);
    if i == list.len() - 1 {
        assert(waiting[tools.len() as int] == t);
    } else {
        lemma_tools(rest, thinking, i);
        assert(rest[i] == list[i]);
        if tools.contains(t) {
            if m.is_tool() {
                let k = choose|k: int| 0 <= k < tools.len() && tools[k] == t;
                assert(waiting[k] == t);
            } else {
                let head = head_items(m, tools, thinking);
                if m.role == Role::User {
                    assert(head[0] == PlanView::Line(
                        ShownView::Header { role: Role::Assistant, tools },
                    ));
                    assert(carries(all[items.len() as int], t));
                } else {
                    assert(head[0] == PlanView::Line(
                        ShownView::Header { role: Role::Assistant, tools },
                    ));
                    assert(carries(all[items.len() as int], t));
                }
            }
        } else {
            let k = choose|k: int| 0 <= k < items.len() && carries(#[trigger] items[k], t);
            assert(all[k] == items[k]);
            assert(carries(all[k], t));
        }
    }
}

/// Every tool call is shown in a header of the assistant, with its name, its
/// arguments, its result, and whether it is done and went well.
pub proof fn every_tool_call_is_shown(list: Seq<MessageView>, thinking: bool, i: int)
    requires
        0 <= i < list.len(),
        list[i].tool_name is Some,
    ensures
        exists|k: int|
            0 <= k < display_plan(list, thinking).len() && carries(
                #[trigger] display_plan(list, thinking)[k],
                tool_ref(list[i]),
            ),
        tool_ref(list[i]).name == list[i].tool_name->0,
        tool_ref(list[i]).result == list[i].content,
        tool_ref(list[i]).complete == list[i].complete,
        tool_ref(list[i]).failed == list[i].tool_failed,
        list[i].tool_args matches Some(a) ==> tool_ref(list[i]).args == a,
{
    lemma_tools(list, thinking, i);
    let (items, tools) = planned(list, thinking);
    let t = tool_ref(list[i]);
    let plan = display_plan(list, thinking);
    if tools.contains(t) {
        assert(carries(plan[items.len() as int], t));
    } else {
        let k = choose|k: int| 0 <= k < items.len() && carries(#[trigger] items[k], t);
        assert(plan[k] == items[k]);
        assert(carries(plan[k], t));
    }
}

/// Reasoning is shown behind a header that counts its characters, and only where
/// the user wants to see it; what was attached is named above the question.
pub proof fn reasoning_is_shown_on_request(m: MessageView, tools: Seq<ToolRefView>, thinking: bool)
    ensures
        m.role == Role::Assistant && m.reasoning_content.len() > 0 ==> {
            &&& head_items(m, tools, thinking).contains(
                PlanView::Line(
                    ShownView::ThinkingHeader {
                        char_count: m.reasoning_content.len(),
                        expanded: thinking,
                    },
                ),
            )
            &&& head_items(m, tools, thinking).contains(PlanView::Reasoning(m.reasoning_content))
                <==> thinking
        },
        m.role == Role::User && m.attachments.len() > 0 ==> head_items(
            m,
            tools,
            thinking,
        ).contains(
            PlanView::Line(
                ShownView::AttachmentSummary {
                    labels: m.attachments.map_values(
                        |a: crate::chat_prompt::AttachmentView| a.label,
                    ),
                },
            ),
        ),
        m.role == Role::User || m.reasoning_content.len() == 0 ==> forall|k: int|
            0 <= k < head_items(m, tools, thinking).len() ==> !((#[trigger] head_items(
                m,
                tools,
                thinking,
            )[k]) is Reasoning),
        m.role == Role::Assistant && !m.complete && m.content.len() == 0
            && m.reasoning_content.len() == 0 ==> body_items(m) == seq![
            PlanView::Line(ShownView::LoadingDot),
        ],
{
    let head = head_items(m, tools, thinking);
    if m.role == Role::Assistant && m.reasoning_content.len() > 0 {
        assert(head[1] == PlanView::Line(
            ShownView::ThinkingHeader {
                char_count: m.reasoning_content.len(),
                expanded: thinking,
            },
        ));
        if thinking {
            assert(head[2] == PlanView::Reasoning(m.reasoning_content));
        }
    }
    if m.role == Role::User && m.attachments.len() > 0 {
        let f: int = if tools.len() > 0 {
            1
        } else {
            0
        };
        assert(labels_of(m.attachments) =~= m.attachments.map_values(
            |a: crate::chat_prompt::AttachmentView| a.label,
        ));
        assert(head[f] == PlanView::Line(
            ShownView::AttachmentSummary { labels: labels_of(m.attachments) },
        ));
    }
}

/// The display is its pieces one behind the other: a ready line as it is, any
/// other piece by the lines that it was laid out in.
pub proof fn the_display_is_its_pieces(plan: Seq<PlanView>, laid: Seq<Seq<ShownView>>, i: int)
    requires
        laid.len() == plan.len(),
        0 <= i < plan.len(),
    ensures
        ({
            let before = assembled(plan.take(i), laid).len() as int;
            let shown = match plan[i] {
                PlanView::Line(line) => seq![line],
                _ => laid[i],
            };
            &&& before + shown.len() <= assembled(plan, laid).len()
            &&& assembled(plan, laid).subrange(before, before + shown.len()) == shown
        }),
{
    lemma_piece(plan, laid, i);
}

proof fn lemma_piece(plan: Seq<PlanView>, laid: Seq<Seq<ShownView>>, i: int)
    requires
        laid.len() >= plan.len(),
        0 <= i < plan.len(),
    ensures
        ({
            let before = assembled(plan.take(i), laid).len() as int;
            let shown = match plan[i] {
                PlanView::Line(line) => seq![line],
                _ => laid[i],
            };
            &&& before + shown.len() <= assembled(plan, laid).len()
            &&& assembled(plan, laid).subrange(before, before + shown.len()) == shown
        }),
    decreases plan.len(),
{
    let all = assembled(plan, laid);
    let rest = plan.drop_last();
    let before = assembled(plan.take(i), laid).len() as int;
    let shown = match plan[i] {
        PlanView::Line(line) => seq![line],
        _ => laid[i],
    };
    if i == plan.len() - 1 {
        assert(plan.take(i) =~= rest);
        assert(all.subrange(before, before + shown.len()) =~= shown);
    } else {
        lemma_piece(rest, laid, i);
        assert(rest.take(i) =~= plan.take(i));
        assert(rest[i] == plan[i]);
        let part = assembled(rest, laid);
        assert(all.subrange(before, before + shown.len()) =~= part.subrange(
            before,
            before + shown.len(),
        ));
    }
}

/// Whether a kept layout is one of the text, for the width and the theme.
pub open spec fn fits(e: EntryView, content: Seq<char>, width: usize, is_light: bool) -> bool {
    e.content == content && e.width == width && e.is_light == is_light
}

proof fn lemma_recalled(
    entries: Seq<EntryView>,
    content: Seq<char>,
    width: usize,
    is_light: bool,
)
    ensures
        remembered(entries, content, width, is_light) is Some <==> exists|k: int|
            0 <= k < entries.len() && fits(#[trigger] entries[k], content, width, is_light),
    decreases entries.len(),
{
    if entries.len() > 0 {
        let rest = entries.drop_first();
        lemma_recalled(rest, content, width, is_light);
        assert(forall|k: int| 0 <= k < rest.len() ==> #[trigger] rest[k] == entries[k + 1]);
        if fits(entries[0], content, width, is_light) {
            assert(remembered(entries, content, width, is_light) is Some);
        } else {
            if exists|k: int|
                0 <= k < entries.len() && fits(#[trigger] entries[k], content, width, is_light) {
                let k = choose|k: int|
                    0 <= k < entries.len() && fits(
                        #[trigger] entries[k],
                        content,
                        width,
                        is_light,
                    );
                assert(fits(rest[k - 1], content, width, is_light));
            }
            if exists|k: int|
                0 <= k < rest.len() && fits(#[trigger] rest[k], content, width, is_light) {
                let k = choose|k: int|
                    0 <= k < rest.len() && fits(#[trigger] rest[k], content, width, is_light);
                assert(fits(entries[k + 1], content, width, is_light));
            }
        }
    }
}

/// A text is laid out anew exactly where no layout of it is kept for the width and
/// the theme; one that still grows always is, and a ready line never.
pub proof fn texts_are_laid_out_where_none_is_kept(
    entries: Seq<EntryView>,
    content: Seq<char>,
    line: ShownView,
    width: usize,
    is_light: bool,
)
    ensures
        to_lay_out(entries, PlanView::Markdown { content, keep: true }, width, is_light)
            <==> !(exists|k: int|
            0 <= k < entries.len() && fits(#[trigger] entries[k], content, width, is_light)),
        to_lay_out(entries, PlanView::Markdown { content, keep: false }, width, is_light),
        to_lay_out(entries, PlanView::UserText(content), width, is_light),
        !to_lay_out(entries, PlanView::Line(line), width, is_light),
{
    lemma_recalled(entries, content, width, is_light);
}

// ---------------------------------------------------------------------------
// Markdown
// ---------------------------------------------------------------------------

/// The texts of a block of markdown.
pub open spec fn block_text(b: BlockView) -> Seq<Seq<char>> {
    match b {
        BlockView::Blank | BlockView::Hr => seq![],
        BlockView::Paragraph(t) => seq![t],
        BlockView::Heading { text, .. } => seq![text],
        BlockView::Quote(t) => seq![t],
        BlockView::ListItem { text, .. } => seq![text],
        BlockView::CodeLine { text, .. } => seq![text],
    }
}

pub open spec fn block_texts(blocks: Seq<BlockView>) -> Seq<Seq<char>>
    decreases blocks.len(),
{
    if blocks.len() == 0 {
        seq![]
    } else {
        block_text(blocks[0]) + block_texts(blocks.drop_first())
    }
}

/// The texts that are laid out for a piece of markdown.
pub open spec fn job_text(j: JobView) -> Seq<Seq<char>> {
    match j {
        JobView::Ready(_) => seq![],
        JobView::Inline { text, .. } => seq![text],
        JobView::Code { lines, .. } => lines.map_values(|l: (Seq<char>, DiffKind)| l.0),
    }
}

pub open spec fn job_texts(jobs: Seq<JobView>) -> Seq<Seq<char>>
    decreases jobs.len(),
{
    if jobs.len() == 0 {
        seq![]
    } else {
        job_text(jobs[0]) + job_texts(jobs.drop_first())
    }
}

proof fn lemma_run(blocks: Seq<BlockView>, lang: Seq<char>)
    ensures
        code_run(blocks, lang) <= blocks.len(),
        forall|k: int|
            0 <= k < code_run(blocks, lang) ==> ((#[trigger] blocks[k]) is CodeLine
                && blocks[k]->lang == lang),
    decreases blocks.len(),
{
    if blocks.len() > 0 {
        let rest = blocks.drop_first();
        lemma_run(rest, lang);
        assert forall|k: int| 0 <= k < code_run(blocks, lang) implies ((
        #[trigger] blocks[k]) is CodeLine && blocks[k]->lang == lang) by {
            if k > 0 {
                assert(rest[k - 1] == blocks[k]);
            }
        }
    }
}

proof fn lemma_code_texts(blocks: Seq<BlockView>, n: int)
    requires
        0 <= n <= blocks.len(),
        forall|k: int| 0 <= k < n ==> (#[trigger] blocks[k]) is CodeLine,
    ensures
        block_texts(blocks) == code_of(blocks.take(n)).map_values(
            |l: (Seq<char>, DiffKind)| l.0,
        ) + block_texts(blocks.skip(n)),
    decreases n,
{
    let firsts = |l: (Seq<char>, DiffKind)| l.0;
    if n == 0 {
        assert(blocks.skip(0) =~= blocks);
        assert(code_of(blocks.take(0)).map_values(firsts) + block_texts(blocks.skip(0))
            =~= block_texts(blocks));
    } else {
        let rest = blocks.drop_first();
        assert forall|k: int| 0 <= k < n - 1 implies (#[trigger] rest[k]) is CodeLine by {
            assert(rest[k] == blocks[k + 1]);
        }
        lemma_code_texts(rest, n - 1);
        assert(rest.skip(n - 1) =~= blocks.skip(n));
        let all = code_of(blocks.take(n)).map_values(firsts);
        let tail = code_of(rest.take(n - 1)).map_values(firsts);
        assert(blocks[0] is CodeLine);
        assert(all =~= block_text(blocks[0]) + tail) by {
            assert forall|k: int| 0 < k < n implies all[k] == tail[k - 1] by {
                assert(rest[k - 1] == blocks[k]);
            }
        }
        assert(block_texts(blocks) =~= all + block_texts(blocks.skip(n)));
    }
}

/// Laying markdown out loses no text and changes no order: the texts of the
/// pieces are those of the blocks.
pub proof fn layouts_keep_every_text(blocks: Seq<BlockView>, width: usize)
    ensures
        job_texts(jobs_of(blocks, width)) == block_texts(blocks),
    decreases blocks.len(),
{
    let jobs = jobs_of(blocks, width);
    if blocks.len() > 0 {
        match blocks[0] {
            BlockView::CodeLine { lang, .. } => {
                let rest = blocks.drop_first();
                lemma_run(rest, lang);
                let n = 1 + code_run(rest, lang) as int;
                assert forall|k: int| 0 <= k < n implies (#[trigger] blocks[k]) is CodeLine by {
                    if k > 0 {
                        assert(rest[k - 1] == blocks[k]);
                    }
                }
                lemma_code_texts(blocks, n);
                layouts_keep_every_text(blocks.skip(n), width);
                assert(jobs.drop_first() =~= jobs_of(blocks.skip(n), width));
            },
            other => {
                layouts_keep_every_text(blocks.drop_first(), width);
                assert(jobs.drop_first() =~= jobs_of(blocks.drop_first(), width));
            },
        }
    }
}

/// A heading keeps its level in its marks, a list item its marker, a quote is
/// narrower by its bar; everything else has the whole width.
pub proof fn blocks_keep_their_shape(
    width: usize,
    level: u8,
    marker: Seq<char>,
    text: Seq<char>,
)
    ensures
        job_of(BlockView::Heading { level, text }, width) matches JobView::Inline {
            head,
            text: t,
            width: w,
            shape,
        } && t == text && w == width && shape == ShapeView::Block(BlockStyle::Heading(level))
            && head.len() == 1 && head[0].text.len() == level + 1 && (forall|k: int|
            0 <= k < level ==> #[trigger] head[0].text[k] == '#') && head[0].style
            == InlineStyle::HeadingMarker,
        job_of(BlockView::ListItem { marker, text }, width) matches JobView::Inline {
            text: t,
            shape,
            ..
        } && t == text && shape == ShapeView::Item(marker),
        job_of(BlockView::Quote(text), width) matches JobView::Inline { text: t, width: w, shape, .. }
            && t == text && (width > 3 ==> w == width - 2) && w >= 1 && shape == ShapeView::Block(
            BlockStyle::Quote,
        ),
        job_of(BlockView::Paragraph(text), width) matches JobView::Inline {
            text: t,
            width: w,
            shape,
            head,
        } && t == text && w == width && shape == ShapeView::Block(BlockStyle::Normal) && head.len()
            == 0,
        job_of(BlockView::Blank, width) == JobView::Ready(ShownView::Blank),
{
    reveal_strlit(" ");
}

/// Rows are placed one for one; the first row of a list item carries its marker,
/// the others stand below it.
pub proof fn rows_are_placed_one_for_one(
    rows: Seq<Seq<SpanView>>,
    block: BlockStyle,
    marker: Seq<char>,
    i: int,
)
    requires
        0 <= i < rows.len(),
    ensures
        placed_rows(rows, ShapeView::Block(block)).len() == rows.len(),
        placed_rows(rows, ShapeView::Item(marker)).len() == rows.len(),
        placed_rows(rows, ShapeView::Block(block))[i] == (ShownView::Text {
            segments: rows[i],
            role: Role::Assistant,
            block,
        }),
        placed_rows(rows, ShapeView::Item(marker))[0] matches ShownView::Text { segments, .. }
            && segments.len() == rows[0].len() + 1 && segments[0].text == marker
            && segments.drop_first() == rows[0],
        i > 0 ==> placed_rows(rows, ShapeView::Item(marker))[i] == (ShownView::Text {
            segments: rows[i],
            role: Role::Assistant,
            block: BlockStyle::ListContinuation,
        }),
        plain_row(rows[i], Role::User, block) matches ShownView::Text { segments, role, .. } && role
            == Role::User && (rows[i].len() > 0 ==> segments == rows[i]),
{
    let first = placed_rows(rows, ShapeView::Item(marker))[0];
    if let ShownView::Text { segments, .. } = first {
        assert(segments.drop_first() =~= rows[0]);
    }
}

/// Added, removed and hunk lines of a diff each have their own style; other code
/// has that of code.
pub proof fn diffs_are_told_apart(a: DiffKind, b: DiffKind)
    ensures
        a != b ==> diff_style(a) != diff_style(b),
        diff_style(DiffKind::Add) == BlockStyle::DiffAdd,
        diff_style(DiffKind::Remove) == BlockStyle::DiffRemove,
        diff_style(DiffKind::Hunk) == BlockStyle::DiffHunk,
        diff_style(DiffKind::Unmarked) == BlockStyle::Code,
{
}

// ---------------------------------------------------------------------------
// Quads
// ---------------------------------------------------------------------------

/// Each quad is drawn as two triangles over its own four corners.
pub proof fn quads_are_two_triangles(n: nat, k: int)
    requires
        0 <= k < n,
        n * 4 <= u32::MAX,
    ensures
        quad_indices(n).len() == 6 * n,
        quad_indices(n).subrange(6 * k, 6 * k + 6) == seq![
            (4 * k) as u32,
            (4 * k + 1) as u32,
            (4 * k + 2) as u32,
            (4 * k + 1) as u32,
            (4 * k + 2) as u32,
            (4 * k + 3) as u32,
        ],
{
    let all = quad_indices(n);
    assert(6 * k + 6 <= 6 * n) by (nonlinear_arith)
        requires
            k < n,
    ;
    assert((6 * k + 0) / 6 == k && (6 * k + 0) % 6 == 0);
    assert((6 * k + 1) / 6 == k && (6 * k + 1) % 6 == 1);
    assert((6 * k + 2) / 6 == k && (6 * k + 2) % 6 == 2);
    assert((6 * k + 3) / 6 == k && (6 * k + 3) % 6 == 3);
    assert((6 * k + 4) / 6 == k && (6 * k + 4) % 6 == 4);
    assert((6 * k + 5) / 6 == k && (6 * k + 5) % 6 == 5);
    assert(all.subrange(6 * k, 6 * k + 6) =~= seq![
        (4 * k) as u32,
        (4 * k + 1) as u32,
        (4 * k + 2) as u32,
        (4 * k + 1) as u32,
        (4 * k + 2) as u32,
        (4 * k + 3) as u32,
    ]);
}

/// A buffer grows only where it is asked for more than it has, and then to the
/// least multiple of a hundred and twenty-eight that will do; it starts empty.
pub proof fn buffers_grow_by_steps(b: TripleVertexBuffer)
    requires
        b.next_quad + 128 <= usize::MAX,
    ensures
        b.next_quad <= b.capacity ==> grown_buffer(b) == b,
        b.next_quad > b.capacity ==> {
            let g = grown_buffer(b);
            &&& g.capacity % 128 == 0
            &&& b.next_quad <= g.capacity < b.next_quad + 128
            &&& g.next_quad == 0 && g.index == 0
        },
{
    let n = b.next_quad as int;
    assert(n <= (n + 127) / 128 * 128 < n + 128 && ((n + 127) / 128 * 128) % 128 == 0)
        by (nonlinear_arith)
        requires
            n >= 0,
    ;
}

/// Filling up and overwriting leave the vertices that they are not about.
pub proof fn vertices_are_left_in_place(
    list: Seq<int>,
    len: int,
    blank: int,
    start: int,
    with: Seq<int>,
    i: int,
)
    requires
        0 <= i < list.len(),
        0 <= start,
        start + with.len() <= list.len(),
    ensures
        filled(list, len, blank).len() == if len > list.len() {
            len
        } else {
            list.len() as int
        },
        filled(list, len, blank)[i] == list[i],
        overwritten(list, start, with).len() == list.len(),
        !(start <= i < start + with.len()) ==> overwritten(list, start, with)[i] == list[i],
        overwritten(list, start, with).subrange(start, start + with.len()) == with,
        forall|n: usize, c: usize| n < c ==> #[trigger] quad_at(n, c) == n,
{
    assert(overwritten(list, start, with).subrange(start, start + with.len()) =~= with);
}

/// The shader version that worked last time is tried first.
pub proof fn the_last_shader_version_leads(cached: Seq<char>)
    ensures
        all_glsl_versions().contains(trimmed(cached)) ==> version_order(Some(cached))[0] == trimmed(
            cached,
        ),
        !all_glsl_versions().contains(trimmed(cached)) ==> version_order(Some(cached))
            == version_order(None),
        version_order(None) == seq!["330 core"@, "330"@, "320 es"@, "300 es"@],
{
    lemma_leads(trimmed(cached), 4);
}

proof fn lemma_leads(first: Seq<char>, n: nat)
    ensures
        versions_after(first, n).len() > 0,
        versions_after(first, n)[0] == first,
    decreases n,
{
    if n > 0 {
        lemma_leads(first, (n - 1) as nat);
    }
}

} // verus!
