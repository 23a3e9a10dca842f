use vstd::prelude::*;

use crate::args::ArgV;
use crate::pi::{EventV, StreamEvent};
use crate::text::{
    chars_of, decimal, push_decimal, push_str, str_eq, string_of, trim, trim_range,
};
use crate::tools::{
    detail_from, detail_of, kind_of, label_of, summary_of, tool_kind, tool_label, tool_summary,
    ToolActivity, ToolKind, ToolState, ToolV,
};

verus! {

/// One entry of the conversation buffer.
#[derive(Clone, Debug, PartialEq, Eq)]
pub enum TranscriptItem {
    User(String),
    Assistant(String),
    Thinking { id: String, text: String },
    Exploration(Vec<ToolActivity>),
    Tool(ToolActivity),
    Error(String),
}

/// The model of a [`TranscriptItem`].
pub enum ItemV {
    User(Seq<char>),
    Assistant(Seq<char>),
    Thinking { id: Seq<char>, text: Seq<char> },
    Exploration(Seq<ToolV>),
    Tool(ToolV),
    Error(Seq<char>),
}

/// The models of a run of tools.
pub open spec fn tools_view(ts: Seq<ToolActivity>) -> Seq<ToolV> {
    ts.map_values(|t: ToolActivity| t@)
}

impl View for TranscriptItem {
    type V = ItemV;

    open spec fn view(&self) -> ItemV {
        match self {
            TranscriptItem::User(s) => ItemV::User(s@),
            TranscriptItem::Assistant(s) => ItemV::Assistant(s@),
            TranscriptItem::Thinking { id, text } => ItemV::Thinking { id: id@, text: text@ },
            TranscriptItem::Exploration(ts) => ItemV::Exploration(tools_view(ts@)),
            TranscriptItem::Tool(t) => ItemV::Tool(t@),
            TranscriptItem::Error(s) => ItemV::Error(s@),
        }
    }
}

/// The model of a transcript.
pub open spec fn items_view(items: Seq<TranscriptItem>) -> Seq<ItemV> {
    items.map_values(|i: TranscriptItem| i@)
}

/// The text of an assistant entry.
pub open spec fn assistant_text(it: ItemV) -> Option<Seq<char>> {
    match it {
        ItemV::Assistant(t) => Some(t),
        _ => None,
    }
}

/// The transcript without a last assistant entry that is still empty.
pub open spec fn drop_empty_assistant(items: Seq<ItemV>) -> Seq<ItemV> {
    if items.len() > 0 && assistant_text(items.last()) == Some(Seq::<char>::empty()) {
        items.drop_last()
    } else {
        items
    }
}

/// The index of the last thinking entry with `id`.
pub open spec fn last_thinking(items: Seq<ItemV>, id: Seq<char>) -> Option<int>
    decreases items.len(),
{
    if items.len() == 0 {
        None
    } else if items.last() matches ItemV::Thinking { id: tid, .. } && tid == id {
        Some(items.len() - 1)
    } else {
        last_thinking(items.drop_last(), id)
    }
}

/// The index of the last thinking entry with `id` whose text is empty.
pub open spec fn last_empty_thinking(items: Seq<ItemV>, id: Seq<char>) -> Option<int>
    decreases items.len(),
{
    if items.len() == 0 {
        None
    } else if items.last() matches ItemV::Thinking { id: tid, text } && tid == id && text.len()
        == 0 {
        Some(items.len() - 1)
    } else {
        last_empty_thinking(items.drop_last(), id)
    }
}

/// The index of the last tool with `id` in a run of tools.
pub open spec fn last_tool(ts: Seq<ToolV>, id: Seq<char>) -> Option<int>
    decreases ts.len(),
{
    if ts.len() == 0 {
        None
    } else if ts.last().id == id {
        Some(ts.len() - 1)
    } else {
        last_tool(ts.drop_last(), id)
    }
}

/// Where the latest tool with `id` stands: the entry, and its place in an
/// exploration group where it stands in one.
pub open spec fn locate(items: Seq<ItemV>, id: Seq<char>) -> Option<(int, Option<int>)>
    decreases items.len(),
{
    if items.len() == 0 {
        None
    } else {
        match items.last() {
            ItemV::Tool(t) => if t.id == id {
                Some((items.len() - 1, None))
            } else {
                locate(items.drop_last(), id)
            },
            ItemV::Exploration(ts) => match last_tool(ts, id) {
                Some(j) => Some((items.len() - 1, Some(j))),
                None => locate(items.drop_last(), id),
            },
            _ => locate(items.drop_last(), id),
        }
    }
}

/// A place of a tool, as the model writes it.
pub open spec fn as_loc(l: (usize, Option<usize>)) -> (int, Option<int>) {
    (
        l.0 as int,
        match l.1 {
            Some(j) => Some(j as int),
            None => None,
        },
    )
}

/// `loc` names a tool of `items`.
pub open spec fn valid_loc(items: Seq<ItemV>, loc: (int, Option<int>)) -> bool {
    &&& 0 <= loc.0 < items.len()
    &&& match loc.1 {
        None => items[loc.0] is Tool,
        Some(j) => items[loc.0] matches ItemV::Exploration(ts) && 0 <= j < ts.len(),
    }
}

/// The tool at `loc`.
pub open spec fn tool_at(items: Seq<ItemV>, loc: (int, Option<int>)) -> ToolV {
    match (items[loc.0], loc.1) {
        (ItemV::Tool(t), None) => t,
        (ItemV::Exploration(ts), Some(j)) => ts[j],
        _ => arbitrary(),
    }
}

/// `items` with the tool at `loc` replaced by `t`.
pub open spec fn set_tool(items: Seq<ItemV>, loc: (int, Option<int>), t: ToolV) -> Seq<ItemV> {
    match (items[loc.0], loc.1) {
        (ItemV::Tool(_), None) => items.update(loc.0, ItemV::Tool(t)),
        (ItemV::Exploration(ts), Some(j)) => items.update(loc.0, ItemV::Exploration(ts.update(j, t))),
        _ => items,
    }
}

/// A tool that has just started.
pub open spec fn new_tool(id: Seq<char>, name: Seq<char>, args: Seq<(Seq<char>, ArgV)>) -> ToolV {
    ToolV {
        id,
        kind: kind_of(name),
        summary: summary_of(name, args),
        state: ToolState::Active,
        error: None,
        detail: None,
        added: None,
        removed: None,
        direct_shell: false,
        output: Seq::<char>::empty(),
        highlighted_html: None,
    }
}

/// A tool once its end has been reported: failed or complete, with the
/// error, a detail page titled by its new label, and the counts of changes.
pub open spec fn end_tool(
    t: ToolV,
    is_error: bool,
    error: Option<Seq<char>>,
    output: Option<Seq<char>>,
    highlighted_html: Option<Seq<char>>,
    added: Option<u64>,
    removed: Option<u64>,
) -> ToolV {
    let ended = ToolV {
        state: if is_error {
            ToolState::Failed
        } else {
            ToolState::Complete
        },
        error,
        ..t
    };
    ToolV { detail: detail_of(label_of(ended), output, highlighted_html), added, removed, ..ended }
}

/// The transcript after one event of a request; `shell` names the tool of a
/// shell command that the user ran, where the request is one.
pub open spec fn apply_event(items: Seq<ItemV>, ev: EventV, shell: Option<Seq<char>>) -> Seq<
    ItemV,
> {
    match ev {
        EventV::AssistantStart => items.push(ItemV::Assistant(Seq::<char>::empty())),
        EventV::ThinkingStart { id } => drop_empty_assistant(items).push(
            ItemV::Thinking { id, text: Seq::<char>::empty() },
        ),
        EventV::ThinkingDelta { id, delta } => match last_thinking(items, id) {
            Some(i) => match items[i] {
                ItemV::Thinking { id: tid, text } => items.update(
                    i,
                    ItemV::Thinking { id: tid, text: text + delta },
                ),
                _ => items,
            },
            None => items.push(ItemV::Thinking { id, text: delta }),
        },
        EventV::ThinkingEnd { id, content } => if content.len() == 0 {
            match last_empty_thinking(items, id) {
                Some(i) => items.remove(i),
                None => items,
            }
        } else {
            match last_thinking(items, id) {
                Some(i) => match items[i] {
                    ItemV::Thinking { id: tid, .. } => items.update(
                        i,
                        ItemV::Thinking { id: tid, text: content },
                    ),
                    _ => items,
                },
                None => items.push(ItemV::Thinking { id, text: content }),
            }
        },
        EventV::TextDelta(d) => if items.len() > 0 && assistant_text(items.last()) is Some {
            items.update(
                items.len() - 1,
                ItemV::Assistant(assistant_text(items.last())->0 + d),
            )
        } else {
            items.push(ItemV::Assistant(d))
        },
        EventV::ToolStart { id, name, args } => {
            let base = drop_empty_assistant(items);
            let tool = new_tool(id, name, args);
            if tool.kind == ToolKind::Exploration {
                if base.len() > 0 && base.last() is Exploration {
                    match base.last() {
                        ItemV::Exploration(ts) => base.update(
                            base.len() - 1,
                            ItemV::Exploration(ts.push(tool)),
                        ),
                        _ => base,
                    }
                } else {
                    base.push(ItemV::Exploration(seq![tool]))
                }
            } else {
                base.push(ItemV::Tool(tool))
            }
        },
        EventV::ToolEnd { id, is_error, error, output, highlighted_html, added, removed } => match locate(
            items,
            id,
        ) {
            Some(loc) => set_tool(
                items,
                loc,
                end_tool(
                    tool_at(items, loc),
                    is_error,
                    error,
                    output,
                    highlighted_html,
                    added,
                    removed,
                ),
            ),
            None => items,
        },
        EventV::BashDelta(d) => match shell {
            Some(sid) => match locate(items, sid) {
                Some(loc) => set_tool(
                    items,
                    loc,
                    ToolV { output: tool_at(items, loc).output + d, ..tool_at(items, loc) },
                ),
                None => items,
            },
            None => items,
        },
    }
}

pub proof fn lemma_locate_valid(items: Seq<ItemV>, id: Seq<char>)
    ensures
        locate(items, id) matches Some(loc) ==> valid_loc(items, loc) && tool_at(items, loc).id
            == id,
    decreases items.len(),
{
    if items.len() > 0 {
        lemma_locate_valid(items.drop_last(), id);
        match items.last() {
            ItemV::Exploration(ts) => lemma_last_tool_valid(ts, id),
            _ => {},
        }
    }
}

pub proof fn lemma_last_thinking_valid(items: Seq<ItemV>, id: Seq<char>)
    ensures
        last_thinking(items, id) matches Some(i) ==> (0 <= i < items.len()
            && (items[i] matches ItemV::Thinking { id: tid, .. } && tid == id)),
        last_empty_thinking(items, id) matches Some(i) ==> (0 <= i < items.len()
            && (items[i] matches ItemV::Thinking { id: tid, text } && tid == id && text.len() == 0)),
    decreases items.len(),
{
    if items.len() > 0 {
        lemma_last_thinking_valid(items.drop_last(), id);
    }
}

pub proof fn lemma_last_tool_valid(ts: Seq<ToolV>, id: Seq<char>)
    ensures
        last_tool(ts, id) matches Some(j) ==> 0 <= j < ts.len() && ts[j].id == id,
    decreases ts.len(),
{
    if ts.len() > 0 {
        lemma_last_tool_valid(ts.drop_last(), id);
    }
}

/// The index of the last tool with `id` in `ts`.
fn find_in_group(ts: &Vec<ToolActivity>, id: &str) -> (r: Option<usize>)
    ensures
        match r {
            Some(j) => last_tool(tools_view(ts@), id@) == Some(j as int),
            None => last_tool(tools_view(ts@), id@) is None,
        },
{
    let mut j = ts.len();
    assert(tools_view(ts@).take(j as int) =~= tools_view(ts@));
    while j > 0
        invariant
            j <= ts.len(),
            last_tool(tools_view(ts@), id@) == last_tool(tools_view(ts@).take(j as int), id@),
        decreases j,
    {
        j = j - 1;
        let ghost pre = tools_view(ts@).take(j + 1);
        assert(pre.drop_last() =~= tools_view(ts@).take(j as int));
        assert(pre.last() == ts@[j as int]@);
        if str_eq(ts[j].id.as_str(), id) {
            return Some(j);
        }
    }
    None
}

/// Where the latest tool with `id` stands.
pub fn locate_tool(transcript: &Vec<TranscriptItem>, id: &str) -> (r: Option<(usize, Option<usize>)>)
    ensures
        match r {
            Some(l) => locate(items_view(transcript@), id@) == Some(as_loc(l)),
            None => locate(items_view(transcript@), id@) is None,
        },
{
    let ghost all = items_view(transcript@);
    let mut i = transcript.len();
    assert(all.take(i as int) =~= all);
    while i > 0
        invariant
            i <= transcript.len(),
            all == items_view(transcript@),
            locate(all, id@) == locate(all.take(i as int), id@),
        decreases i,
    {
        i = i - 1;
        let ghost pre = all.take(i + 1);
        assert(pre.drop_last() =~= all.take(i as int));
        assert(pre.last() == transcript@[i as int]@);
        match &transcript[i] {
            TranscriptItem::Tool(t) => {
                if str_eq(t.id.as_str(), id) {
                    return Some((i, None));
                }
            },
            TranscriptItem::Exploration(ts) => {
                match find_in_group(ts, id) {
                    Some(j) => {
                        return Some((i, Some(j)));
                    },
                    None => {},
                }
            },
            _ => {},
        }
    }
    None
}

pub broadcast proof fn lemma_items_view_update(s: Seq<TranscriptItem>, i: int, x: TranscriptItem)
    requires
        0 <= i < s.len(),
    ensures
        #[trigger] items_view(s.update(i, x)) == items_view(s).update(i, x@),
{
    assert(items_view(s.update(i, x)) =~= items_view(s).update(i, x@));
}

pub broadcast proof fn lemma_tools_view_update(s: Seq<ToolActivity>, i: int, x: ToolActivity)
    requires
        0 <= i < s.len(),
    ensures
        #[trigger] tools_view(s.update(i, x)) == tools_view(s).update(i, x@),
{
    assert(tools_view(s.update(i, x)) =~= tools_view(s).update(i, x@));
}

/// The tool at `loc`, to change in place.
fn tool_mut(transcript: &mut Vec<TranscriptItem>, loc: (usize, Option<usize>)) -> (t: &mut ToolActivity)
    requires
        valid_loc(items_view(old(transcript)@), as_loc(loc)),
    ensures
        t@ == tool_at(items_view(old(transcript)@), as_loc(loc)),
        items_view(final(transcript)@) == set_tool(
            items_view(old(transcript)@),
            as_loc(loc),
            final(t)@,
        ),
{
    broadcast use {lemma_items_view_update, lemma_tools_view_update};

    let (i, g) = loc;
    match g {
        None => match &mut transcript[i] {
            TranscriptItem::Tool(t) => t,
            _ => vstd::pervasive::unreached(),
        },
        Some(j) => match &mut transcript[i] {
            TranscriptItem::Exploration(ts) => &mut ts[j],
            _ => vstd::pervasive::unreached(),
        },
    }
}

pub broadcast proof fn lemma_items_view_push(s: Seq<TranscriptItem>, x: TranscriptItem)
    ensures
        #[trigger] items_view(s.push(x)) == items_view(s).push(x@),
{
    assert(items_view(s.push(x)) =~= items_view(s).push(x@));
}

pub broadcast proof fn lemma_items_view_remove(s: Seq<TranscriptItem>, i: int)
    requires
        0 <= i < s.len(),
    ensures
        #[trigger] items_view(s.remove(i)) == items_view(s).remove(i),
{
    assert(items_view(s.remove(i)) =~= items_view(s).remove(i));
}

pub broadcast proof fn lemma_items_view_subrange(s: Seq<TranscriptItem>, j: int)
    requires
        0 <= j <= s.len(),
    ensures
        #[trigger] items_view(s.subrange(0, j)) == items_view(s).subrange(0, j),
{
    assert(items_view(s.subrange(0, j)) =~= items_view(s).subrange(0, j));
}

pub broadcast proof fn lemma_tools_view_push(s: Seq<ToolActivity>, x: ToolActivity)
    ensures
        #[trigger] tools_view(s.push(x)) == tools_view(s).push(x@),
{
    assert(tools_view(s.push(x)) =~= tools_view(s).push(x@));
}

pub broadcast group group_views {
    lemma_items_view_update,
    lemma_tools_view_update,
    lemma_items_view_push,
    lemma_items_view_remove,
    lemma_items_view_subrange,
    lemma_tools_view_push,
}

/// The index of the last thinking entry with `id`; with `empty`, of the last
/// one whose text is still empty.
fn find_thinking(transcript: &Vec<TranscriptItem>, id: &str, empty: bool) -> (r: Option<usize>)
    ensures
        ({
            let spec_r = if empty {
                last_empty_thinking(items_view(transcript@), id@)
            } else {
                last_thinking(items_view(transcript@), id@)
            };
            match r {
                Some(i) => spec_r == Some(i as int),
                None => spec_r is None,
            }
        }),
{
    let ghost all = items_view(transcript@);
    let mut i = transcript.len();
    assert(all.take(i as int) =~= all);
    while i > 0
        invariant
            i <= transcript.len(),
            all == items_view(transcript@),
            !empty ==> last_thinking(all, id@) == last_thinking(all.take(i as int), id@),
            empty ==> last_empty_thinking(all, id@) == last_empty_thinking(all.take(i as int), id@),
        decreases i,
    {
        i = i - 1;
        let ghost pre = all.take(i + 1);
        assert(pre.drop_last() =~= all.take(i as int));
        assert(pre.last() == transcript@[i as int]@);
        match &transcript[i] {
            TranscriptItem::Thinking { id: tid, text } => {
                if str_eq(tid.as_str(), id) && (!empty || text.as_str().is_empty()) {
                    return Some(i);
                }
            },
            _ => {},
        }
    }
    None
}

/// Drops a last assistant entry that is still empty.
pub fn remove_trailing_empty_assistant(transcript: &mut Vec<TranscriptItem>)
    ensures
        items_view(final(transcript)@) == drop_empty_assistant(items_view(old(transcript)@)),
{
    broadcast use group_views;

    let n = transcript.len();
    if n > 0 {
        let empty = match &transcript[n - 1] {
            TranscriptItem::Assistant(text) => text.as_str().is_empty(),
            _ => false,
        };
        if empty {
            proof {
                assert(assistant_text(items_view(transcript@).last()) =~= Some(Seq::<char>::empty()));
            }
            transcript.pop();
            assert(items_view(old(transcript)@).drop_last() =~= items_view(
                old(transcript)@,
            ).subrange(0, n - 1));
        }
    }
}

/// Applies one event of a request to the transcript; `shell_id` names the
/// tool of a shell command that the user ran, where the request is one.
pub fn apply_stream_event(
    transcript: &mut Vec<TranscriptItem>,
    event: StreamEvent,
    shell_id: Option<&str>,
)
    ensures
        items_view(final(transcript)@) == apply_event(
            items_view(old(transcript)@),
            event@,
            match shell_id {
                Some(s) => Some(s@),
                None => None,
            },
        ),
{
    broadcast use group_views;

    match event {
        StreamEvent::AssistantStart => {
            transcript.push(TranscriptItem::Assistant(String::new()));
        },
        StreamEvent::ThinkingStart { id } => {
            remove_trailing_empty_assistant(transcript);
            transcript.push(TranscriptItem::Thinking { id, text: String::new() });
        },
        StreamEvent::ThinkingDelta { id, delta } => {
            proof {
                lemma_last_thinking_valid(items_view(transcript@), id@);
            }
            match find_thinking(transcript, id.as_str(), false) {
                Some(i) => {
                    match &mut transcript[i] {
                        TranscriptItem::Thinking { text, .. } => push_str(text, delta.as_str()),
                        _ => {},
                    }
                },
                None => {
                    transcript.push(TranscriptItem::Thinking { id, text: delta });
                },
            }
        },
        StreamEvent::ThinkingEnd { id, content } => {
            proof {
                lemma_last_thinking_valid(items_view(transcript@), id@);
            }
            if content.as_str().is_empty() {
                match find_thinking(transcript, id.as_str(), true) {
                    Some(i) => {
                        transcript.remove(i);
                    },
                    None => {},
                }
            } else {
                match find_thinking(transcript, id.as_str(), false) {
                    Some(i) => {
                        match &mut transcript[i] {
                            TranscriptItem::Thinking { text, .. } => {
                                *text = content;
                            },
                            _ => {},
                        }
                    },
                    None => {
                        transcript.push(TranscriptItem::Thinking { id, text: content });
                    },
                }
            }
        },
        StreamEvent::TextDelta(delta) => {
            let n = transcript.len();
            let is_assistant = n > 0 && match &transcript[n - 1] {
                TranscriptItem::Assistant(_) => true,
                _ => false,
            };
            if is_assistant {
                match &mut transcript[n - 1] {
                    TranscriptItem::Assistant(text) => push_str(text, delta.as_str()),
                    _ => {},
                }
            } else {
                transcript.push(TranscriptItem::Assistant(delta));
            }
        },
        StreamEvent::ToolStart { id, name, args } => {
            let ghost spec_tool = new_tool(id@, name@, args@);
            remove_trailing_empty_assistant(transcript);
            let kind = tool_kind(name.as_str());
            let tool = ToolActivity {
                id,
                kind,
                summary: tool_summary(name.as_str(), &args),
                state: ToolState::Active,
                error: None,
                detail: None,
                added: None,
                removed: None,
                direct_shell: false,
                output: String::new(),
                highlighted_html: None,
            };
            assert(tool@ == spec_tool);
            if kind == ToolKind::Exploration {
                let n = transcript.len();
                let grouped = n > 0 && match &transcript[n - 1] {
                    TranscriptItem::Exploration(_) => true,
                    _ => false,
                };
                if grouped {
                    match &mut transcript[n - 1] {
                        TranscriptItem::Exploration(tools) => tools.push(tool),
                        _ => {},
                    }
                } else {
                    let mut tools = Vec::new();
                    tools.push(tool);
                    assert(tools_view(tools@) =~= seq![spec_tool]);
                    transcript.push(TranscriptItem::Exploration(tools));
                }
            } else {
                transcript.push(TranscriptItem::Tool(tool));
            }
        },
        StreamEvent::ToolEnd { id, is_error, error, output, highlighted_html, added, removed } => {
            proof {
                lemma_locate_valid(items_view(transcript@), id@);
            }
            match locate_tool(transcript, id.as_str()) {
                Some(loc) => {
                    let tool = tool_mut(transcript, loc);
                    tool.state = if is_error {
                        ToolState::Failed
                    } else {
                        ToolState::Complete
                    };
                    tool.error = error;
                    let label = tool_label(tool);
                    tool.detail = detail_from(label, output, highlighted_html);
                    tool.added = added;
                    tool.removed = removed;
                },
                None => {},
            }
        },
        StreamEvent::BashDelta(delta) => {
            match shell_id {
                Some(sid) => {
                    proof {
                        lemma_locate_valid(items_view(transcript@), sid@);
                    }
                    match locate_tool(transcript, sid) {
                        Some(loc) => {
                            let tool = tool_mut(transcript, loc);
                            push_str(&mut tool.output, delta.as_str());
                        },
                        None => {},
                    }
                },
                None => {},
            }
        },
    }
}

/// The index of the first line break in `s`.
pub open spec fn newline_index(s: Seq<char>) -> Option<int>
    decreases s.len(),
{
    if s.len() == 0 {
        None
    } else if s[0] == '\n' {
        Some(0)
    } else {
        match newline_index(s.drop_first()) {
            Some(k) => Some(k + 1),
            None => None,
        }
    }
}

pub proof fn lemma_newline_index_bound(s: Seq<char>)
    ensures
        newline_index(s) matches Some(k) ==> 0 <= k < s.len() && s[k] == '\n',
    decreases s.len(),
{
    if s.len() > 0 {
        lemma_newline_index_bound(s.drop_first());
    }
}

/// The first line of `s` that is not blank, trimmed.
pub open spec fn first_nonblank_line(s: Seq<char>) -> Option<Seq<char>>
    decreases s.len(),
{
    proof {
        lemma_newline_index_bound(s);
    }
    match newline_index(s) {
        Some(k) => if trim(s.take(k)).len() > 0 {
            Some(trim(s.take(k)))
        } else {
            first_nonblank_line(s.skip(k + 1))
        },
        None => if trim(s).len() > 0 {
            Some(trim(s))
        } else {
            None
        },
    }
}

/// What a failed tool shows of the error of a request: its first line that
/// is not blank, trimmed, or `Request failed`; at most 500 characters.
pub open spec fn failure_message(error: Seq<char>) -> Seq<char> {
    let line = match first_nonblank_line(error) {
        Some(l) => l,
        None => "Request failed"@,
    };
    if line.len() > 500 {
        line.take(500)
    } else {
        line
    }
}

/// A tool marked failed with `msg` where it was still active.
pub open spec fn fail_tool(t: ToolV, msg: Seq<char>) -> ToolV {
    if t.state == ToolState::Active {
        ToolV { state: ToolState::Failed, error: Some(msg), ..t }
    } else {
        t
    }
}

/// An entry with each of its tools that was still active marked failed.
pub open spec fn fail_item(it: ItemV, msg: Seq<char>) -> ItemV {
    match it {
        ItemV::Tool(t) => ItemV::Tool(fail_tool(t, msg)),
        ItemV::Exploration(ts) => ItemV::Exploration(ts.map_values(|t: ToolV| fail_tool(t, msg))),
        _ => it,
    }
}

/// An entry holds a tool that is still active.
pub open spec fn has_active(it: ItemV) -> bool {
    match it {
        ItemV::Tool(t) => t.state == ToolState::Active,
        ItemV::Exploration(ts) => exists|j: int| 0 <= j < ts.len() && #[trigger] ts[j].state
            == ToolState::Active,
        _ => false,
    }
}

proof fn lemma_newline_index(s: Seq<char>, k: int)
    requires
        0 <= k <= s.len(),
        forall|j: int| 0 <= j < k ==> s[j] != '\n',
        k < s.len() ==> s[k] == '\n',
    ensures
        newline_index(s) == (if k < s.len() {
            Some(k)
        } else {
            None::<int>
        }),
    decreases k,
{
    if k > 0 {
        assert forall|j: int| 0 <= j < k - 1 implies s.drop_first()[j] != '\n' by {
            assert(s.drop_first()[j] == s[j + 1]);
        }
        lemma_newline_index(s.drop_first(), k - 1);
    }
}

/// What a failed tool shows of `error`.
fn failure_text(error: &str) -> (m: String)
    ensures
        m@ == failure_message(error@),
{
    let v = chars_of(error);
    let n = v.len();
    let mut start: usize = 0;
    assert(v@.skip(0) =~= v@);
    loop
        invariant
            start <= n,
            n == v@.len(),
            v@ == error@,
            first_nonblank_line(v@) == first_nonblank_line(v@.skip(start as int)),
        decreases n - start,
    {
        let mut k = start;
        while k < n && v[k] != '\n'
            invariant
                start <= k <= n,
                n == v@.len(),
                forall|j: int| start <= j < k ==> v@[j] != '\n',
            decreases n - k,
        {
            k = k + 1;
        }
        let ghost r = v@.skip(start as int);
        proof {
            assert forall|j: int| 0 <= j < k - start implies r[j] != '\n' by {
                assert(r[j] == v@[j + start]);
            }
            if k < n {
                assert(r[k - start] == v@[k as int]);
            }
            lemma_newline_index(r, k - start);
            assert(r.take(k - start) =~= v@.subrange(start as int, k as int));
            if k == n {
                assert(r =~= v@.subrange(start as int, k as int));
            } else {
                assert(r.skip(k - start + 1) =~= v@.skip(k + 1));
            }
        }
        let (a, b) = trim_range(&v, start, k);
        if a < b {
            let end = if b - a > 500 {
                a + 500
            } else {
                b
            };
            let m = string_of(&v, a, end);
            assert(m@ =~= failure_message(error@));
            return m;
        }
        if k == n {
            proof {
                reveal_strlit("Request failed");
            }
            return String::from_str("Request failed");
        }
        start = k + 1;
    }
}

fn fail_tool_in_place(tool: &mut ToolActivity, msg: &String) -> (marked: bool)
    ensures
        final(tool)@ == fail_tool(old(tool)@, msg@),
        marked == (old(tool).state == ToolState::Active),
{
    if tool.state == ToolState::Active {
        tool.state = ToolState::Failed;
        tool.error = Some(msg.clone());
        true
    } else {
        false
    }
}

fn fail_item_in_place(item: &mut TranscriptItem, msg: &String) -> (marked: bool)
    ensures
        final(item)@ == fail_item(old(item)@, msg@),
        marked == has_active(old(item)@),
{
    broadcast use group_views;

    match item {
        TranscriptItem::Tool(tool) => fail_tool_in_place(tool, msg),
        TranscriptItem::Exploration(tools) => {
            let ghost orig = tools_view(tools@);
            let mut marked = false;
            let mut j: usize = 0;
            while j < tools.len()
                invariant
                    j <= tools.len(),
                    orig.len() == tools.len(),
                    forall|k: int| 0 <= k < j ==> #[trigger] tools_view(tools@)[k] == fail_tool(
                        orig[k],
                        msg@,
                    ),
                    forall|k: int| j <= k < tools.len() ==> #[trigger] tools_view(tools@)[k]
                        == orig[k],
                    marked == exists|k: int| 0 <= k < j && #[trigger] orig[k].state
                        == ToolState::Active,
                decreases tools.len() - j,
            {
                let ghost before = tools_view(tools@);
                let m = fail_tool_in_place(&mut tools[j], msg);
                assert(tools_view(tools@) == before.update(j as int, fail_tool(before[j as int], msg@)));
                marked = marked || m;
                j = j + 1;
            }
            assert(tools_view(tools@) =~= orig.map_values(|t: ToolV| fail_tool(t, msg@)));
            marked
        },
        _ => false,
    }
}

/// The transcript with every tool that was still active marked failed, with
/// what `error` says.
pub open spec fn fail_all(items: Seq<ItemV>, error: Seq<char>) -> Seq<ItemV> {
    items.map_values(|it: ItemV| fail_item(it, failure_message(error)))
}

/// Some entry holds a tool that is still active.
pub open spec fn any_active(items: Seq<ItemV>) -> bool {
    exists|i: int| 0 <= i < items.len() && #[trigger] has_active(items[i])
}

/// Where no tool is active, marking the active ones failed changes nothing.
pub proof fn lemma_fail_all_idle(items: Seq<ItemV>, error: Seq<char>)
    requires
        !any_active(items),
    ensures
        fail_all(items, error) == items,
{
    let msg = failure_message(error);
    assert forall|i: int| 0 <= i < items.len() implies #[trigger] fail_item(items[i], msg)
        == items[i] by {
        assert(!has_active(items[i]));
        match items[i] {
            ItemV::Exploration(ts) => {
                assert(ts.map_values(|t: ToolV| fail_tool(t, msg)) =~= ts);
            },
            _ => {},
        }
    }
    assert(fail_all(items, error) =~= items);
}

/// Marks every tool that is still active failed, with what `error` says;
/// true where there was one.
pub fn fail_active_tools(transcript: &mut Vec<TranscriptItem>, error: &str) -> (marked: bool)
    ensures
        items_view(final(transcript)@) == fail_all(items_view(old(transcript)@), error@),
        marked == any_active(items_view(old(transcript)@)),
{
    broadcast use group_views;

    let msg = failure_text(error);
    let ghost orig = items_view(transcript@);
    let mut marked = false;
    let mut i: usize = 0;
    while i < transcript.len()
        invariant
            i <= transcript.len(),
            orig.len() == transcript.len(),
            msg@ == failure_message(error@),
            forall|k: int| 0 <= k < i ==> #[trigger] items_view(transcript@)[k] == fail_item(
                orig[k],
                msg@,
            ),
            forall|k: int| i <= k < transcript.len() ==> #[trigger] items_view(transcript@)[k]
                == orig[k],
            marked == exists|k: int| 0 <= k < i && #[trigger] has_active(orig[k]),
        decreases transcript.len() - i,
    {
        let ghost before = items_view(transcript@);
        let m = fail_item_in_place(&mut transcript[i], &msg);
        assert(items_view(transcript@) == before.update(i as int, fail_item(before[i as int], msg@)));
        marked = marked || m;
        i = i + 1;
    }
    assert(items_view(transcript@) =~= orig.map_values(|it: ItemV| fail_item(it, msg@)));
    marked
}

/// The tool of a shell command that the user ran.
pub open spec fn shell_tool(id: Seq<char>, command: Seq<char>) -> ToolV {
    ToolV {
        id,
        kind: ToolKind::Bash,
        summary: command,
        state: ToolState::Active,
        error: None,
        detail: None,
        added: None,
        removed: None,
        direct_shell: true,
        output: Seq::<char>::empty(),
        highlighted_html: None,
    }
}

/// Adds the tool of a shell command that the user ran; its id is `shell-`
/// and the length of the transcript before.
pub fn push_shell(transcript: &mut Vec<TranscriptItem>, command: &str) -> (id: String)
    ensures
        id@ == "shell-"@ + decimal(old(transcript)@.len()),
        items_view(final(transcript)@) == items_view(old(transcript)@).push(
            ItemV::Tool(shell_tool(id@, command@)),
        ),
{
    broadcast use group_views;

    let mut id = String::from_str("shell-");
    push_decimal(&mut id, transcript.len() as u64);
    transcript.push(
        TranscriptItem::Tool(
            ToolActivity {
                id: id.clone(),
                kind: ToolKind::Bash,
                summary: String::from_str(command),
                state: ToolState::Active,
                error: None,
                detail: None,
                added: None,
                removed: None,
                direct_shell: true,
                output: String::new(),
                highlighted_html: None,
            },
        ),
    );
    id
}

/// A shell tool once the command has settled.
pub open spec fn settle_tool(
    t: ToolV,
    state: ToolState,
    error: Option<Seq<char>>,
    output: Option<Seq<char>>,
    highlighted_html: Option<Seq<char>>,
) -> ToolV {
    ToolV {
        state,
        error,
        output: match output {
            Some(o) => o,
            None => t.output,
        },
        highlighted_html,
        ..t
    }
}

/// The transcript with the latest tool with `id` settled.
pub open spec fn settle(
    items: Seq<ItemV>,
    id: Seq<char>,
    state: ToolState,
    error: Option<Seq<char>>,
    output: Option<Seq<char>>,
    highlighted_html: Option<Seq<char>>,
) -> Seq<ItemV> {
    match locate(items, id) {
        Some(loc) => set_tool(
            items,
            loc,
            settle_tool(tool_at(items, loc), state, error, output, highlighted_html),
        ),
        None => items,
    }
}

/// Settles the latest tool with `id`: its state, error and highlighted
/// output, and its output where one is given.
pub fn update_shell(
    transcript: &mut Vec<TranscriptItem>,
    id: &str,
    state: ToolState,
    error: Option<String>,
    output: Option<String>,
    highlighted_html: Option<String>,
)
    ensures
        items_view(final(transcript)@) == settle(
            items_view(old(transcript)@),
            id@,
            state,
            error.deep_view(),
            output.deep_view(),
            highlighted_html.deep_view(),
        ),
{
    proof {
        lemma_locate_valid(items_view(transcript@), id@);
    }
    match locate_tool(transcript, id) {
        Some(loc) => {
            let tool = tool_mut(transcript, loc);
            tool.state = state;
            tool.error = error;
            match output {
                Some(o) => {
                    tool.output = o;
                },
                None => {},
            }
            tool.highlighted_html = highlighted_html;
        },
        None => {},
    }
}

} // verus!
