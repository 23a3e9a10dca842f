use vstd::prelude::*;

use crate::args::ArgV;
use crate::pi::{classify, prompt_timeout, EventV, RequestV};
use crate::render::{bash_result, escape, escape_char, notices_of, with_notice, with_notices};
use crate::session::finished;
use crate::text::{
    all_digits, decimal, digit_char, digits_value, is_ws, starts_with, trim, trim_end,
    trim_start,
};
use crate::pi::{BashOutcome, RequestOutcome};
use crate::tools::{detail_of, kind_of, label_of, ContentV, DetailV, ToolKind, ToolState, ToolV};
use crate::transcript::{
    any_active, apply_event, assistant_text, drop_empty_assistant, fail_all, fail_item,
    fail_tool, failure_message, has_active, last_thinking, last_tool, lemma_last_thinking_valid,
    lemma_last_tool_valid,
    lemma_locate_valid, last_empty_thinking, locate, new_tool, set_tool, settle, shell_tool, tool_at,
    ItemV,
};

verus! {

/// Streamed text does not depend on how it was cut into pieces: two pieces
/// in a row leave the transcript as their concatenation in one does.
pub proof fn law_text_deltas_concatenate(
    items: Seq<ItemV>,
    d1: Seq<char>,
    d2: Seq<char>,
    shell: Option<Seq<char>>,
)
    ensures
        apply_event(apply_event(items, EventV::TextDelta(d1), shell), EventV::TextDelta(d2), shell)
            == apply_event(items, EventV::TextDelta(d1 + d2), shell),
{
    let once = apply_event(items, EventV::TextDelta(d1), shell);
    if items.len() > 0 && assistant_text(items.last()) is Some {
        let t = assistant_text(items.last())->0;
        assert(t + d1 + d2 =~= t + (d1 + d2));
        assert(once.last() == ItemV::Assistant(t + d1));
        assert(once.update(once.len() - 1, ItemV::Assistant(t + d1 + d2)) =~= items.update(
            items.len() - 1,
            ItemV::Assistant(t + (d1 + d2)),
        ));
    } else {
        assert(once.last() == ItemV::Assistant(d1));
        assert(once.update(once.len() - 1, ItemV::Assistant(d1 + d2)) =~= items.push(
            ItemV::Assistant(d1 + d2),
        ));
    }
}

proof fn lemma_last_thinking_is(items: Seq<ItemV>, id: Seq<char>, i: int)
    requires
        0 <= i < items.len(),
        items[i] matches ItemV::Thinking { id: tid, .. } && tid == id,
        forall|j: int|
            i < j < items.len() ==> !(#[trigger] items[j] matches ItemV::Thinking { id: tid, .. }
                && tid == id),
    ensures
        last_thinking(items, id) == Some(i),
    decreases items.len(),
{
    if i < items.len() - 1 {
        assert(items.last() == items[items.len() - 1]);
        lemma_last_thinking_is(items.drop_last(), id, i);
    }
}

proof fn lemma_last_thinking_after(items: Seq<ItemV>, id: Seq<char>)
    ensures
        last_thinking(items, id) matches Some(i) ==> forall|j: int|
            i < j < items.len() ==> !(#[trigger] items[j] matches ItemV::Thinking { id: tid, .. }
                && tid == id),
    decreases items.len(),
{
    if items.len() > 0 {
        lemma_last_thinking_after(items.drop_last(), id);
        lemma_last_thinking_valid(items, id);
        if let Some(i) = last_thinking(items, id) {
            assert forall|j: int| i < j < items.len() implies !(#[trigger] items[j] matches ItemV::Thinking {
                id: tid,
                ..
            } && tid == id) by {
                if j < items.len() - 1 {
                    assert(items[j] == items.drop_last()[j]);
                }
            }
        }
    }
}

/// Streamed thinking does not depend on how it was cut into pieces either.
pub proof fn law_thinking_deltas_concatenate(
    items: Seq<ItemV>,
    id: Seq<char>,
    d1: Seq<char>,
    d2: Seq<char>,
    shell: Option<Seq<char>>,
)
    ensures
        apply_event(
            apply_event(items, EventV::ThinkingDelta { id, delta: d1 }, shell),
            EventV::ThinkingDelta { id, delta: d2 },
            shell,
        ) == apply_event(items, EventV::ThinkingDelta { id, delta: d1 + d2 }, shell),
{
    let once = apply_event(items, EventV::ThinkingDelta { id, delta: d1 }, shell);
    lemma_last_thinking_valid(items, id);
    lemma_last_thinking_after(items, id);
    match last_thinking(items, id) {
        Some(i) => {
            match items[i] {
                ItemV::Thinking { id: tid, text } => {
                    assert forall|j: int| i < j < once.len() implies !(#[trigger] once[j] matches ItemV::Thinking {
                        id: t2,
                        ..
                    } && t2 == id) by {
                        assert(once[j] == items[j]);
                    }
                    lemma_last_thinking_is(once, id, i);
                    assert(text + d1 + d2 =~= text + (d1 + d2));
                    assert(once.update(i, ItemV::Thinking { id: tid, text: text + d1 + d2 })
                        =~= items.update(i, ItemV::Thinking { id: tid, text: text + (d1 + d2) }));
                },
                _ => {},
            }
        },
        None => {
            lemma_last_thinking_is(once, id, items.len() as int);
            assert(once.update(
                items.len() as int,
                ItemV::Thinking { id, text: d1 + d2 },
            ) =~= items.push(ItemV::Thinking { id, text: d1 + d2 }));
        },
    }
}

/// Once a request has failed, no tool is left running.
pub proof fn law_no_tool_runs_after_failure(items: Seq<ItemV>, error: Seq<char>)
    ensures
        !any_active(fail_all(items, error)),
{
    let msg = failure_message(error);
    let r = fail_all(items, error);
    assert forall|i: int| 0 <= i < r.len() implies !#[trigger] has_active(r[i]) by {
        assert(r[i] == fail_item(items[i], msg));
        match items[i] {
            ItemV::Exploration(ts) => {
                let fs = ts.map_values(|t: ToolV| fail_tool(t, msg));
                assert forall|j: int| 0 <= j < fs.len() implies #[trigger] fs[j].state
                    != crate::tools::ToolState::Active by {
                    assert(fs[j] == fail_tool(ts[j], msg));
                }
            },
            _ => {},
        }
    }
}

/// A request that failed without a shell command of the user leaves no
/// tool running, and shows its failure: on the tools that were running, or
/// else as an error entry at the end.
pub proof fn law_failures_stay_visible(items: Seq<ItemV>, error: String, received_output: bool)
    ensures
        ({
            let r = finished(items, None, Err(error), received_output);
            &&& !any_active(r)
            &&& any_active(items) || r == items.push(ItemV::Error("Error: "@ + error@))
        }),
{
    law_no_tool_runs_after_failure(items, error@);
    let r = finished(items, None, Err(error), received_output);
    if !any_active(items) {
        assert forall|i: int| 0 <= i < r.len() implies !#[trigger] has_active(r[i]) by {
            if i < items.len() {
                assert(r[i] == items[i]);
            }
        }
    }
}

/// The tool of a shell command that the user ran gets the output that the
/// bridge streams for it.
pub proof fn law_shell_output_streams_to_its_tool(
    items: Seq<ItemV>,
    id: Seq<char>,
    command: Seq<char>,
    delta: Seq<char>,
)
    ensures
        apply_event(
            items.push(ItemV::Tool(shell_tool(id, command))),
            EventV::BashDelta(delta),
            Some(id),
        ) == items.push(ItemV::Tool(ToolV { output: delta, ..shell_tool(id, command) })),
{
    let base = items.push(ItemV::Tool(shell_tool(id, command)));
    assert(base.last() == ItemV::Tool(shell_tool(id, command)));
    assert(locate(base, id) == Some((items.len() as int, None::<int>)));
    assert(Seq::<char>::empty() + delta =~= delta);
    assert(base.update(
        items.len() as int,
        ItemV::Tool(ToolV { output: delta, ..shell_tool(id, command) }),
    ) =~= items.push(ItemV::Tool(ToolV { output: delta, ..shell_tool(id, command) })));
}

/// Exploration tools that start one after another share one group.
pub proof fn law_exploration_tools_share_a_group(
    items: Seq<ItemV>,
    tools: Seq<ToolV>,
    id: Seq<char>,
    name: Seq<char>,
    args: Seq<(Seq<char>, ArgV)>,
    shell: Option<Seq<char>>,
)
    requires
        items.len() > 0,
        items.last() == ItemV::Exploration(tools),
        kind_of(name) == ToolKind::Exploration,
    ensures
        apply_event(items, EventV::ToolStart { id, name, args }, shell) == items.update(
            items.len() - 1,
            ItemV::Exploration(tools.push(new_tool(id, name, args))),
        ),
{
    assert(drop_empty_assistant(items) == items);
}

/// The end of a tool changes that tool alone, the latest one with its id;
/// what the tool printed goes to its detail page, not into the transcript.
pub proof fn law_tool_end_changes_only_its_tool(
    items: Seq<ItemV>,
    id: Seq<char>,
    is_error: bool,
    error: Option<Seq<char>>,
    output: Option<Seq<char>>,
    highlighted_html: Option<Seq<char>>,
    added: Option<u64>,
    removed: Option<u64>,
    shell: Option<Seq<char>>,
)
    ensures
        ({
            let r = apply_event(
                items,
                EventV::ToolEnd { id, is_error, error, output, highlighted_html, added, removed },
                shell,
            );
            &&& r.len() == items.len()
            &&& match locate(items, id) {
                Some(loc) => {
                    &&& forall|i: int| 0 <= i < items.len() && i != loc.0 ==> #[trigger] r[i]
                        == items[i]
                    &&& tool_at(r, loc).id == id
                    &&& tool_at(r, loc).output == tool_at(items, loc).output
                    &&& tool_at(r, loc).highlighted_html == tool_at(items, loc).highlighted_html
                    &&& tool_at(r, loc).state == if is_error {
                        crate::tools::ToolState::Failed
                    } else {
                        crate::tools::ToolState::Complete
                    }
                },
                None => r == items,
            }
        }),
{
    lemma_locate_valid(items, id);
}

/// A shell command that the user runs is trimmed and never blank; a prompt
/// is the trimmed input.
pub proof fn law_classified_input_is_trimmed(input: Seq<char>)
    ensures
        match classify(input) {
            RequestV::Bash { command, .. } => command.len() > 0 && trim(command) == command,
            RequestV::Prompt(m) => m == trim(input),
        },
{
    if let RequestV::Bash { command, .. } = classify(input) {
        let t = trim(input);
        let c = if crate::text::starts_with(t, seq!['!', '!']) {
            t.skip(2)
        } else {
            t.skip(1)
        };
        lemma_trim_idempotent(c);
    }
}

proof fn lemma_trim_start_head(s: Seq<char>)
    ensures
        trim_start(s).len() > 0 ==> !is_ws(trim_start(s)[0]),
        trim_start(s).len() <= s.len(),
        trim_start(s) == s.skip(s.len() - trim_start(s).len()),
    decreases s.len(),
{
    if s.len() > 0 && is_ws(s[0]) {
        lemma_trim_start_head(s.drop_first());
        assert(s.drop_first().skip(s.drop_first().len() - trim_start(s).len()) =~= s.skip(
            s.len() - trim_start(s).len(),
        ));
    } else {
        assert(s.skip(0) =~= s);
    }
}

proof fn lemma_trim_end_tail(s: Seq<char>)
    ensures
        trim_end(s).len() > 0 ==> !is_ws(trim_end(s).last()),
        trim_end(s).len() <= s.len(),
        trim_end(s) == s.take(trim_end(s).len() as int),
    decreases s.len(),
{
    if s.len() > 0 && is_ws(s.last()) {
        lemma_trim_end_tail(s.drop_last());
        assert(s.drop_last().take(trim_end(s).len() as int) =~= s.take(trim_end(s).len() as int));
    } else {
        assert(s.take(s.len() as int) =~= s);
    }
}

/// Trimming twice is trimming once.
pub proof fn lemma_trim_idempotent(s: Seq<char>)
    ensures
        trim(trim(s)) == trim(s),
{
    let u = trim_start(s);
    let t = trim_end(u);
    lemma_trim_start_head(s);
    lemma_trim_end_tail(u);
    if t.len() > 0 {
        assert(t[0] == u[0]);
        assert(trim_start(t) == t);
        assert(trim_end(t) == t);
    } else {
        assert(trim_start(t) == t);
        assert(trim_end(t) == t);
    }
}

/// HTML that `escape_html` writes holds no `<` and no `>`.
pub proof fn law_escaped_html_has_no_angle_brackets(s: Seq<char>)
    ensures
        forall|i: int| 0 <= i < escape(s).len() ==> #[trigger] escape(s)[i] != '<' && escape(s)[i]
            != '>',
    decreases s.len(),
{
    reveal_strlit("&amp;");
    reveal_strlit("&lt;");
    reveal_strlit("&gt;");
    if s.len() > 0 {
        law_escaped_html_has_no_angle_brackets(s.drop_last());
        let a = escape(s.drop_last());
        let b = escape_char(s.last());
        assert forall|i: int| 0 <= i < escape(s).len() implies #[trigger] escape(s)[i] != '<'
            && escape(s)[i] != '>' by {
            if i < a.len() {
                assert(escape(s)[i] == a[i]);
            } else {
                assert(escape(s)[i] == b[i - a.len()]);
            }
        }
    }
}

proof fn lemma_decimal_digits(n: nat)
    ensures
        decimal(n).len() > 0,
        all_digits(decimal(n)),
        digits_value(decimal(n)) == n,
    decreases n,
{
    if n >= 10 {
        lemma_decimal_digits(n / 10);
        let d = decimal(n);
        assert(d.drop_last() == decimal(n / 10));
        assert(d.last() == digit_char(n % 10));
        assert((digit_char(n % 10) as u32) == n % 10 + 48);
        assert(n == (n / 10) * 10 + n % 10);
        assert(digits_value(d) == digits_value(d.drop_last()) * 10 + ((d.last() as u32) - 48) as nat);
        assert forall|i: int| 0 <= i < d.len() implies '0' <= #[trigger] d[i] <= '9' by {
            if i < d.len() - 1 {
                assert(d[i] == decimal(n / 10)[i]);
            }
        }
    } else {
        let d = decimal(n);
        assert(d.drop_last() =~= Seq::<char>::empty());
        assert((digit_char(n) as u32) == n + 48);
        assert(digits_value(d) == digits_value(d.drop_last()) * 10 + ((d.last() as u32) - 48) as nat);
    }
}

/// A timeout setting written as the decimal numeral of a positive number is
/// read back as that number.
pub proof fn law_timeout_setting_reads_back(n: u64)
    requires
        n > 0,
    ensures
        prompt_timeout(Some(decimal(n as nat))) == n,
{
    lemma_decimal_digits(n as nat);
    assert(decimal(n as nat)[0] != '+');
}

proof fn lemma_last_tool_after(ts: Seq<ToolV>, id: Seq<char>)
    ensures
        last_tool(ts, id) matches Some(j) ==> forall|k: int| j < k < ts.len() ==> #[trigger] ts[k].id
            != id,
    decreases ts.len(),
{
    if ts.len() > 0 {
        lemma_last_tool_after(ts.drop_last(), id);
        lemma_last_tool_valid(ts, id);
        if let Some(j) = last_tool(ts, id) {
            assert forall|k: int| j < k < ts.len() implies #[trigger] ts[k].id != id by {
                if k < ts.len() - 1 {
                    assert(ts[k] == ts.drop_last()[k]);
                }
            }
        }
    }
}

proof fn lemma_last_tool_is(ts: Seq<ToolV>, id: Seq<char>, j: int)
    requires
        0 <= j < ts.len(),
        ts[j].id == id,
        forall|k: int| j < k < ts.len() ==> #[trigger] ts[k].id != id,
    ensures
        last_tool(ts, id) == Some(j),
    decreases ts.len(),
{
    if j < ts.len() - 1 {
        assert(ts.last() == ts[ts.len() - 1]);
        lemma_last_tool_is(ts.drop_last(), id, j);
    }
}

proof fn lemma_locate_after_set(items: Seq<ItemV>, id: Seq<char>, t: ToolV)
    requires
        locate(items, id) is Some,
        t.id == id,
    ensures
        locate(set_tool(items, locate(items, id)->0, t), id) == locate(items, id),
    decreases items.len(),
{
    let loc = locate(items, id)->0;
    lemma_locate_valid(items, id);
    lemma_locate_valid(items.drop_last(), id);
    let r = set_tool(items, loc, t);
    if loc.0 == items.len() - 1 {
        match items.last() {
            ItemV::Tool(_) => {
                assert(r.last() == ItemV::Tool(t));
            },
            ItemV::Exploration(ts) => {
                let j = loc.1->0;
                lemma_last_tool_after(ts, id);
                let ts2 = ts.update(j, t);
                assert forall|k: int| j < k < ts2.len() implies #[trigger] ts2[k].id != id by {
                    assert(ts2[k] == ts[k]);
                }
                lemma_last_tool_is(ts2, id, j);
                assert(r.last() == ItemV::Exploration(ts2));
            },
            _ => {},
        }
    } else {
        let rest = items.drop_last();
        assert(locate(rest, id) == locate(items, id));
        lemma_locate_after_set(rest, id, t);
        assert(r.drop_last() =~= set_tool(rest, loc, t));
        assert(r.last() == items.last());
    }
}

/// The output of a shell command does not depend on how the bridge cut it
/// into pieces.
pub proof fn law_shell_deltas_concatenate(
    items: Seq<ItemV>,
    d1: Seq<char>,
    d2: Seq<char>,
    shell: Option<Seq<char>>,
)
    ensures
        apply_event(apply_event(items, EventV::BashDelta(d1), shell), EventV::BashDelta(d2), shell)
            == apply_event(items, EventV::BashDelta(d1 + d2), shell),
{
    if let Some(sid) = shell {
        if let Some(loc) = locate(items, sid) {
            lemma_locate_valid(items, sid);
            let t = tool_at(items, loc);
            let t1 = ToolV { output: t.output + d1, ..t };
            let once = set_tool(items, loc, t1);
            lemma_locate_after_set(items, sid, t1);
            assert(tool_at(once, loc) == t1);
            assert(t.output + d1 + d2 =~= t.output + (d1 + d2));
            let t2 = ToolV { output: t.output + (d1 + d2), ..t };
            match (items[loc.0], loc.1) {
                (ItemV::Exploration(ts), Some(j)) => {
                    assert(ts.update(j, t1).update(j, t2) =~= ts.update(j, t2));
                },
                _ => {},
            }
            assert(set_tool(once, loc, t2) =~= set_tool(items, loc, t2));
        }
    }
}

/// What the transcript shows of a finished shell command begins with all
/// that it printed, and ends a line where a notice follows it.
pub proof fn law_bash_result_keeps_output(o: crate::pi::BashOutcome)
    ensures
        o.output@.len() > 0 ==> starts_with(bash_result(o).0, o.output@),
        notices_of(o.cancelled, o.exit_code, o.truncated, o.full_output_path.deep_view()).len() > 0
            ==> bash_result(o).0.last() == '\n',
{
    let rendered = if o.output@.len() == 0 {
        "(no output)"@
    } else {
        o.output@
    };
    let html = if o.output@.len() == 0 {
        None
    } else {
        o.highlighted_html.deep_view()
    };
    let ns = notices_of(o.cancelled, o.exit_code, o.truncated, o.full_output_path.deep_view());
    lemma_with_notices_prefix(rendered, html, ns);
    if o.output@.len() > 0 {
        assert(rendered.take(rendered.len() as int) =~= rendered);
    }
}

proof fn lemma_with_notices_prefix(
    rendered: Seq<char>,
    html: Option<Seq<char>>,
    ns: Seq<Seq<char>>,
)
    ensures
        starts_with(with_notices(rendered, html, ns).0, rendered),
        ns.len() > 0 ==> with_notices(rendered, html, ns).0.len() > 0
            && with_notices(rendered, html, ns).0.last() == '\n',
    decreases ns.len(),
{
    let full = with_notices(rendered, html, ns).0;
    if ns.len() == 0 {
        assert(rendered.take(rendered.len() as int) =~= rendered);
    } else {
        let next = with_notice(rendered, html, ns[0]);
        lemma_with_notices_prefix(next.0, next.1, ns.drop_first());
        assert(next.0.take(rendered.len() as int) =~= rendered);
        assert(full.take(rendered.len() as int) =~= full.take(next.0.len() as int).take(
            rendered.len() as int,
        ));
        if ns.drop_first().len() == 0 {
            assert(full == next.0);
        }
    }
}

/// An entry that is an exploration group holds at least one tool, and
/// exploration tools only.
pub open spec fn group_ok(it: ItemV) -> bool {
    match it {
        ItemV::Exploration(ts) => ts.len() > 0 && forall|j: int|
            0 <= j < ts.len() ==> (#[trigger] ts[j]).kind == ToolKind::Exploration,
        _ => true,
    }
}

/// Every exploration group of the transcript is well formed.
pub open spec fn groups_well_formed(items: Seq<ItemV>) -> bool {
    forall|i: int| 0 <= i < items.len() ==> #[trigger] group_ok(items[i])
}

/// `new` is what an event has made of the entry `old`: the same kind of
/// entry about the same thing; assistant text only grows, a thinking entry
/// keeps its id, a tool its id and kind, and a group keeps its tools, in
/// order, and may gain more after them.
pub open spec fn evolves(old: ItemV, new: ItemV) -> bool {
    match (old, new) {
        (ItemV::User(a), ItemV::User(b)) => a == b,
        (ItemV::Error(a), ItemV::Error(b)) => a == b,
        (ItemV::Assistant(a), ItemV::Assistant(b)) => starts_with(b, a),
        (ItemV::Thinking { id: a, .. }, ItemV::Thinking { id: b, .. }) => a == b,
        (ItemV::Tool(a), ItemV::Tool(b)) => a.id == b.id && a.kind == b.kind,
        (ItemV::Exploration(a), ItemV::Exploration(b)) => a.len() <= b.len() && forall|j: int|
            0 <= j < a.len() ==> (#[trigger] b[j]).id == a[j].id && b[j].kind == a[j].kind,
        _ => false,
    }
}

/// `r` carries each entry of `base` at its place, and at most one entry
/// more, at the end.
pub open spec fn carried(base: Seq<ItemV>, r: Seq<ItemV>) -> bool {
    &&& base.len() <= r.len() <= base.len() + 1
    &&& forall|i: int| 0 <= i < base.len() ==> #[trigger] evolves(base[i], r[i])
}

/// `r` carries the entries of `items`, but for a last assistant entry that
/// was still empty or one thinking entry that was still empty.
pub open spec fn carried_over(items: Seq<ItemV>, r: Seq<ItemV>) -> bool {
    ||| carried(items, r)
    ||| items.len() > 0 && assistant_text(items.last()) == Some(Seq::<char>::empty()) && carried(
        items.drop_last(),
        r,
    )
    ||| exists|i: int|
        0 <= i < items.len() && (items[i] matches ItemV::Thinking { text, .. } && text.len() == 0)
            && #[trigger] carried(items.remove(i), r)
}

proof fn lemma_evolves_refl(x: ItemV)
    ensures
        evolves(x, x),
{
    if let ItemV::Assistant(a) = x {
        assert(a.take(a.len() as int) =~= a);
    }
}

proof fn lemma_carried_same(items: Seq<ItemV>)
    ensures
        carried(items, items),
{
    assert forall|i: int| 0 <= i < items.len() implies #[trigger] evolves(items[i], items[i]) by {
        lemma_evolves_refl(items[i]);
    }
}

proof fn lemma_carried_push(items: Seq<ItemV>, x: ItemV)
    ensures
        carried(items, items.push(x)),
{
    assert forall|i: int| 0 <= i < items.len() implies #[trigger] evolves(
        items[i],
        items.push(x)[i],
    ) by {
        lemma_evolves_refl(items[i]);
    }
}

proof fn lemma_carried_update(items: Seq<ItemV>, k: int, x: ItemV)
    requires
        0 <= k < items.len(),
        evolves(items[k], x),
    ensures
        carried(items, items.update(k, x)),
{
    assert forall|i: int| 0 <= i < items.len() implies #[trigger] evolves(
        items[i],
        items.update(k, x)[i],
    ) by {
        if i != k {
            lemma_evolves_refl(items[i]);
        }
    }
}

proof fn lemma_well_formed_update(items: Seq<ItemV>, k: int, x: ItemV)
    requires
        0 <= k < items.len(),
        groups_well_formed(items),
        group_ok(x),
    ensures
        groups_well_formed(items.update(k, x)),
{
    assert forall|i: int| 0 <= i < items.len() implies #[trigger] group_ok(items.update(k, x)[i]) by {
        if i != k {
            assert(group_ok(items[i]));
        }
    }
}

proof fn lemma_well_formed_push(items: Seq<ItemV>, x: ItemV)
    requires
        groups_well_formed(items),
        group_ok(x),
    ensures
        groups_well_formed(items.push(x)),
{
    assert forall|i: int| 0 <= i < items.len() + 1 implies #[trigger] group_ok(items.push(x)[i]) by {
        if i < items.len() {
            assert(group_ok(items[i]));
        }
    }
}

proof fn lemma_well_formed_drop(items: Seq<ItemV>)
    requires
        groups_well_formed(items),
    ensures
        groups_well_formed(drop_empty_assistant(items)),
        drop_empty_assistant(items) == items || (items.len() > 0 && assistant_text(items.last())
            == Some(Seq::<char>::empty()) && drop_empty_assistant(items) == items.drop_last()),
{
    let b = drop_empty_assistant(items);
    assert forall|i: int| 0 <= i < b.len() implies #[trigger] group_ok(b[i]) by {
        assert(b[i] == items[i]);
    }
}

/// A tool replaced by one with the same id and kind keeps the transcript's
/// groups well formed and carries the transcript.
proof fn lemma_set_tool_carried(items: Seq<ItemV>, id: Seq<char>, t: ToolV)
    requires
        locate(items, id) is Some,
        t.id == tool_at(items, locate(items, id)->0).id,
        t.kind == tool_at(items, locate(items, id)->0).kind,
        groups_well_formed(items),
    ensures
        carried(items, set_tool(items, locate(items, id)->0, t)),
        groups_well_formed(set_tool(items, locate(items, id)->0, t)),
{
    let loc = locate(items, id)->0;
    lemma_locate_valid(items, id);
    match (items[loc.0], loc.1) {
        (ItemV::Tool(old), None) => {
            lemma_carried_update(items, loc.0, ItemV::Tool(t));
            lemma_well_formed_update(items, loc.0, ItemV::Tool(t));
        },
        (ItemV::Exploration(ts), Some(j)) => {
            let ts2 = ts.update(j, t);
            assert(group_ok(items[loc.0]));
            assert forall|k: int| 0 <= k < ts.len() implies (#[trigger] ts2[k]).id == ts[k].id
                && ts2[k].kind == ts[k].kind by {}
            lemma_carried_update(items, loc.0, ItemV::Exploration(ts2));
            assert forall|k: int| 0 <= k < ts2.len() implies (#[trigger] ts2[k]).kind
                == ToolKind::Exploration by {
                assert(ts[k].kind == ToolKind::Exploration);
            }
            lemma_well_formed_update(items, loc.0, ItemV::Exploration(ts2));
        },
        _ => {},
    }
}

/// Whatever event of a request comes, the transcript keeps its exploration
/// groups non-empty and made of exploration tools only; and it carries its
/// entries in their order, each at its place, but for a last assistant
/// entry or a thinking entry that was still empty, with at most one entry
/// added, at the end.
pub proof fn law_events_keep_the_transcript_in_shape(
    items: Seq<ItemV>,
    ev: EventV,
    shell: Option<Seq<char>>,
)
    requires
        groups_well_formed(items),
    ensures
        groups_well_formed(apply_event(items, ev, shell)),
        carried_over(items, apply_event(items, ev, shell)),
{
    let r = apply_event(items, ev, shell);
    match ev {
        EventV::AssistantStart => {
            lemma_carried_push(items, ItemV::Assistant(Seq::<char>::empty()));
            lemma_well_formed_push(items, ItemV::Assistant(Seq::<char>::empty()));
        },
        EventV::ThinkingStart { id } => {
            let b = drop_empty_assistant(items);
            let x = ItemV::Thinking { id, text: Seq::<char>::empty() };
            lemma_well_formed_drop(items);
            lemma_carried_push(b, x);
            lemma_well_formed_push(b, x);
        },
        EventV::ThinkingDelta { id, delta } => {
            lemma_last_thinking_valid(items, id);
            match last_thinking(items, id) {
                Some(i) => {
                    if let ItemV::Thinking { id: tid, text } = items[i] {
                        let x = ItemV::Thinking { id: tid, text: text + delta };
                        lemma_carried_update(items, i, x);
                        lemma_well_formed_update(items, i, x);
                    }
                },
                None => {
                    let x = ItemV::Thinking { id, text: delta };
                    lemma_carried_push(items, x);
                    lemma_well_formed_push(items, x);
                },
            }
        },
        EventV::ThinkingEnd { id, content } => {
            lemma_last_thinking_valid(items, id);
            if content.len() == 0 {
                match last_empty_thinking(items, id) {
                    Some(i) => {
                        let b = items.remove(i);
                        lemma_carried_same(b);
                        assert(carried(items.remove(i), r));
                        assert forall|k: int| 0 <= k < b.len() implies #[trigger] group_ok(b[k]) by {
                            if k < i {
                                assert(b[k] == items[k]);
                            } else {
                                assert(b[k] == items[k + 1]);
                            }
                        }
                    },
                    None => {
                        lemma_carried_same(items);
                    },
                }
            } else {
                match last_thinking(items, id) {
                    Some(i) => {
                        if let ItemV::Thinking { id: tid, .. } = items[i] {
                            let x = ItemV::Thinking { id: tid, text: content };
                            lemma_carried_update(items, i, x);
                            lemma_well_formed_update(items, i, x);
                        }
                    },
                    None => {
                        let x = ItemV::Thinking { id, text: content };
                        lemma_carried_push(items, x);
                        lemma_well_formed_push(items, x);
                    },
                }
            }
        },
        EventV::TextDelta(d) => {
            if items.len() > 0 && assistant_text(items.last()) is Some {
                let t = assistant_text(items.last())->0;
                let x = ItemV::Assistant(t + d);
                assert((t + d).take(t.len() as int) =~= t);
                lemma_carried_update(items, items.len() - 1, x);
                lemma_well_formed_update(items, items.len() - 1, x);
            } else {
                lemma_carried_push(items, ItemV::Assistant(d));
                lemma_well_formed_push(items, ItemV::Assistant(d));
            }
        },
        EventV::ToolStart { id, name, args } => {
            let b = drop_empty_assistant(items);
            let tool = new_tool(id, name, args);
            lemma_well_formed_drop(items);
            if tool.kind == ToolKind::Exploration {
                if b.len() > 0 && b.last() is Exploration {
                    if let ItemV::Exploration(ts) = b.last() {
                        let ts2 = ts.push(tool);
                        assert(group_ok(b[b.len() - 1]));
                        assert forall|k: int| 0 <= k < ts2.len() implies (#[trigger] ts2[k]).kind
                            == ToolKind::Exploration by {
                            if k < ts.len() {
                                assert(ts[k].kind == ToolKind::Exploration);
                            }
                        }
                        assert forall|k: int| 0 <= k < ts.len() implies (#[trigger] ts2[k]).id
                            == ts[k].id && ts2[k].kind == ts[k].kind by {}
                        lemma_carried_update(b, b.len() - 1, ItemV::Exploration(ts2));
                        lemma_well_formed_update(b, b.len() - 1, ItemV::Exploration(ts2));
                    }
                } else {
                    let x = ItemV::Exploration(seq![tool]);
                    lemma_carried_push(b, x);
                    lemma_well_formed_push(b, x);
                }
            } else {
                lemma_carried_push(b, ItemV::Tool(tool));
                lemma_well_formed_push(b, ItemV::Tool(tool));
            }
        },
        EventV::ToolEnd { id, is_error, error, output, highlighted_html, added, removed } => {
            match locate(items, id) {
                Some(loc) => {
                    let t = crate::transcript::end_tool(
                        tool_at(items, loc),
                        is_error,
                        error,
                        output,
                        highlighted_html,
                        added,
                        removed,
                    );
                    lemma_set_tool_carried(items, id, t);
                },
                None => {
                    lemma_carried_same(items);
                },
            }
        },
        EventV::BashDelta(d) => {
            match shell {
                Some(sid) => match locate(items, sid) {
                    Some(loc) => {
                        let old = tool_at(items, loc);
                        lemma_set_tool_carried(items, sid, ToolV { output: old.output + d, ..old });
                    },
                    None => {
                        lemma_carried_same(items);
                    },
                },
                None => {
                    lemma_carried_same(items);
                },
            }
        },
    }
}

proof fn lemma_tool_at_set(items: Seq<ItemV>, loc: (int, Option<int>), t: ToolV)
    requires
        crate::transcript::valid_loc(items, loc),
    ensures
        tool_at(set_tool(items, loc, t), loc) == t,
        set_tool(items, loc, t).len() == items.len(),
{
}

/// The end of a tool gives it a detail page whatever its failure flag
/// says: titled with the tool's new label, it shows the highlighted HTML
/// where that is not empty, else the output where that is not empty, and
/// there is none only where both are missing or empty. The flag decides
/// the state alone.
pub proof fn law_tool_end_keeps_its_output_openable(
    items: Seq<ItemV>,
    id: Seq<char>,
    is_error: bool,
    error: Option<Seq<char>>,
    output: Option<Seq<char>>,
    highlighted_html: Option<Seq<char>>,
    added: Option<u64>,
    removed: Option<u64>,
    shell: Option<Seq<char>>,
)
    requires
        locate(items, id) is Some,
    ensures
        ({
            let loc = locate(items, id)->0;
            let r = apply_event(
                items,
                EventV::ToolEnd { id, is_error, error, output, highlighted_html, added, removed },
                shell,
            );
            let t = tool_at(r, loc);
            &&& t.state == if is_error {
                ToolState::Failed
            } else {
                ToolState::Complete
            }
            &&& t.error == error
            &&& t.added == added
            &&& t.removed == removed
            &&& (highlighted_html matches Some(h) && h.len() > 0) ==> t.detail == Some(
                DetailV { title: label_of(t), content: ContentV::HighlightedHtml(highlighted_html->0) },
            )
            &&& (!(highlighted_html matches Some(h) && h.len() > 0) && (output matches Some(o)
                && o.len() > 0)) ==> t.detail == Some(
                DetailV { title: label_of(t), content: ContentV::Plain(output->0) },
            )
            &&& (!(highlighted_html matches Some(h) && h.len() > 0) && !(output matches Some(o)
                && o.len() > 0)) ==> t.detail is None
        }),
{
    let loc = locate(items, id)->0;
    lemma_locate_valid(items, id);
    let t = crate::transcript::end_tool(
        tool_at(items, loc),
        is_error,
        error,
        output,
        highlighted_html,
        added,
        removed,
    );
    lemma_tool_at_set(items, loc, t);
}

/// The label of a tool's row: `$ ` and the command for a shell command
/// that the user ran; for an exploration tool its summary as it is, in
/// every state; for an edit or a write that failed, `Failed to edit` or
/// `Failed to write` before the summary; for a command, `Running` while it
/// runs and `Ran` after.
pub proof fn law_tool_labels(t: ToolV)
    ensures
        t.direct_shell ==> label_of(t) == "$ "@ + t.summary,
        !t.direct_shell && t.kind == ToolKind::Exploration ==> label_of(t) == t.summary,
        !t.direct_shell && t.kind == ToolKind::Edit && t.state == ToolState::Failed ==> label_of(t)
            == "Failed to edit "@ + t.summary,
        !t.direct_shell && t.kind == ToolKind::Write && t.state == ToolState::Failed
            ==> label_of(t) == "Failed to write "@ + t.summary,
        !t.direct_shell && t.kind == ToolKind::Bash && t.state == ToolState::Active ==> label_of(t)
            == "Running "@ + t.summary,
        !t.direct_shell && t.kind == ToolKind::Bash && t.state != ToolState::Active ==> label_of(t)
            == "Ran "@ + t.summary,
{
    reveal_strlit("Failed to edit ");
    reveal_strlit("Failed to edit");
    reveal_strlit("Failed to write ");
    reveal_strlit("Failed to write");
    reveal_strlit("Running ");
    reveal_strlit("Running");
    reveal_strlit("Ran ");
    reveal_strlit("Ran");
    reveal_strlit(" ");
    assert("Failed to edit"@ + " "@ =~= "Failed to edit "@);
    assert("Failed to write"@ + " "@ =~= "Failed to write "@);
    assert("Running"@ + " "@ =~= "Running "@);
    assert("Ran"@ + " "@ =~= "Ran "@);
}

/// A detail page shows the highlighted HTML whenever there is some, whatever
/// the plain output is; the plain output only where there is no highlighted
/// HTML; and there is no page where neither is there. Its title is the one
/// given.
pub proof fn law_detail_prefers_highlighted_html(
    title: Seq<char>,
    output: Option<Seq<char>>,
    highlighted_html: Option<Seq<char>>,
)
    ensures
        (highlighted_html matches Some(h) && h.len() > 0) ==> detail_of(
            title,
            output,
            highlighted_html,
        ) == Some(DetailV { title, content: ContentV::HighlightedHtml(highlighted_html->0) }),
        (!(highlighted_html matches Some(h) && h.len() > 0) && (output matches Some(o) && o.len()
            > 0)) ==> detail_of(title, output, highlighted_html) == Some(
            DetailV { title, content: ContentV::Plain(output->0) },
        ),
        (!(highlighted_html matches Some(h) && h.len() > 0) && !(output matches Some(o) && o.len()
            > 0)) ==> detail_of(title, output, highlighted_html) is None,
{
}

/// A finished shell command of the user settles its tool: failed where it
/// was cancelled or exited with a code other than 0, complete where it
/// exited with 0 or gave no code; with what it printed and no error, and
/// the transcript keeps its length.
pub proof fn law_finished_shell_command_state(
    items: Seq<ItemV>,
    shell: Seq<char>,
    o: BashOutcome,
    received_output: bool,
)
    requires
        locate(items, shell) is Some,
    ensures
        ({
            let loc = locate(items, shell)->0;
            let r = finished(
                items,
                Some(shell),
                Ok(RequestOutcome::Bash(o)),
                received_output,
            );
            let t = tool_at(r, loc);
            &&& r.len() == items.len()
            &&& t.id == tool_at(items, loc).id
            &&& (!o.cancelled && (o.exit_code is None || o.exit_code == Some(0i32))) ==> t.state
                == ToolState::Complete
            &&& (o.cancelled || (o.exit_code is Some && o.exit_code != Some(0i32))) ==> t.state
                == ToolState::Failed
            &&& t.error is None
            &&& t.output == bash_result(o).0
            &&& t.highlighted_html == bash_result(o).1
        }),
{
    let loc = locate(items, shell)->0;
    lemma_locate_valid(items, shell);
    let state = if crate::session::bash_failed(o) {
        ToolState::Failed
    } else {
        ToolState::Complete
    };
    let t = crate::transcript::settle_tool(
        tool_at(items, loc),
        state,
        None,
        Some(bash_result(o).0),
        bash_result(o).1,
    );
    lemma_tool_at_set(items, loc, t);
}

/// Settling a shell tool sets its state, error and highlighted output; its
/// output changes only where a new one is given, and all else of the tool
/// stays; the transcript keeps its length.
pub proof fn law_settle_keeps_output_unless_given(
    items: Seq<ItemV>,
    id: Seq<char>,
    state: ToolState,
    error: Option<Seq<char>>,
    output: Option<Seq<char>>,
    highlighted_html: Option<Seq<char>>,
)
    requires
        locate(items, id) is Some,
    ensures
        ({
            let loc = locate(items, id)->0;
            let before = tool_at(items, loc);
            let r = settle(items, id, state, error, output, highlighted_html);
            let t = tool_at(r, loc);
            &&& r.len() == items.len()
            &&& t.state == state
            &&& t.error == error
            &&& t.highlighted_html == highlighted_html
            &&& output is None ==> t.output == before.output
            &&& output matches Some(o) ==> t.output == o
            &&& t.id == before.id
            &&& t.kind == before.kind
            &&& t.summary == before.summary
            &&& t.detail == before.detail
            &&& t.direct_shell == before.direct_shell
            &&& t.added == before.added
            &&& t.removed == before.removed
        }),
{
    let loc = locate(items, id)->0;
    lemma_locate_valid(items, id);
    let t = crate::transcript::settle_tool(
        tool_at(items, loc),
        state,
        error,
        output,
        highlighted_html,
    );
    lemma_tool_at_set(items, loc, t);
}

} // verus!
