use vstd::prelude::*;
use vstd::string::StrSliceExecFns;

use crate::pi::BashOutcome;
use crate::text::{
    chars_of, decimal_int, ends_with, push_char, push_decimal_i32, push_str, starts_with, trim,
    trim_bounds, trim_range,
};
use crate::tools::{ToolActivity, ToolState};

verus! {

/// How a character stands in HTML text.
pub open spec fn escape_char(c: char) -> Seq<char> {
    if c == '&' {
        "&amp;"@
    } else if c == '<' {
        "&lt;"@
    } else if c == '>' {
        "&gt;"@
    } else {
        seq![c]
    }
}

/// `s` with `&`, `<` and `>` written as HTML entities.
pub open spec fn escape(s: Seq<char>) -> Seq<char>
    decreases s.len(),
{
    if s.len() == 0 {
        Seq::<char>::empty()
    } else {
        escape(s.drop_last()) + escape_char(s.last())
    }
}

/// Writes `&`, `<` and `>` of `text` as HTML entities.
pub fn escape_html(text: &str) -> (escaped: String)
    ensures
        escaped@ == escape(text@),
{
    let v = chars_of(text);
    let mut escaped = String::new();
    let mut i: usize = 0;
    assert(v@.take(0) =~= Seq::<char>::empty());
    while i < v.len()
        invariant
            i <= v.len(),
            escaped@ == escape(v@.take(i as int)),
        decreases v.len() - i,
    {
        let c = v[i];
        if c == '&' {
            push_str(&mut escaped, "&amp;");
        } else if c == '<' {
            push_str(&mut escaped, "&lt;");
        } else if c == '>' {
            push_str(&mut escaped, "&gt;");
        } else {
            push_char(&mut escaped, c);
            assert(escaped@ == escape(v@.take(i as int)) + seq![c]);
        }
        let ghost next = v@.take(i + 1);
        assert(next.drop_last() =~= v@.take(i as int));
        assert(next.last() == c);
        i = i + 1;
    }
    assert(v@.take(v.len() as int) =~= v@);
    escaped
}

/// The notices under the output of a shell command: that it was cancelled,
/// or else its exit code where that is not 0; then that its output was cut
/// short, and where the whole of it is.
pub open spec fn notices_of(
    cancelled: bool,
    exit_code: Option<i32>,
    truncated: bool,
    full_output_path: Option<Seq<char>>,
) -> Seq<Seq<char>> {
    let first = if cancelled {
        seq!["[cancelled]"@]
    } else {
        match exit_code {
            Some(c) => if c != 0 {
                seq!["[exit "@ + decimal_int(c as int) + "]"@]
            } else {
                Seq::<Seq<char>>::empty()
            },
            None => Seq::<Seq<char>>::empty(),
        }
    };
    let second = if truncated {
        seq![
            match full_output_path {
                Some(p) => "[output truncated; full output: "@ + p + "]"@,
                None => "[output truncated]"@,
            },
        ]
    } else {
        Seq::<Seq<char>>::empty()
    };
    first + second
}

/// `s` does not end a line.
pub open spec fn needs_newline(s: Seq<char>) -> bool {
    !ends_with(s, seq!['\n'])
}

/// The text and the highlighted HTML with one notice more, each on a line
/// of its own; the HTML has it escaped.
pub open spec fn with_notice(rendered: Seq<char>, html: Option<Seq<char>>, notice: Seq<char>) -> (
    Seq<char>,
    Option<Seq<char>>,
) {
    let nl = needs_newline(rendered);
    let r = (if nl {
        rendered.push('\n')
    } else {
        rendered
    }) + notice + seq!['\n'];
    let h = match html {
        Some(h) => Some(
            (if nl {
                h.push('\n')
            } else {
                h
            }) + escape(notice) + seq!['\n'],
        ),
        None => None,
    };
    (r, h)
}

/// The text and the highlighted HTML with `notices` added in order.
pub open spec fn with_notices(
    rendered: Seq<char>,
    html: Option<Seq<char>>,
    notices: Seq<Seq<char>>,
) -> (Seq<char>, Option<Seq<char>>)
    decreases notices.len(),
{
    if notices.len() == 0 {
        (rendered, html)
    } else {
        let next = with_notice(rendered, html, notices[0]);
        with_notices(next.0, next.1, notices.drop_first())
    }
}

/// What the transcript shows of a finished shell command: its output, or
/// `(no output)`, and the highlighted output where there is output, with
/// the notices added to both.
pub open spec fn bash_result(o: BashOutcome) -> (Seq<char>, Option<Seq<char>>) {
    let rendered = if o.output@.len() == 0 {
        "(no output)"@
    } else {
        o.output@
    };
    let html = if o.output@.len() == 0 {
        None
    } else {
        o.highlighted_html.deep_view()
    };
    with_notices(
        rendered,
        html,
        notices_of(o.cancelled, o.exit_code, o.truncated, o.full_output_path.deep_view()),
    )
}

/// Adds one notice, with whether the text ends a line before it.
fn add_notice(rendered: &mut String, html: &mut Option<String>, notice: &String, ends_line: bool)
    requires
        ends_line == !needs_newline(old(rendered)@),
    ensures
        (final(rendered)@, final(html).deep_view()) == with_notice(
            old(rendered)@,
            old(html).deep_view(),
            notice@,
        ),
        !needs_newline(final(rendered)@),
{
    if !ends_line {
        push_char(rendered, '\n');
    }
    push_str(rendered, notice.as_str());
    push_char(rendered, '\n');
    match html {
        Some(h) => {
            if !ends_line {
                push_char(h, '\n');
            }
            let escaped = escape_html(notice.as_str());
            push_str(h, escaped.as_str());
            push_char(h, '\n');
        },
        None => {},
    }
    assert(rendered@.skip(rendered@.len() - 1) =~= seq!['\n']);
}

/// The notices under the output of a shell command.
fn notices(outcome: &BashOutcome) -> (v: Vec<String>)
    ensures
        v@.map_values(|s: String| s@) == notices_of(
            outcome.cancelled,
            outcome.exit_code,
            outcome.truncated,
            outcome.full_output_path.deep_view(),
        ),
{
    let mut v: Vec<String> = Vec::new();
    if outcome.cancelled {
        v.push(String::from_str("[cancelled]"));
    } else {
        match outcome.exit_code {
            Some(c) => if c != 0 {
                let mut s = String::from_str("[exit ");
                push_decimal_i32(&mut s, c);
                push_str(&mut s, "]");
                v.push(s);
            },
            None => {},
        }
    }
    if outcome.truncated {
        match &outcome.full_output_path {
            Some(p) => {
                let mut s = String::from_str("[output truncated; full output: ");
                push_str(&mut s, p.as_str());
                push_str(&mut s, "]");
                v.push(s);
            },
            None => {
                v.push(String::from_str("[output truncated]"));
            },
        }
    }
    assert(v@.map_values(|s: String| s@) =~= notices_of(
        outcome.cancelled,
        outcome.exit_code,
        outcome.truncated,
        outcome.full_output_path.deep_view(),
    ));
    v
}

/// What the transcript shows of a finished shell command: the text and the
/// highlighted HTML.
pub fn render_bash_result(outcome: &BashOutcome) -> (r: (String, Option<String>))
    ensures
        (r.0@, r.1.deep_view()) == bash_result(*outcome),
{
    let out = chars_of(outcome.output.as_str());
    let empty = out.len() == 0;
    let mut rendered = if empty {
        String::from_str("(no output)")
    } else {
        outcome.output.clone()
    };
    let mut highlighted_html = if empty {
        None
    } else {
        outcome.highlighted_html.clone()
    };
    let mut ends_line = if empty {
        false
    } else {
        out[out.len() - 1] == '\n'
    };
    proof {
        reveal_strlit("(no output)");
        let r = rendered@;
        if !empty {
            assert(r.skip(r.len() - 1) =~= seq![out@.last()]);
        } else {
            assert(r.skip(r.len() - 1) =~= seq![')']);
        }
        if ends_with(r, seq!['\n']) {
            assert(r.skip(r.len() - 1)[0] == '\n');
        }
    }
    let notes = notices(outcome);
    let ghost all = notes@.map_values(|s: String| s@);
    let ghost target = bash_result(*outcome);
    let mut i: usize = 0;
    assert(all.skip(0) =~= all);
    while i < notes.len()
        invariant
            i <= notes.len(),
            all == notes@.map_values(|s: String| s@),
            ends_line == !needs_newline(rendered@),
            with_notices(rendered@, highlighted_html.deep_view(), all.skip(i as int)) == target,
        decreases notes.len() - i,
    {
        assert(all.skip(i as int).drop_first() =~= all.skip(i + 1));
        add_notice(&mut rendered, &mut highlighted_html, &notes[i], ends_line);
        ends_line = true;
        i = i + 1;
    }
    (rendered, highlighted_html)
}

/// The text of a thinking entry as the transcript shows it: trimmed, with
/// `**` taken off its start and its end, and trimmed again.
pub open spec fn plain(s: Seq<char>) -> Seq<char> {
    let t = trim(s);
    let t = if starts_with(t, seq!['*', '*']) {
        t.skip(2)
    } else {
        t
    };
    let t = if ends_with(t, seq!['*', '*']) {
        t.take(t.len() - 2)
    } else {
        t
    };
    trim(t)
}

/// The text of a thinking entry as the transcript shows it.
pub fn plain_thinking(text: &str) -> (r: &str)
    ensures
        r@ == plain(text@),
{
    let v = chars_of(text);
    let (a0, b) = trim_bounds(&v);
    let ghost t0 = v@.subrange(a0 as int, b as int);
    let mut a = a0;
    if b - a >= 2 && v[a] == '*' && v[a + 1] == '*' {
        assert(t0.take(2) =~= seq!['*', '*']);
        a = a + 2;
    } else {
        proof {
            if t0.len() >= 2 {
                assert(t0.take(2)[0] == t0[0]);
                assert(t0.take(2)[1] == t0[1]);
            }
        }
    }
    let ghost t1 = v@.subrange(a as int, b as int);
    assert(t1 =~= (if starts_with(t0, seq!['*', '*']) {
        t0.skip(2)
    } else {
        t0
    }));
    let mut e = b;
    if e - a >= 2 && v[e - 2] == '*' && v[e - 1] == '*' {
        assert(t1.skip(t1.len() - 2) =~= seq!['*', '*']);
        e = e - 2;
    } else {
        proof {
            if t1.len() >= 2 {
                assert(t1.skip(t1.len() - 2)[0] == t1[t1.len() - 2]);
                assert(t1.skip(t1.len() - 2)[1] == t1[t1.len() - 1]);
            }
        }
    }
    assert(v@.subrange(a as int, e as int) =~= (if ends_with(t1, seq!['*', '*']) {
        t1.take(t1.len() - 2)
    } else {
        t1
    }));
    let (c, d) = trim_range(&v, a, e);
    text.substring_char(c, d)
}

/// How a detail page opens: a click, a click with Command, a click with
/// Command and Shift.
#[derive(Clone, Copy, Debug, PartialEq, Eq, Structural)]
pub enum DetailOpenMode {
    FocusedTab,
    BackgroundTab,
    Window,
}

/// The way to open a detail page for the modifier keys held.
pub fn detail_open_mode(command: bool, shift: bool) -> (m: DetailOpenMode)
    ensures
        m == (if command && shift {
            DetailOpenMode::Window
        } else if command {
            DetailOpenMode::BackgroundTab
        } else {
            DetailOpenMode::FocusedTab
        }),
{
    match (command, shift) {
        (true, true) => DetailOpenMode::Window,
        (true, false) => DetailOpenMode::BackgroundTab,
        _ => DetailOpenMode::FocusedTab,
    }
}

/// A page opened from a click with `mode` takes the focus; one opened in
/// the background does not.
pub fn opens_focused(mode: DetailOpenMode) -> (b: bool)
    ensures
        b == (mode != DetailOpenMode::BackgroundTab),
{
    mode != DetailOpenMode::BackgroundTab
}

/// How a page opened with `mode` joins the tabs of its window: as the
/// selected tab, as a tab behind the current one, or not at all.
pub fn tab_selection(mode: DetailOpenMode) -> (r: Option<bool>)
    ensures
        r == match mode {
            DetailOpenMode::FocusedTab => Some(true),
            DetailOpenMode::BackgroundTab => Some(false),
            DetailOpenMode::Window => None::<bool>,
        },
{
    match mode {
        DetailOpenMode::FocusedTab => Some(true),
        DetailOpenMode::BackgroundTab => Some(false),
        DetailOpenMode::Window => None,
    }
}

/// The title of an exploration group: `Exploring` while one of its tools
/// is active, `Explored` after.
pub fn exploration_title(tools: &Vec<ToolActivity>) -> (t: &'static str)
    ensures
        t@ == if exists|j: int| 0 <= j < tools@.len() && #[trigger] tools@[j].state
            == ToolState::Active {
            "Exploring"@
        } else {
            "Explored"@
        },
{
    let mut j: usize = 0;
    while j < tools.len()
        invariant
            j <= tools.len(),
            forall|k: int| 0 <= k < j ==> #[trigger] tools@[k].state != ToolState::Active,
        decreases tools.len() - j,
    {
        if tools[j].state == ToolState::Active {
            return "Exploring";
        }
        j = j + 1;
    }
    "Explored"
}

/// The style class of a tool's row: marked as an error where it failed.
pub fn tool_row_class(tool: &ToolActivity) -> (c: &'static str)
    ensures
        c@ == if tool.state == ToolState::Failed {
            "tool-row is-error"@
        } else {
            "tool-row"@
        },
{
    if tool.state == ToolState::Failed {
        "tool-row is-error"
    } else {
        "tool-row"
    }
}

/// The lines a tool added and removed, where it reports either; a count it
/// does not report shows as 0.
pub fn change_counts(tool: &ToolActivity) -> (r: Option<(u64, u64)>)
    ensures
        r == if tool.added is Some || tool.removed is Some {
            Some(
                (
                    match tool.added {
                        Some(a) => a,
                        None => 0,
                    },
                    match tool.removed {
                        Some(m) => m,
                        None => 0,
                    },
                ),
            )
        } else {
            None::<(u64, u64)>
        },
{
    if tool.added.is_some() || tool.removed.is_some() {
        let a = match tool.added {
            Some(a) => a,
            None => 0,
        };
        let m = match tool.removed {
            Some(m) => m,
            None => 0,
        };
        Some((a, m))
    } else {
        None
    }
}

} // verus!
