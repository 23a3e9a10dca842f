use vstd::prelude::*;

use crate::args::{number_arg, text_arg, ArgV, ToolArgs};
use crate::text::{decimal, push_char, push_decimal, push_str, str_eq};

verus! {

/// Where a tool call stands.
#[derive(Clone, Copy, Debug, PartialEq, Eq, Structural)]
pub enum ToolState {
    Active,
    Complete,
    Failed,
}

/// What a tool does, as far as the transcript shows it.
#[derive(Clone, Copy, Debug, PartialEq, Eq, Structural)]
pub enum ToolKind {
    Exploration,
    Bash,
    Edit,
    Write,
    Other,
}

/// What a tool's detail page shows.
#[derive(Clone, Debug, PartialEq, Eq)]
pub enum ToolDetailContent {
    Plain(String),
    HighlightedHtml(String),
}

/// A tool's detail page.
#[derive(Clone, Debug, PartialEq, Eq)]
pub struct ToolDetail {
    pub title: String,
    pub content: ToolDetailContent,
}

/// One tool call in the transcript.
#[derive(Clone, Debug, PartialEq, Eq)]
pub struct ToolActivity {
    pub id: String,
    pub kind: ToolKind,
    pub summary: String,
    pub state: ToolState,
    pub error: Option<String>,
    pub detail: Option<ToolDetail>,
    pub added: Option<u64>,
    pub removed: Option<u64>,
    pub direct_shell: bool,
    pub output: String,
    pub highlighted_html: Option<String>,
}

/// The model of a [`ToolDetailContent`].
pub enum ContentV {
    Plain(Seq<char>),
    HighlightedHtml(Seq<char>),
}

/// The model of a [`ToolDetail`].
pub struct DetailV {
    pub title: Seq<char>,
    pub content: ContentV,
}

/// The model of a [`ToolActivity`].
pub struct ToolV {
    pub id: Seq<char>,
    pub kind: ToolKind,
    pub summary: Seq<char>,
    pub state: ToolState,
    pub error: Option<Seq<char>>,
    pub detail: Option<DetailV>,
    pub added: Option<u64>,
    pub removed: Option<u64>,
    pub direct_shell: bool,
    pub output: Seq<char>,
    pub highlighted_html: Option<Seq<char>>,
}

impl View for ToolDetailContent {
    type V = ContentV;

    open spec fn view(&self) -> ContentV {
        match self {
            ToolDetailContent::Plain(s) => ContentV::Plain(s@),
            ToolDetailContent::HighlightedHtml(s) => ContentV::HighlightedHtml(s@),
        }
    }
}

impl View for ToolDetail {
    type V = DetailV;

    open spec fn view(&self) -> DetailV {
        DetailV { title: self.title@, content: self.content@ }
    }
}

/// The model of an optional detail page.
pub open spec fn detail_view(d: Option<ToolDetail>) -> Option<DetailV> {
    match d {
        Some(d) => Some(d@),
        None => None,
    }
}

impl View for ToolActivity {
    type V = ToolV;

    open spec fn view(&self) -> ToolV {
        ToolV {
            id: self.id@,
            kind: self.kind,
            summary: self.summary@,
            state: self.state,
            error: self.error.deep_view(),
            detail: detail_view(self.detail),
            added: self.added,
            removed: self.removed,
            direct_shell: self.direct_shell,
            output: self.output@,
            highlighted_html: self.highlighted_html.deep_view(),
        }
    }
}

/// The kind of the tool called `name`.
pub open spec fn kind_of(name: Seq<char>) -> ToolKind {
    if name == "read"@ || name == "grep"@ || name == "find"@ || name == "ls"@ {
        ToolKind::Exploration
    } else if name == "bash"@ {
        ToolKind::Bash
    } else if name == "edit"@ {
        ToolKind::Edit
    } else if name == "write"@ {
        ToolKind::Write
    } else {
        ToolKind::Other
    }
}

/// The file a tool works on: `path`, or else `file_path`, where it is a
/// string; `...` where there is none or it is empty.
pub open spec fn path_or_ellipsis(args: Seq<(Seq<char>, ArgV)>) -> Seq<char> {
    let p = match text_arg(args, "path"@) {
        Some(p) => Some(p),
        None => text_arg(args, "file_path"@),
    };
    match p {
        Some(p) => if p.len() > 0 {
            p
        } else {
            "..."@
        },
        None => "..."@,
    }
}

/// The directory a search works in: `path` where it is a string that is not
/// empty, `.` otherwise.
pub open spec fn dir_or_dot(args: Seq<(Seq<char>, ArgV)>) -> Seq<char> {
    match text_arg(args, "path"@) {
        Some(p) => if p.len() > 0 {
            p
        } else {
            "."@
        },
        None => "."@,
    }
}

/// The text of `key`, or `default` where it is not a string.
pub open spec fn text_or(args: Seq<(Seq<char>, ArgV)>, key: Seq<char>, default: Seq<char>) -> Seq<
    char,
> {
    match text_arg(args, key) {
        Some(t) => t,
        None => default,
    }
}

/// The last line that a read reaches: `start + limit - 1`, held within `u64`.
pub open spec fn last_line(start: u64, limit: u64) -> nat {
    let end: nat = if start + limit > u64::MAX {
        u64::MAX as nat
    } else {
        (start + limit) as nat
    };
    if end == 0 {
        0
    } else {
        (end - 1) as nat
    }
}

/// The line range of a read, `:start` or `:start-end`, where it gives an
/// `offset` or a `limit`; the start is line 1 where it gives none.
pub open spec fn read_range(args: Seq<(Seq<char>, ArgV)>) -> Seq<char> {
    let offset = number_arg(args, "offset"@);
    let limit = number_arg(args, "limit"@);
    if offset is Some || limit is Some {
        let start: u64 = match offset {
            Some(o) => o,
            None => 1,
        };
        seq![':'] + decimal(start as nat) + match limit {
            Some(l) => seq!['-'] + decimal(last_line(start, l)),
            None => Seq::<char>::empty(),
        }
    } else {
        Seq::<char>::empty()
    }
}

/// The one-line summary of a call of the tool `name` with `args`.
pub open spec fn summary_of(name: Seq<char>, args: Seq<(Seq<char>, ArgV)>) -> Seq<char> {
    if name == "read"@ {
        "Read "@ + path_or_ellipsis(args) + read_range(args)
    } else if name == "bash"@ {
        text_or(args, "command"@, "..."@)
    } else if name == "edit"@ || name == "write"@ {
        path_or_ellipsis(args)
    } else if name == "grep"@ {
        "Search /"@ + text_or(args, "pattern"@, ""@) + "/ in "@ + dir_or_dot(args)
    } else if name == "find"@ {
        "Find "@ + text_or(args, "pattern"@, "..."@) + " in "@ + dir_or_dot(args)
    } else if name == "ls"@ {
        "List "@ + dir_or_dot(args)
    } else {
        name
    }
}

/// The verb in front of a tool's summary, for a kind other than exploration.
pub open spec fn verb(kind: ToolKind, state: ToolState) -> Seq<char> {
    match kind {
        ToolKind::Edit => match state {
            ToolState::Active => "Editing"@,
            ToolState::Failed => "Failed to edit"@,
            ToolState::Complete => "Edited"@,
        },
        ToolKind::Write => match state {
            ToolState::Active => "Writing"@,
            ToolState::Failed => "Failed to write"@,
            ToolState::Complete => "Wrote"@,
        },
        _ => match state {
            ToolState::Active => "Running"@,
            _ => "Ran"@,
        },
    }
}

/// The label of a tool's row: `$ command` for a shell command that the user
/// ran, the bare summary for exploration, else a verb and the summary.
pub open spec fn label_of(t: ToolV) -> Seq<char> {
    if t.direct_shell {
        "$ "@ + t.summary
    } else if t.kind == ToolKind::Exploration {
        t.summary
    } else {
        verb(t.kind, t.state) + " "@ + t.summary
    }
}

/// A detail page titled `title`: the highlighted HTML where there is some,
/// else the plain output where there is some, else none.
pub open spec fn detail_of(
    title: Seq<char>,
    output: Option<Seq<char>>,
    highlighted_html: Option<Seq<char>>,
) -> Option<DetailV> {
    match highlighted_html {
        Some(h) if h.len() > 0 => Some(DetailV { title, content: ContentV::HighlightedHtml(h) }),
        _ => match output {
            Some(o) if o.len() > 0 => Some(DetailV { title, content: ContentV::Plain(o) }),
            _ => None,
        },
    }
}

/// The kind of the tool called `name`.
pub fn tool_kind(name: &str) -> (k: ToolKind)
    ensures
        k == kind_of(name@),
{
    if str_eq(name, "read") || str_eq(name, "grep") || str_eq(name, "find") || str_eq(name, "ls") {
        ToolKind::Exploration
    } else if str_eq(name, "bash") {
        ToolKind::Bash
    } else if str_eq(name, "edit") {
        ToolKind::Edit
    } else if str_eq(name, "write") {
        ToolKind::Write
    } else {
        ToolKind::Other
    }
}

fn path_arg(args: &ToolArgs) -> (p: &str)
    ensures
        p@ == path_or_ellipsis(args@),
{
    let p = match args.text("path") {
        Some(p) => Some(p),
        None => args.text("file_path"),
    };
    match p {
        Some(p) => if p.is_empty() {
            "..."
        } else {
            p
        },
        None => "...",
    }
}

fn dir_arg(args: &ToolArgs) -> (p: &str)
    ensures
        p@ == dir_or_dot(args@),
{
    match args.text("path") {
        Some(p) => if p.is_empty() {
            "."
        } else {
            p
        },
        None => ".",
    }
}

fn text_arg_or<'a>(args: &'a ToolArgs, key: &str, default: &'a str) -> (t: &'a str)
    ensures
        t@ == text_or(args@, key@, default@),
{
    match args.text(key) {
        Some(t) => t,
        None => default,
    }
}

/// The one-line summary of a call of the tool `name` with `args`.
pub fn tool_summary(name: &str, args: &ToolArgs) -> (s: String)
    ensures
        s@ == summary_of(name@, args@),
{
    let mut s = String::new();
    if str_eq(name, "read") {
        push_str(&mut s, "Read ");
        push_str(&mut s, path_arg(args));
        let offset = args.number("offset");
        let limit = args.number("limit");
        let ghost before = s@;
        if offset.is_some() || limit.is_some() {
            let start: u64 = match offset {
                Some(o) => o,
                None => 1,
            };
            push_char(&mut s, ':');
            push_decimal(&mut s, start);
            match limit {
                Some(l) => {
                    let ghost mid = s@;
                    push_char(&mut s, '-');
                    push_decimal(&mut s, start.saturating_add(l).saturating_sub(1));
                    assert(s@ == mid + (seq!['-'] + decimal(last_line(start, l))));
                },
                None => {},
            }
            assert(s@ == before + read_range(args@));
        } else {
            assert(s@ == before + read_range(args@));
        }
    } else if str_eq(name, "bash") {
        push_str(&mut s, text_arg_or(args, "command", "..."));
    } else if str_eq(name, "edit") || str_eq(name, "write") {
        push_str(&mut s, path_arg(args));
    } else if str_eq(name, "grep") {
        push_str(&mut s, "Search /");
        push_str(&mut s, text_arg_or(args, "pattern", ""));
        push_str(&mut s, "/ in ");
        push_str(&mut s, dir_arg(args));
    } else if str_eq(name, "find") {
        push_str(&mut s, "Find ");
        push_str(&mut s, text_arg_or(args, "pattern", "..."));
        push_str(&mut s, " in ");
        push_str(&mut s, dir_arg(args));
    } else if str_eq(name, "ls") {
        push_str(&mut s, "List ");
        push_str(&mut s, dir_arg(args));
    } else {
        push_str(&mut s, name);
    }
    s
}

/// The label of a tool's row.
pub fn tool_label(tool: &ToolActivity) -> (s: String)
    ensures
        s@ == label_of(tool@),
{
    let mut s = String::new();
    if tool.direct_shell {
        push_str(&mut s, "$ ");
        push_str(&mut s, tool.summary.as_str());
        return s;
    }
    let verb: &str = match tool.kind {
        ToolKind::Exploration => {
            push_str(&mut s, tool.summary.as_str());
            return s;
        },
        ToolKind::Edit => match tool.state {
            ToolState::Active => "Editing",
            ToolState::Failed => "Failed to edit",
            ToolState::Complete => "Edited",
        },
        ToolKind::Write => match tool.state {
            ToolState::Active => "Writing",
            ToolState::Failed => "Failed to write",
            ToolState::Complete => "Wrote",
        },
        _ => match tool.state {
            ToolState::Active => "Running",
            _ => "Ran",
        },
    };
    push_str(&mut s, verb);
    push_str(&mut s, " ");
    push_str(&mut s, tool.summary.as_str());
    s
}

/// A detail page titled `title`, from what a tool put out.
pub fn detail_from(title: String, output: Option<String>, highlighted_html: Option<String>) -> (d:
    Option<ToolDetail>)
    ensures
        detail_view(d) == detail_of(title@, output.deep_view(), highlighted_html.deep_view()),
{
    match highlighted_html {
        Some(html) => if !html.as_str().is_empty() {
            return Some(ToolDetail { title, content: ToolDetailContent::HighlightedHtml(html) });
        },
        None => {},
    }
    match output {
        Some(out) => if !out.as_str().is_empty() {
            return Some(ToolDetail { title, content: ToolDetailContent::Plain(out) });
        },
        None => {},
    }
    None
}

} // verus!
