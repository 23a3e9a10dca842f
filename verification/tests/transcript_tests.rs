use spigot::args::{ArgValue, ToolArgs};
use spigot::pi::{BashOutcome, RequestOutcome, StreamEvent, UserRequest};
use spigot::render::{
    change_counts, detail_open_mode, escape_html, exploration_title, opens_focused,
    plain_thinking, render_bash_result, tab_selection, tool_row_class, DetailOpenMode,
};
use spigot::session::{bash_state, begin_request, counts_as_output, finish_request};
use spigot::tools::{tool_kind, tool_label, tool_summary, ToolDetailContent, ToolKind, ToolState};
use spigot::transcript::{
    apply_stream_event, fail_active_tools, locate_tool, push_shell,
    remove_trailing_empty_assistant, update_shell, TranscriptItem,
};

fn args(pairs: &[(&str, ArgValue)]) -> ToolArgs {
    let mut a = ToolArgs::new();
    for (k, v) in pairs {
        a.insert((*k).to_owned(), v.clone());
    }
    a
}

fn text(s: &str) -> ArgValue {
    ArgValue::Text(s.to_owned())
}

fn start(id: &str, name: &str, a: ToolArgs) -> StreamEvent {
    StreamEvent::ToolStart {
        id: id.to_owned(),
        name: name.to_owned(),
        args: a,
    }
}

fn end(id: &str, output: Option<&str>, html: Option<&str>) -> StreamEvent {
    StreamEvent::ToolEnd {
        id: id.to_owned(),
        is_error: false,
        error: None,
        output: output.map(str::to_owned),
        highlighted_html: html.map(str::to_owned),
        added: None,
        removed: None,
    }
}

#[test]
fn summarizes_builtin_tool_calls() {
    assert_eq!(
        tool_summary(
            "read",
            &args(&[
                ("path", text("src/main.rs")),
                ("offset", ArgValue::Number(4)),
                ("limit", ArgValue::Number(3)),
            ])
        ),
        "Read src/main.rs:4-6"
    );
    assert_eq!(
        tool_summary("bash", &args(&[("command", text("cargo test"))])),
        "cargo test"
    );
    assert_eq!(
        tool_summary("grep", &args(&[("pattern", text("TODO")), ("path", text("src"))])),
        "Search /TODO/ in src"
    );
    assert_eq!(
        tool_summary("edit", &args(&[("path", text("src/main.rs"))])),
        "src/main.rs"
    );
    assert_eq!(
        tool_summary("write", &args(&[("path", text("README.md"))])),
        "README.md"
    );
    assert_eq!(
        tool_summary("find", &args(&[("pattern", text("*.rs")), ("path", text("src"))])),
        "Find *.rs in src"
    );
    assert_eq!(tool_summary("ls", &ToolArgs::new()), "List .");
    assert_eq!(tool_summary("custom", &ToolArgs::new()), "custom");
}

#[test]
fn summarizes_read_ranges_and_fallbacks() {
    assert_eq!(
        tool_summary("read", &args(&[("file_path", text("a.rs")), ("offset", ArgValue::Number(9))])),
        "Read a.rs:9"
    );
    assert_eq!(
        tool_summary("read", &args(&[("path", text("a.rs")), ("limit", ArgValue::Number(5))])),
        "Read a.rs:1-5"
    );
    assert_eq!(
        tool_summary(
            "read",
            &args(&[
                ("path", text("a.rs")),
                ("offset", ArgValue::Number(u64::MAX)),
                ("limit", ArgValue::Number(10)),
            ])
        ),
        "Read a.rs:18446744073709551615-18446744073709551614"
    );
    assert_eq!(
        tool_summary(
            "read",
            &args(&[("path", text("a.rs")), ("offset", ArgValue::Number(0)), ("limit", ArgValue::Number(0))])
        ),
        "Read a.rs:0-0"
    );
    assert_eq!(
        tool_summary("read", &args(&[("path", text("")), ("file_path", text("b.rs"))])),
        "Read ..."
    );
    assert_eq!(
        tool_summary("read", &args(&[("path", ArgValue::Other), ("file_path", text("b.rs"))])),
        "Read b.rs"
    );
    assert_eq!(
        tool_summary("read", &args(&[("path", text("a.rs")), ("offset", ArgValue::Other)])),
        "Read a.rs"
    );
    assert_eq!(tool_summary("bash", &ToolArgs::new()), "...");
    assert_eq!(tool_summary("bash", &args(&[("command", text(""))])), "");
    assert_eq!(tool_summary("grep", &ToolArgs::new()), "Search // in .");
    assert_eq!(tool_summary("find", &args(&[("path", text(""))])), "Find ... in .");
    assert_eq!(tool_summary("ls", &args(&[("path", text("x")), ("path", text("y"))])), "List y");
}

#[test]
fn classifies_tool_kinds() {
    for name in ["read", "grep", "find", "ls"] {
        assert_eq!(tool_kind(name), ToolKind::Exploration);
    }
    assert_eq!(tool_kind("bash"), ToolKind::Bash);
    assert_eq!(tool_kind("edit"), ToolKind::Edit);
    assert_eq!(tool_kind("write"), ToolKind::Write);
    assert_eq!(tool_kind("Read"), ToolKind::Other);
}

#[test]
fn groups_exploration_and_matches_parallel_completions_by_id() {
    let mut transcript = vec![TranscriptItem::User("Inspect it".to_owned())];
    apply_stream_event(&mut transcript, StreamEvent::AssistantStart, None);
    apply_stream_event(
        &mut transcript,
        start("read-1", "read", args(&[("path", text("src/main.rs"))])),
        None,
    );
    apply_stream_event(
        &mut transcript,
        start("grep-1", "grep", args(&[("pattern", text("TODO"))])),
        None,
    );
    apply_stream_event(
        &mut transcript,
        end("grep-1", Some("src/main.rs:1:TODO"), None),
        None,
    );
    apply_stream_event(
        &mut transcript,
        end("read-1", None, Some("<span>fn</span>")),
        None,
    );

    assert_eq!(transcript.len(), 2);
    let TranscriptItem::Exploration(tools) = &transcript[1] else {
        panic!("expected one exploration group")
    };
    assert_eq!(tools.len(), 2);
    assert_eq!(tools[0].id, "read-1");
    assert_eq!(tools[1].id, "grep-1");
    assert_eq!(tools[0].state, ToolState::Complete);
    assert!(matches!(
        tools[0].detail.as_ref().map(|detail| &detail.content),
        Some(ToolDetailContent::HighlightedHtml(html)) if html == "<span>fn</span>"
    ));
    assert!(matches!(
        tools[1].detail.as_ref().map(|detail| &detail.content),
        Some(ToolDetailContent::Plain(output)) if output == "src/main.rs:1:TODO"
    ));
}

#[test]
fn exploration_groups_stop_at_text_and_non_exploration_tools() {
    let mut transcript = Vec::new();
    for (id, name) in [("read-1", "read"), ("grep-1", "grep")] {
        apply_stream_event(&mut transcript, start(id, name, ToolArgs::new()), None);
    }
    apply_stream_event(
        &mut transcript,
        StreamEvent::TextDelta("Checked those.".to_owned()),
        None,
    );
    apply_stream_event(&mut transcript, start("find", "find", ToolArgs::new()), None);
    apply_stream_event(
        &mut transcript,
        start("bash", "bash", args(&[("command", text("pwd"))])),
        None,
    );
    apply_stream_event(&mut transcript, start("ls", "ls", ToolArgs::new()), None);

    assert!(matches!(&transcript[0], TranscriptItem::Exploration(tools) if tools.len() == 2));
    assert_eq!(
        transcript[1],
        TranscriptItem::Assistant("Checked those.".to_owned())
    );
    assert!(matches!(&transcript[2], TranscriptItem::Exploration(tools) if tools.len() == 1));
    assert!(matches!(&transcript[3], TranscriptItem::Tool(tool) if tool.kind == ToolKind::Bash));
    assert!(matches!(&transcript[4], TranscriptItem::Exploration(tools) if tools.len() == 1));
}

fn labels(transcript: &[TranscriptItem]) -> Vec<String> {
    transcript
        .iter()
        .map(|item| match item {
            TranscriptItem::Tool(tool) => tool_label(tool),
            _ => panic!("expected standalone tool"),
        })
        .collect()
}

#[test]
fn uses_compact_semantic_state_labels() {
    let mut transcript = Vec::new();
    for (id, name, a) in [
        ("bash", "bash", args(&[("command", text("cargo test"))])),
        ("edit", "edit", args(&[("path", text("src/main.rs"))])),
        ("write", "write", args(&[("path", text("README.md"))])),
    ] {
        apply_stream_event(&mut transcript, start(id, name, a), None);
    }
    assert_eq!(
        labels(&transcript),
        [
            "Running cargo test",
            "Editing src/main.rs",
            "Writing README.md"
        ]
    );

    for id in ["bash", "edit", "write"] {
        apply_stream_event(&mut transcript, end(id, None, None), None);
    }
    assert_eq!(
        labels(&transcript),
        ["Ran cargo test", "Edited src/main.rs", "Wrote README.md"]
    );
}

#[test]
fn failed_edit_and_write_use_failure_labels() {
    let mut transcript = Vec::new();
    for (id, name, path) in [
        ("edit", "edit", "src/main.rs"),
        ("write", "write", "README.md"),
    ] {
        apply_stream_event(&mut transcript, start(id, name, args(&[("path", text(path))])), None);
        apply_stream_event(
            &mut transcript,
            StreamEvent::ToolEnd {
                id: id.to_owned(),
                is_error: true,
                error: Some("failed".to_owned()),
                output: None,
                highlighted_html: None,
                added: None,
                removed: None,
            },
            None,
        );
    }
    assert_eq!(
        labels(&transcript),
        ["Failed to edit src/main.rs", "Failed to write README.md"]
    );
}

#[test]
fn tool_failure_keeps_its_concise_error() {
    let mut transcript = Vec::new();
    apply_stream_event(
        &mut transcript,
        start("grep", "grep", args(&[("pattern", text("missing"))])),
        None,
    );
    apply_stream_event(
        &mut transcript,
        StreamEvent::ToolEnd {
            id: "grep".to_owned(),
            is_error: true,
            error: Some("grep failed".to_owned()),
            output: None,
            highlighted_html: None,
            added: None,
            removed: None,
        },
        None,
    );

    let TranscriptItem::Exploration(tools) = &transcript[0] else {
        unreachable!()
    };
    assert_eq!(tools[0].state, ToolState::Failed);
    assert_eq!(tools[0].error.as_deref(), Some("grep failed"));
    assert!(tools[0].detail.is_none());
}

#[test]
fn keeps_failures_visible_and_marks_all_active_tools() {
    let mut transcript = Vec::new();
    for (id, name) in [("read", "read"), ("bash", "bash")] {
        apply_stream_event(&mut transcript, start(id, name, ToolArgs::new()), None);
    }

    assert!(fail_active_tools(
        &mut transcript,
        "request timed out\nmore details"
    ));
    for item in &transcript {
        let tool = match item {
            TranscriptItem::Exploration(tools) => &tools[0],
            TranscriptItem::Tool(tool) => {
                assert_eq!(tool_label(tool), "Ran ...");
                tool
            }
            _ => unreachable!(),
        };
        assert_eq!(tool.state, ToolState::Failed);
        assert_eq!(tool.error.as_deref(), Some("request timed out"));
    }
}

#[test]
fn failure_message_is_the_first_nonblank_line() {
    let mut transcript = Vec::new();
    apply_stream_event(&mut transcript, start("b", "bash", ToolArgs::new()), None);
    assert!(fail_active_tools(&mut transcript, " \n\r\n  second line  \r\nthird"));
    let TranscriptItem::Tool(tool) = &transcript[0] else {
        unreachable!()
    };
    assert_eq!(tool.error.as_deref(), Some("second line"));
    assert!(!fail_active_tools(&mut transcript, "again"));
    let TranscriptItem::Tool(tool) = &transcript[0] else {
        unreachable!()
    };
    assert_eq!(tool.error.as_deref(), Some("second line"));

    let mut transcript = Vec::new();
    apply_stream_event(&mut transcript, start("b", "bash", ToolArgs::new()), None);
    assert!(fail_active_tools(&mut transcript, "  \n \t"));
    let TranscriptItem::Tool(tool) = &transcript[0] else {
        unreachable!()
    };
    assert_eq!(tool.error.as_deref(), Some("Request failed"));

    let mut transcript = Vec::new();
    apply_stream_event(&mut transcript, start("b", "bash", ToolArgs::new()), None);
    let long = "é".repeat(600);
    assert!(fail_active_tools(&mut transcript, &long));
    let TranscriptItem::Tool(tool) = &transcript[0] else {
        unreachable!()
    };
    assert_eq!(tool.error.as_deref(), Some("é".repeat(500).as_str()));
}

#[test]
fn agent_output_is_detail_only_and_write_without_detail_is_static() {
    let mut transcript = Vec::new();
    apply_stream_event(
        &mut transcript,
        start("bash", "bash", args(&[("command", text("printf hello"))])),
        None,
    );
    apply_stream_event(
        &mut transcript,
        end("bash", None, Some("<span>hello</span>")),
        None,
    );
    apply_stream_event(
        &mut transcript,
        start("write", "write", args(&[("path", text("new.txt"))])),
        None,
    );
    apply_stream_event(&mut transcript, end("write", None, None), None);

    let TranscriptItem::Tool(bash) = &transcript[0] else {
        unreachable!()
    };
    assert!(bash.output.is_empty());
    assert!(bash.highlighted_html.is_none());
    assert!(matches!(
        bash.detail.as_ref().map(|detail| &detail.content),
        Some(ToolDetailContent::HighlightedHtml(html)) if html == "<span>hello</span>"
    ));
    assert_eq!(bash.detail.as_ref().map(|d| d.title.as_str()), Some("Ran printf hello"));
    let TranscriptItem::Tool(write) = &transcript[1] else {
        unreachable!()
    };
    assert!(write.detail.is_none());
}

#[test]
fn records_edit_change_counts() {
    let mut transcript = Vec::new();
    apply_stream_event(
        &mut transcript,
        start("edit", "edit", args(&[("path", text("src/main.rs"))])),
        None,
    );
    apply_stream_event(
        &mut transcript,
        StreamEvent::ToolEnd {
            id: "edit".to_owned(),
            is_error: false,
            error: None,
            output: None,
            highlighted_html: Some("<span>diff</span>".to_owned()),
            added: Some(4),
            removed: Some(2),
        },
        None,
    );
    let TranscriptItem::Tool(tool) = &transcript[0] else {
        unreachable!()
    };
    assert_eq!((tool.added, tool.removed), (Some(4), Some(2)));
    assert_eq!(tool.kind, ToolKind::Edit);
    assert_eq!(change_counts(tool), Some((4, 2)));
}

#[test]
fn direct_shell_streams_and_remains_expanded_inline() {
    let mut transcript = Vec::new();
    let id = push_shell(&mut transcript, "printf hello");
    apply_stream_event(
        &mut transcript,
        StreamEvent::BashDelta("hello".to_owned()),
        Some(&id),
    );
    update_shell(
        &mut transcript,
        &id,
        ToolState::Complete,
        None,
        Some("hello".to_owned()),
        Some("<span>hello</span>".to_owned()),
    );

    let TranscriptItem::Tool(tool) = &transcript[0] else {
        unreachable!()
    };
    assert!(tool.direct_shell);
    assert_eq!(tool_label(tool), "$ printf hello");
    assert_eq!(tool.output, "hello");
    assert_eq!(tool.highlighted_html.as_deref(), Some("<span>hello</span>"));
    assert!(tool.detail.is_none());
}

#[test]
fn shell_ids_follow_the_transcript_length_and_stream_in_pieces() {
    let mut transcript = vec![TranscriptItem::User("a".to_owned()); 12];
    let id = push_shell(&mut transcript, "ls");
    assert_eq!(id, "shell-12");
    for piece in ["he", "", "llo"] {
        apply_stream_event(&mut transcript, StreamEvent::BashDelta(piece.to_owned()), Some(&id));
    }
    apply_stream_event(&mut transcript, StreamEvent::BashDelta("x".to_owned()), None);
    let TranscriptItem::Tool(tool) = &transcript[12] else {
        unreachable!()
    };
    assert_eq!(tool.output, "hello");
    assert_eq!(locate_tool(&transcript, "shell-12"), Some((12, None)));
    assert_eq!(locate_tool(&transcript, "shell-1"), None);
}

#[test]
fn maps_detail_open_modifiers() {
    assert_eq!(detail_open_mode(false, false), DetailOpenMode::FocusedTab);
    assert_eq!(detail_open_mode(false, true), DetailOpenMode::FocusedTab);
    assert_eq!(detail_open_mode(true, false), DetailOpenMode::BackgroundTab);
    assert_eq!(detail_open_mode(true, true), DetailOpenMode::Window);
}

#[test]
fn opens_detail_pages_as_the_mode_asks() {
    assert!(opens_focused(DetailOpenMode::FocusedTab));
    assert!(!opens_focused(DetailOpenMode::BackgroundTab));
    assert!(opens_focused(DetailOpenMode::Window));
    assert_eq!(tab_selection(DetailOpenMode::FocusedTab), Some(true));
    assert_eq!(tab_selection(DetailOpenMode::BackgroundTab), Some(false));
    assert_eq!(tab_selection(DetailOpenMode::Window), None);
}

#[test]
fn strips_thinking_emphasis_markers() {
    assert_eq!(
        plain_thinking("**Checking the details.**"),
        "Checking the details."
    );
    assert_eq!(
        plain_thinking("Checking **literal** details."),
        "Checking **literal** details."
    );
}

#[test]
fn strips_thinking_edge_cases() {
    assert_eq!(plain_thinking("  ** padded **  "), "padded");
    assert_eq!(plain_thinking("**"), "");
    assert_eq!(plain_thinking("***"), "*");
    assert_eq!(plain_thinking("**bold only at start"), "bold only at start");
    assert_eq!(plain_thinking(""), "");
}

#[test]
fn streams_thinking_before_assistant_text() {
    let mut transcript = vec![TranscriptItem::User("Solve it".to_owned())];
    apply_stream_event(&mut transcript, StreamEvent::AssistantStart, None);
    apply_stream_event(
        &mut transcript,
        StreamEvent::ThinkingStart {
            id: "thinking-1".to_owned(),
        },
        None,
    );
    apply_stream_event(
        &mut transcript,
        StreamEvent::ThinkingDelta {
            id: "thinking-1".to_owned(),
            delta: "Checking".to_owned(),
        },
        None,
    );
    apply_stream_event(
        &mut transcript,
        StreamEvent::TextDelta("Done.".to_owned()),
        None,
    );
    apply_stream_event(
        &mut transcript,
        StreamEvent::ThinkingEnd {
            id: "thinking-1".to_owned(),
            content: "Checked the details.".to_owned(),
        },
        None,
    );

    assert_eq!(
        transcript,
        vec![
            TranscriptItem::User("Solve it".to_owned()),
            TranscriptItem::Thinking {
                id: "thinking-1".to_owned(),
                text: "Checked the details.".to_owned(),
            },
            TranscriptItem::Assistant("Done.".to_owned()),
        ]
    );
}

#[test]
fn empty_thinking_is_dropped_and_deltas_join() {
    let mut transcript = Vec::new();
    apply_stream_event(
        &mut transcript,
        StreamEvent::ThinkingStart { id: "t".to_owned() },
        None,
    );
    apply_stream_event(
        &mut transcript,
        StreamEvent::ThinkingEnd { id: "t".to_owned(), content: String::new() },
        None,
    );
    assert!(transcript.is_empty());
    for piece in ["Chec", "king"] {
        apply_stream_event(
            &mut transcript,
            StreamEvent::ThinkingDelta { id: "u".to_owned(), delta: piece.to_owned() },
            None,
        );
    }
    for piece in ["Do", "ne."] {
        apply_stream_event(&mut transcript, StreamEvent::TextDelta(piece.to_owned()), None);
    }
    assert_eq!(
        transcript,
        vec![
            TranscriptItem::Thinking { id: "u".to_owned(), text: "Checking".to_owned() },
            TranscriptItem::Assistant("Done.".to_owned()),
        ]
    );
    let mut with_empty = vec![TranscriptItem::Assistant(String::new())];
    remove_trailing_empty_assistant(&mut with_empty);
    assert!(with_empty.is_empty());
    let mut with_text = vec![TranscriptItem::Assistant("x".to_owned())];
    remove_trailing_empty_assistant(&mut with_text);
    assert_eq!(with_text.len(), 1);
}

#[test]
fn renders_bash_exit_and_truncation_details() {
    let (rendered, highlighted_html) = render_bash_result(&BashOutcome {
        output: "failed".to_owned(),
        exit_code: Some(7),
        cancelled: false,
        truncated: true,
        full_output_path: Some("/tmp/full<&>.log".to_owned()),
        highlighted_html: Some("<span>failed</span>".to_owned()),
    });

    assert_eq!(
        rendered,
        "failed\n[exit 7]\n[output truncated; full output: /tmp/full<&>.log]\n"
    );
    assert_eq!(
        highlighted_html.as_deref(),
        Some(
            "<span>failed</span>\n[exit 7]\n[output truncated; full output: /tmp/full&lt;&amp;&gt;.log]\n"
        )
    );
}

fn outcome(output: &str, exit_code: Option<i32>, cancelled: bool, truncated: bool) -> BashOutcome {
    BashOutcome {
        output: output.to_owned(),
        exit_code,
        cancelled,
        truncated,
        full_output_path: None,
        highlighted_html: Some("<b>x</b>".to_owned()),
    }
}

#[test]
fn renders_bash_results_without_output_or_with_notices() {
    let (rendered, html) = render_bash_result(&outcome("", Some(0), false, false));
    assert_eq!(rendered, "(no output)");
    assert_eq!(html, None);
    let (rendered, html) = render_bash_result(&outcome("ok\n", Some(-2), false, false));
    assert_eq!(rendered, "ok\n[exit -2]\n");
    assert_eq!(html.as_deref(), Some("<b>x</b>[exit -2]\n"));
    let (rendered, _) = render_bash_result(&outcome("", Some(1), true, true));
    assert_eq!(rendered, "(no output)\n[cancelled]\n[output truncated]\n");
    let (rendered, html) = render_bash_result(&outcome("x\n", None, false, false));
    assert_eq!(rendered, "x\n");
    assert_eq!(html.as_deref(), Some("<b>x</b>"));
    assert_eq!(bash_state(&outcome("", Some(0), false, false)), ToolState::Complete);
    assert_eq!(bash_state(&outcome("", None, false, false)), ToolState::Complete);
    assert_eq!(bash_state(&outcome("", Some(3), false, false)), ToolState::Failed);
    assert_eq!(bash_state(&outcome("", None, true, false)), ToolState::Failed);
}

#[test]
fn escapes_html_text() {
    assert_eq!(escape_html("a<b>&c"), "a&lt;b&gt;&amp;c");
    assert_eq!(escape_html("plain \"quotes\""), "plain \"quotes\"");
    assert!(!escape_html("<<>>&").contains('<'));
}

#[test]
fn presents_rows_and_groups() {
    let mut transcript = Vec::new();
    apply_stream_event(&mut transcript, start("r", "read", ToolArgs::new()), None);
    let TranscriptItem::Exploration(tools) = &transcript[0] else {
        unreachable!()
    };
    assert_eq!(exploration_title(tools), "Exploring");
    assert_eq!(tool_row_class(&tools[0]), "tool-row");
    assert_eq!(change_counts(&tools[0]), None);
    apply_stream_event(
        &mut transcript,
        StreamEvent::ToolEnd {
            id: "r".to_owned(),
            is_error: true,
            error: None,
            output: None,
            highlighted_html: None,
            added: None,
            removed: Some(3),
        },
        None,
    );
    let TranscriptItem::Exploration(tools) = &transcript[0] else {
        unreachable!()
    };
    assert_eq!(exploration_title(tools), "Explored");
    assert_eq!(tool_row_class(&tools[0]), "tool-row is-error");
    assert_eq!(change_counts(&tools[0]), Some((0, 3)));
}

#[test]
fn begins_requests_from_submitted_lines() {
    let mut transcript = Vec::new();
    assert!(begin_request(&mut transcript, "   ").is_none());
    assert!(transcript.is_empty());
    let (request, shell) = begin_request(&mut transcript, "  hello ").unwrap();
    assert_eq!(request, UserRequest::Prompt("hello".to_owned()));
    assert_eq!(shell, None);
    assert_eq!(transcript, vec![TranscriptItem::User("hello".to_owned())]);
    let (request, shell) = begin_request(&mut transcript, "!!pwd").unwrap();
    assert_eq!(
        request,
        UserRequest::Bash { command: "pwd".to_owned(), exclude_from_context: true }
    );
    assert_eq!(shell.as_deref(), Some("shell-1"));
    assert!(matches!(&transcript[1], TranscriptItem::Tool(t) if t.direct_shell && t.summary == "pwd"));
}

#[test]
fn counts_visible_output() {
    assert!(counts_as_output(&StreamEvent::TextDelta("x".to_owned())));
    assert!(!counts_as_output(&StreamEvent::TextDelta(String::new())));
    assert!(!counts_as_output(&StreamEvent::ThinkingDelta { id: "t".to_owned(), delta: String::new() }));
    assert!(counts_as_output(&StreamEvent::ThinkingEnd { id: "t".to_owned(), content: "c".to_owned() }));
    assert!(counts_as_output(&start("a", "custom", ToolArgs::new())));
    assert!(!counts_as_output(&StreamEvent::AssistantStart));
}

#[test]
fn finishes_requests() {
    let mut transcript = vec![TranscriptItem::User("q".to_owned())];
    finish_request(&mut transcript, None, Ok(RequestOutcome::Prompt), false);
    assert_eq!(transcript[1], TranscriptItem::Error("Pi returned no text output.".to_owned()));
    finish_request(&mut transcript, None, Ok(RequestOutcome::Prompt), true);
    assert_eq!(transcript.len(), 2);
    finish_request(&mut transcript, None, Err("lost\nline".to_owned()), true);
    assert_eq!(transcript[2], TranscriptItem::Error("Error: lost\nline".to_owned()));

    apply_stream_event(&mut transcript, start("g", "grep", ToolArgs::new()), None);
    finish_request(&mut transcript, None, Err("gone".to_owned()), true);
    assert_eq!(transcript.len(), 4);
    let TranscriptItem::Exploration(tools) = &transcript[3] else {
        unreachable!()
    };
    assert_eq!(tools[0].state, ToolState::Failed);
    assert_eq!(tools[0].error.as_deref(), Some("gone"));

    let id = push_shell(&mut transcript, "false");
    finish_request(
        &mut transcript,
        Some(&id),
        Ok(RequestOutcome::Bash(outcome("", Some(1), false, false))),
        false,
    );
    let TranscriptItem::Tool(tool) = &transcript[4] else {
        unreachable!()
    };
    assert_eq!(tool.state, ToolState::Failed);
    assert_eq!(tool.output, "(no output)\n[exit 1]\n");
    assert_eq!(tool.highlighted_html, None);

    let id = push_shell(&mut transcript, "sleep 1");
    finish_request(&mut transcript, Some(&id), Err("timed out".to_owned()), false);
    let TranscriptItem::Tool(tool) = &transcript[5] else {
        unreachable!()
    };
    assert_eq!(tool.state, ToolState::Failed);
    assert_eq!(tool.error.as_deref(), Some("timed out"));
}

#[test]
fn events_keep_groups_and_earlier_entries_in_place() {
    let mut transcript = vec![
        TranscriptItem::User("q".to_owned()),
        TranscriptItem::Assistant(String::new()),
    ];
    let events = vec![
        start("r", "read", ToolArgs::new()),
        start("b", "bash", ToolArgs::new()),
        start("g", "grep", ToolArgs::new()),
        start("f", "find", ToolArgs::new()),
        end("g", Some("x"), None),
        StreamEvent::ThinkingStart { id: "t".to_owned() },
        StreamEvent::ThinkingEnd { id: "t".to_owned(), content: String::new() },
        StreamEvent::TextDelta("ok".to_owned()),
    ];
    for event in events {
        let before = transcript.clone();
        apply_stream_event(&mut transcript, event, None);
        assert!(transcript.len() <= before.len() + 1);
        for item in &transcript {
            if let TranscriptItem::Exploration(tools) = item {
                assert!(!tools.is_empty());
                assert!(tools.iter().all(|t| t.kind == ToolKind::Exploration));
            }
        }
    }
    assert_eq!(transcript[0], TranscriptItem::User("q".to_owned()));
    assert!(matches!(&transcript[1], TranscriptItem::Exploration(t) if t.len() == 1 && t[0].id == "r"));
    assert!(matches!(&transcript[2], TranscriptItem::Tool(t) if t.id == "b"));
    assert!(matches!(&transcript[3], TranscriptItem::Exploration(t) if t.len() == 2 && t[1].state == ToolState::Active && t[0].state == ToolState::Complete));
    assert_eq!(transcript[4], TranscriptItem::Assistant("ok".to_owned()));
    assert_eq!(transcript.len(), 5);
}
