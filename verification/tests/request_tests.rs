use spigot::pi::{
    abort_step, bridge_request, conclude_run, frame_line, is_blank_line, prompt_timeout_secs, ready_step,
    route_event, timeout_error, BashOutcome, BridgeEvent, BridgeRequest, RequestOutcome, Routed,
    RunEnd, StreamEvent, UserRequest,
};
use spigot::args::{ArgValue, ToolArgs};

#[test]
fn classifies_visible_bash_commands() {
    assert_eq!(
        UserRequest::from_input("  !  printf hello  ".to_owned()),
        UserRequest::Bash {
            command: "printf hello".to_owned(),
            exclude_from_context: false,
        }
    );
}

#[test]
fn classifies_hidden_bash_commands() {
    assert_eq!(
        UserRequest::from_input("!!pwd".to_owned()),
        UserRequest::Bash {
            command: "pwd".to_owned(),
            exclude_from_context: true,
        }
    );
}

#[test]
fn treats_empty_bash_prefixes_as_prompts() {
    assert_eq!(
        UserRequest::from_input("!".to_owned()),
        UserRequest::Prompt("!".to_owned())
    );
    assert_eq!(
        UserRequest::from_input("!!  ".to_owned()),
        UserRequest::Prompt("!!".to_owned())
    );
}

#[test]
fn plain_input_is_a_trimmed_prompt() {
    assert_eq!(
        UserRequest::from_input("\t  explain this \n".to_owned()),
        UserRequest::Prompt("explain this".to_owned())
    );
    assert_eq!(
        UserRequest::from_input("\u{3000}!ls\u{a0}".to_owned()),
        UserRequest::Bash {
            command: "ls".to_owned(),
            exclude_from_context: false,
        }
    );
    assert_eq!(
        UserRequest::from_input("!!!x".to_owned()),
        UserRequest::Bash {
            command: "!x".to_owned(),
            exclude_from_context: true,
        }
    );
}

#[test]
fn names_who_timed_out() {
    assert_eq!(UserRequest::Prompt("hi".to_owned()).timeout_subject(), "Pi");
    let bash = UserRequest::Bash {
        command: "sleep 9".to_owned(),
        exclude_from_context: false,
    };
    assert_eq!(bash.timeout_subject(), "The shell command");
    assert_eq!(
        timeout_error(&bash, 1800),
        "The shell command did not finish within 1800 seconds"
    );
    assert_eq!(
        timeout_error(&UserRequest::Prompt("x".to_owned()), 7),
        "Pi did not finish within 7 seconds"
    );
}

#[test]
fn reads_the_prompt_timeout_setting() {
    assert_eq!(prompt_timeout_secs(None), 1800);
    assert_eq!(prompt_timeout_secs(Some("90")), 90);
    assert_eq!(prompt_timeout_secs(Some("+12")), 12);
    assert_eq!(prompt_timeout_secs(Some("0")), 1800);
    assert_eq!(prompt_timeout_secs(Some("")), 1800);
    assert_eq!(prompt_timeout_secs(Some("+")), 1800);
    assert_eq!(prompt_timeout_secs(Some("-5")), 1800);
    assert_eq!(prompt_timeout_secs(Some(" 5")), 1800);
    assert_eq!(prompt_timeout_secs(Some("12a")), 1800);
    assert_eq!(
        prompt_timeout_secs(Some("18446744073709551615")),
        18446744073709551615
    );
    assert_eq!(prompt_timeout_secs(Some("18446744073709551616")), 1800);
}

#[test]
fn timeout_setting_reads_back_its_numeral() {
    for n in [1u64, 9, 10, 1234, u64::MAX] {
        assert_eq!(prompt_timeout_secs(Some(&n.to_string())), n);
    }
}

#[test]
fn builds_bridge_requests() {
    assert_eq!(
        bridge_request(3, &UserRequest::Prompt("hi".to_owned())),
        BridgeRequest::Prompt {
            id: 3,
            message: "hi".to_owned()
        }
    );
    assert_eq!(
        bridge_request(
            4,
            &UserRequest::Bash {
                command: "env".to_owned(),
                exclude_from_context: true
            }
        ),
        BridgeRequest::Bash {
            id: 4,
            command: "env".to_owned(),
            exclude_from_context: true
        }
    );
}

fn prompt(id: u64) -> BridgeRequest {
    BridgeRequest::Prompt {
        id,
        message: "m".to_owned(),
    }
}

fn bash(id: u64) -> BridgeRequest {
    BridgeRequest::Bash {
        id,
        command: "pwd".to_owned(),
        exclude_from_context: false,
    }
}

#[test]
fn routes_events_of_the_request_and_skips_others() {
    match route_event(&prompt(3), BridgeEvent::TextDelta { id: 3, delta: "a".to_owned() }) {
        Routed::Stream(StreamEvent::TextDelta(d)) => assert_eq!(d, "a"),
        other => panic!("unexpected {other:?}"),
    }
    assert!(matches!(
        route_event(&prompt(3), BridgeEvent::TextDelta { id: 2, delta: "a".to_owned() }),
        Routed::Skip
    ));
    match route_event(
        &prompt(3),
        BridgeEvent::ToolStart {
            id: 3,
            tool_call_id: "call-1".to_owned(),
            tool_name: "read".to_owned(),
            args: ToolArgs::new(),
        },
    ) {
        Routed::Stream(StreamEvent::ToolStart { id, name, .. }) => {
            assert_eq!(id, "call-1");
            assert_eq!(name, "read");
        }
        other => panic!("unexpected {other:?}"),
    }
    assert!(matches!(route_event(&prompt(3), BridgeEvent::Ready), Routed::Skip));
    assert!(matches!(route_event(&prompt(3), BridgeEvent::Unknown), Routed::Skip));
}

#[test]
fn completes_requests_of_the_matching_kind() {
    assert!(matches!(
        route_event(&prompt(5), BridgeEvent::Done { id: 5 }),
        Routed::Finished(Ok(RequestOutcome::Prompt))
    ));
    match route_event(&prompt(5), BridgeEvent::BashDone {
        id: 5,
        output: String::new(),
        exit_code: None,
        cancelled: false,
        truncated: false,
        full_output_path: None,
        highlighted_html: None,
    }) {
        Routed::Finished(Err(e)) => {
            assert_eq!(e, "the Pi SDK bridge returned the wrong completion type")
        }
        other => panic!("unexpected {other:?}"),
    }
    match route_event(&bash(6), BridgeEvent::Done { id: 6 }) {
        Routed::Finished(Err(e)) => {
            assert_eq!(e, "the Pi SDK bridge returned the wrong completion type")
        }
        other => panic!("unexpected {other:?}"),
    }
    match route_event(&bash(6), BridgeEvent::BashDone {
        id: 6,
        output: "done".to_owned(),
        exit_code: Some(0),
        cancelled: false,
        truncated: false,
        full_output_path: None,
        highlighted_html: None,
    }) {
        Routed::Finished(Ok(RequestOutcome::Bash(o))) => {
            assert_eq!(o.output, "done");
            assert_eq!(o.exit_code, Some(0));
        }
        other => panic!("unexpected {other:?}"),
    }
}

#[test]
fn errors_end_the_request() {
    match route_event(&prompt(1), BridgeEvent::Error { id: Some(1), message: "boom".to_owned() }) {
        Routed::Finished(Err(e)) => assert_eq!(e, "boom"),
        other => panic!("unexpected {other:?}"),
    }
    assert!(matches!(
        route_event(&prompt(1), BridgeEvent::Error { id: Some(2), message: "x".to_owned() }),
        Routed::Skip
    ));
    match route_event(&prompt(1), BridgeEvent::Error { id: None, message: "all".to_owned() }) {
        Routed::Finished(Err(e)) => assert_eq!(e, "all"),
        other => panic!("unexpected {other:?}"),
    }
    match route_event(&prompt(1), BridgeEvent::Fatal { message: "dead".to_owned() }) {
        Routed::Finished(Err(e)) => assert_eq!(e, "dead"),
        other => panic!("unexpected {other:?}"),
    }
}

#[test]
fn waits_for_ready_and_aborts() {
    assert_eq!(ready_step(BridgeEvent::Ready), Some(Ok(())));
    assert_eq!(
        ready_step(BridgeEvent::Fatal { message: "no".to_owned() }),
        Some(Err("no".to_owned()))
    );
    assert_eq!(
        ready_step(BridgeEvent::Error { id: Some(3), message: "bad".to_owned() }),
        Some(Err("bad".to_owned()))
    );
    assert_eq!(ready_step(BridgeEvent::Done { id: 1 }), None);

    assert_eq!(abort_step(4, BridgeEvent::Done { id: 4 }), Some(Ok(())));
    assert_eq!(abort_step(4, BridgeEvent::Done { id: 3 }), None);
    assert_eq!(
        abort_step(4, BridgeEvent::Error { id: Some(4), message: "x".to_owned() }),
        Some(Ok(()))
    );
    assert_eq!(
        abort_step(4, BridgeEvent::Error { id: None, message: "x".to_owned() }),
        Some(Err("x".to_owned()))
    );
    assert_eq!(abort_step(4, BridgeEvent::Ready), None);
}

#[test]
fn skips_blank_bridge_lines() {
    assert!(is_blank_line(""));
    assert!(is_blank_line(" \t\r"));
    assert!(!is_blank_line(" {} "));
}

#[test]
fn concludes_runs() {
    let request = UserRequest::Prompt("p".to_owned());
    let (result, stop) = conclude_run(&request, 30, RunEnd::Finished(Ok(RequestOutcome::Prompt)));
    assert!(matches!(result, Ok(RequestOutcome::Prompt)));
    assert!(!stop);
    let (result, stop) = conclude_run(&request, 30, RunEnd::Finished(Err("e".to_owned())));
    assert_eq!(result.unwrap_err(), "e");
    assert!(stop);
    let (result, stop) = conclude_run(&request, 30, RunEnd::TimedOut { abort_succeeded: true });
    assert_eq!(result.unwrap_err(), "Pi did not finish within 30 seconds");
    assert!(!stop);
    let (_, stop) = conclude_run(&request, 30, RunEnd::TimedOut { abort_succeeded: false });
    assert!(stop);
    let _ = BashOutcome {
        output: String::new(),
        exit_code: None,
        cancelled: false,
        truncated: false,
        full_output_path: None,
        highlighted_html: None,
    };
}

#[test]
fn frames_request_lines() {
    assert_eq!(frame_line(b"{\"id\":1}".to_vec()), b"{\"id\":1}\n".to_vec());
    assert_eq!(frame_line(Vec::new()), b"\n".to_vec());
}

#[test]
fn later_members_of_tool_arguments_win() {
    let mut a = ToolArgs::new();
    a.insert("x".to_owned(), ArgValue::Text("1".to_owned()));
    a.insert("y".to_owned(), ArgValue::Other);
    a.insert("x".to_owned(), ArgValue::Number(2));
    assert_eq!(a.members().len(), 3);
    assert_eq!(a.get("x"), Some(&ArgValue::Number(2)));
    assert_eq!(a.text("x"), None);
    assert_eq!(a.number("x"), Some(2));
    assert_eq!(a.get("y"), Some(&ArgValue::Other));
    assert_eq!(a.number("y"), None);
    assert_eq!(a.get("z"), None);
}
