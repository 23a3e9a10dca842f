use vstd::prelude::*;

use crate::args::{ArgV, ToolArgs};
use crate::text::{
    chars_of, decimal, parse_u64, parse_u64_str, push_decimal, push_str, starts_with,
    string_of, trim, trim_bounds, trim_range,
};

verus! {

/// What the user asked for: a prompt for Pi, or a shell command that the
/// bridge runs directly (`!command`; `!!command` keeps it out of Pi's context).
#[derive(Clone, Debug, PartialEq, Eq)]
pub enum UserRequest {
    Prompt(String),
    Bash { command: String, exclude_from_context: bool },
}

/// The model of a [`UserRequest`].
pub enum RequestV {
    Prompt(Seq<char>),
    Bash { command: Seq<char>, exclude_from_context: bool },
}

impl View for UserRequest {
    type V = RequestV;

    open spec fn view(&self) -> RequestV {
        match self {
            UserRequest::Prompt(m) => RequestV::Prompt(m@),
            UserRequest::Bash { command, exclude_from_context } => RequestV::Bash {
                command: command@,
                exclude_from_context: *exclude_from_context,
            },
        }
    }
}

/// The shell command that a trimmed input `t` spells, with whether it stays
/// out of Pi's context: after `!!` it does, after a single `!` it does not.
pub open spec fn bash_part(t: Seq<char>) -> Option<(Seq<char>, bool)> {
    if starts_with(t, seq!['!', '!']) {
        Some((t.skip(2), true))
    } else if starts_with(t, seq!['!']) {
        Some((t.skip(1), false))
    } else {
        None
    }
}

/// How an input line is read: the trimmed input, unless it starts with `!`
/// and a command that is not blank follows, which is then run in the shell.
pub open spec fn classify(input: Seq<char>) -> RequestV {
    let t = trim(input);
    match bash_part(t) {
        Some((c, hidden)) => if trim(c).len() > 0 {
            RequestV::Bash { command: trim(c), exclude_from_context: hidden }
        } else {
            RequestV::Prompt(t)
        },
        None => RequestV::Prompt(t),
    }
}

/// Who did not finish, in the message of a timeout: Pi, or the shell command.
pub open spec fn subject_of(r: RequestV) -> Seq<char> {
    match r {
        RequestV::Prompt(_) => "Pi"@,
        RequestV::Bash { .. } => "The shell command"@,
    }
}

/// The error of a request that did not finish within `seconds`.
pub open spec fn timeout_message(r: RequestV, seconds: u64) -> Seq<char> {
    subject_of(r) + " did not finish within "@ + decimal(seconds as nat) + " seconds"@
}

impl UserRequest {
    /// Reads one line of input.
    pub fn from_input(input: String) -> (r: Self)
        ensures
            r@ == classify(input@),
    {
        let v = chars_of(input.as_str());
        let (a, b) = trim_bounds(&v);
        let ghost t = v@.subrange(a as int, b as int);
        let bash: Option<(usize, bool)> = if b - a >= 2 && v[a] == '!' && v[a + 1] == '!' {
            proof {
                assert(t.take(2) =~= seq!['!', '!']);
            }
            Some((a + 2, true))
        } else if b - a >= 1 && v[a] == '!' {
            proof {
                assert(t.take(1) =~= seq!['!']);
                if t.len() >= 2 {
                    assert(t.take(2)[1] == t[1]);
                }
            }
            Some((a + 1, false))
        } else {
            proof {
                if t.len() >= 2 {
                    assert(t.take(2)[0] == t[0]);
                    assert(t.take(2)[1] == t[1]);
                }
                if t.len() >= 1 {
                    assert(t.take(1)[0] == t[0]);
                }
            }
            None
        };
        if let Some((start, hidden)) = bash {
            assert(v@.subrange(start as int, b as int) == t.skip(start - a));
            let (c, d) = trim_range(&v, start, b);
            if c < d {
                return UserRequest::Bash {
                    command: string_of(&v, c, d),
                    exclude_from_context: hidden,
                };
            }
        }
        UserRequest::Prompt(string_of(&v, a, b))
    }

    /// Who did not finish, in the message of a timeout.
    pub fn timeout_subject(&self) -> (s: &'static str)
        ensures
            s@ == subject_of(self@),
    {
        match self {
            UserRequest::Prompt(_) => "Pi",
            UserRequest::Bash { .. } => "The shell command",
        }
    }
}

/// What the bridge reports while a request runs, in the order it happens.
#[derive(Clone, Debug, PartialEq, Eq)]
pub enum StreamEvent {
    AssistantStart,
    ThinkingStart { id: String },
    ThinkingDelta { id: String, delta: String },
    ThinkingEnd { id: String, content: String },
    TextDelta(String),
    ToolStart { id: String, name: String, args: ToolArgs },
    ToolEnd {
        id: String,
        is_error: bool,
        error: Option<String>,
        output: Option<String>,
        highlighted_html: Option<String>,
        added: Option<u64>,
        removed: Option<u64>,
    },
    BashDelta(String),
}

/// The model of a [`StreamEvent`].
pub enum EventV {
    AssistantStart,
    ThinkingStart { id: Seq<char> },
    ThinkingDelta { id: Seq<char>, delta: Seq<char> },
    ThinkingEnd { id: Seq<char>, content: Seq<char> },
    TextDelta(Seq<char>),
    ToolStart { id: Seq<char>, name: Seq<char>, args: Seq<(Seq<char>, ArgV)> },
    ToolEnd {
        id: Seq<char>,
        is_error: bool,
        error: Option<Seq<char>>,
        output: Option<Seq<char>>,
        highlighted_html: Option<Seq<char>>,
        added: Option<u64>,
        removed: Option<u64>,
    },
    BashDelta(Seq<char>),
}

impl View for StreamEvent {
    type V = EventV;

    open spec fn view(&self) -> EventV {
        match self {
            StreamEvent::AssistantStart => EventV::AssistantStart,
            StreamEvent::ThinkingStart { id } => EventV::ThinkingStart { id: id@ },
            StreamEvent::ThinkingDelta { id, delta } => EventV::ThinkingDelta {
                id: id@,
                delta: delta@,
            },
            StreamEvent::ThinkingEnd { id, content } => EventV::ThinkingEnd {
                id: id@,
                content: content@,
            },
            StreamEvent::TextDelta(d) => EventV::TextDelta(d@),
            StreamEvent::ToolStart { id, name, args } => EventV::ToolStart {
                id: id@,
                name: name@,
                args: args@,
            },
            StreamEvent::ToolEnd {
                id,
                is_error,
                error,
                output,
                highlighted_html,
                added,
                removed,
            } => EventV::ToolEnd {
                id: id@,
                is_error: *is_error,
                error: error.deep_view(),
                output: output.deep_view(),
                highlighted_html: highlighted_html.deep_view(),
                added: *added,
                removed: *removed,
            },
            StreamEvent::BashDelta(d) => EventV::BashDelta(d@),
        }
    }
}

/// How a shell command that the user ran ended.
#[derive(Clone, Debug, PartialEq, Eq)]
pub struct BashOutcome {
    pub output: String,
    pub exit_code: Option<i32>,
    pub cancelled: bool,
    pub truncated: bool,
    pub full_output_path: Option<String>,
    pub highlighted_html: Option<String>,
}

/// How a request ended, where it succeeded.
#[derive(Clone, Debug, PartialEq, Eq)]
pub enum RequestOutcome {
    Prompt,
    Bash(BashOutcome),
}

/// The seconds that a request may take where the setting gives none that
/// parses as a positive number: thirty minutes.
pub const DEFAULT_PROMPT_TIMEOUT_SECS: u64 = 1800;

/// The seconds that a request may take, from the setting where there is one:
/// a positive number as `str::parse::<u64>` reads it, else the default.
pub open spec fn prompt_timeout(setting: Option<Seq<char>>) -> u64 {
    match setting {
        Some(s) => match parse_u64(s) {
            Some(n) => if n > 0 {
                n
            } else {
                DEFAULT_PROMPT_TIMEOUT_SECS
            },
            None => DEFAULT_PROMPT_TIMEOUT_SECS,
        },
        None => DEFAULT_PROMPT_TIMEOUT_SECS,
    }
}

/// The seconds that a request may take, from the setting where there is one.
pub fn prompt_timeout_secs(setting: Option<&str>) -> (secs: u64)
    ensures
        secs == prompt_timeout(
            match setting {
                Some(s) => Some(s@),
                None => None,
            },
        ),
        secs > 0,
{
    match setting {
        Some(s) => match parse_u64_str(s) {
            Some(n) => if n > 0 {
                n
            } else {
                DEFAULT_PROMPT_TIMEOUT_SECS
            },
            None => DEFAULT_PROMPT_TIMEOUT_SECS,
        },
        None => DEFAULT_PROMPT_TIMEOUT_SECS,
    }
}

/// The error of a request that did not finish within `seconds`.
pub fn timeout_error(request: &UserRequest, seconds: u64) -> (e: String)
    ensures
        e@ == timeout_message(request@, seconds),
{
    let mut e = String::from_str(request.timeout_subject());
    push_str(&mut e, " did not finish within ");
    push_decimal(&mut e, seconds);
    push_str(&mut e, " seconds");
    e
}

/// A line that the library sends to the bridge.
#[derive(Clone, Debug, PartialEq, Eq)]
pub enum BridgeRequest {
    Prompt { id: u64, message: String },
    Bash { id: u64, command: String, exclude_from_context: bool },
    Abort { id: u64 },
}

impl BridgeRequest {
    /// The id of the request.
    pub open spec fn spec_id(&self) -> u64 {
        match self {
            BridgeRequest::Prompt { id, .. } => *id,
            BridgeRequest::Bash { id, .. } => *id,
            BridgeRequest::Abort { id } => *id,
        }
    }
}

/// The line that asks the bridge for `request`, under `id`.
pub fn bridge_request(id: u64, request: &UserRequest) -> (r: BridgeRequest)
    ensures
        match request@ {
            RequestV::Prompt(m) => r matches BridgeRequest::Prompt { id: rid, message } && rid
                == id && message@ == m,
            RequestV::Bash { command: c, exclude_from_context: x } => r matches BridgeRequest::Bash {
                id: rid,
                command,
                exclude_from_context,
            } && rid == id && command@ == c && exclude_from_context == x,
        },
{
    match request {
        UserRequest::Prompt(m) => BridgeRequest::Prompt { id, message: m.clone() },
        UserRequest::Bash { command, exclude_from_context } => BridgeRequest::Bash {
            id,
            command: command.clone(),
            exclude_from_context: *exclude_from_context,
        },
    }
}

/// The bytes of one line to the bridge: the JSON of a request and a line
/// break.
pub fn frame_line(json: Vec<u8>) -> (line: Vec<u8>)
    ensures
        line@ == json@.push(10u8),
{
    let mut line = json;
    line.push(10u8);
    line
}

/// A line that the bridge sends.
#[derive(Clone, Debug, PartialEq, Eq)]
pub enum BridgeEvent {
    Ready,
    AssistantStart { id: u64 },
    ThinkingStart { id: u64, thinking_id: String },
    ThinkingDelta { id: u64, thinking_id: String, delta: String },
    ThinkingEnd { id: u64, thinking_id: String, content: String },
    TextDelta { id: u64, delta: String },
    ToolStart { id: u64, tool_call_id: String, tool_name: String, args: ToolArgs },
    ToolEnd {
        id: u64,
        tool_call_id: String,
        is_error: bool,
        error: Option<String>,
        output: Option<String>,
        highlighted_html: Option<String>,
        added: Option<u64>,
        removed: Option<u64>,
    },
    BashDelta { id: u64, delta: String },
    Done { id: u64 },
    BashDone {
        id: u64,
        output: String,
        exit_code: Option<i32>,
        cancelled: bool,
        truncated: bool,
        full_output_path: Option<String>,
        highlighted_html: Option<String>,
    },
    Error { id: Option<u64>, message: String },
    Fatal { message: String },
    Unknown,
}

/// What to do with one line of the bridge while a request runs.
#[derive(Debug)]
pub enum Routed {
    /// Hand the event to the transcript.
    Stream(StreamEvent),
    /// The request has ended so.
    Finished(Result<RequestOutcome, String>),
    /// The line is not about this request.
    Skip,
}

/// The error where the bridge ends a request as a kind it is not.
pub open spec fn wrong_completion() -> Seq<char> {
    "the Pi SDK bridge returned the wrong completion type"@
}

/// What a line of the bridge means for `request`: the events of the request
/// go to the transcript, its completion or error ends it, as does an error
/// that names no request or a fatal one; all else is skipped.
pub fn route_event(request: &BridgeRequest, event: BridgeEvent) -> (r: Routed)
    ensures
        ({
            let rid = request.spec_id();
            match event {
                BridgeEvent::AssistantStart { id } => if id == rid {
                    r == Routed::Stream(StreamEvent::AssistantStart)
                } else {
                    r is Skip
                },
                BridgeEvent::ThinkingStart { id, thinking_id } => if id == rid {
                    r == Routed::Stream(StreamEvent::ThinkingStart { id: thinking_id })
                } else {
                    r is Skip
                },
                BridgeEvent::ThinkingDelta { id, thinking_id, delta } => if id == rid {
                    r == Routed::Stream(StreamEvent::ThinkingDelta { id: thinking_id, delta })
                } else {
                    r is Skip
                },
                BridgeEvent::ThinkingEnd { id, thinking_id, content } => if id == rid {
                    r == Routed::Stream(StreamEvent::ThinkingEnd { id: thinking_id, content })
                } else {
                    r is Skip
                },
                BridgeEvent::TextDelta { id, delta } => if id == rid {
                    r == Routed::Stream(StreamEvent::TextDelta(delta))
                } else {
                    r is Skip
                },
                BridgeEvent::ToolStart { id, tool_call_id, tool_name, args } => if id == rid {
                    r == Routed::Stream(
                        StreamEvent::ToolStart { id: tool_call_id, name: tool_name, args },
                    )
                } else {
                    r is Skip
                },
                BridgeEvent::ToolEnd {
                    id,
                    tool_call_id,
                    is_error,
                    error,
                    output,
                    highlighted_html,
                    added,
                    removed,
                } => if id == rid {
                    r == Routed::Stream(
                        StreamEvent::ToolEnd {
                            id: tool_call_id,
                            is_error,
                            error,
                            output,
                            highlighted_html,
                            added,
                            removed,
                        },
                    )
                } else {
                    r is Skip
                },
                BridgeEvent::BashDelta { id, delta } => if id == rid {
                    r == Routed::Stream(StreamEvent::BashDelta(delta))
                } else {
                    r is Skip
                },
                BridgeEvent::Done { id } => if id == rid {
                    if request is Prompt {
                        r == Routed::Finished(Ok(RequestOutcome::Prompt))
                    } else {
                        r matches Routed::Finished(Err(m)) && m@ == wrong_completion()
                    }
                } else {
                    r is Skip
                },
                BridgeEvent::BashDone {
                    id,
                    output,
                    exit_code,
                    cancelled,
                    truncated,
                    full_output_path,
                    highlighted_html,
                } => if id == rid {
                    if request is Bash {
                        r == Routed::Finished(
                            Ok(
                                RequestOutcome::Bash(
                                    BashOutcome {
                                        output,
                                        exit_code,
                                        cancelled,
                                        truncated,
                                        full_output_path,
                                        highlighted_html,
                                    },
                                ),
                            ),
                        )
                    } else {
                        r matches Routed::Finished(Err(m)) && m@ == wrong_completion()
                    }
                } else {
                    r is Skip
                },
                BridgeEvent::Error { id, message } => match id {
                    Some(id) => if id == rid {
                        r == Routed::Finished(Err(message))
                    } else {
                        r is Skip
                    },
                    None => r == Routed::Finished(Err(message)),
                },
                BridgeEvent::Fatal { message } => r == Routed::Finished(Err(message)),
                BridgeEvent::Ready => r is Skip,
                BridgeEvent::Unknown => r is Skip,
            }
        }),
{
    let rid = match request {
        BridgeRequest::Prompt { id, .. } => *id,
        BridgeRequest::Bash { id, .. } => *id,
        BridgeRequest::Abort { id } => *id,
    };
    match event {
        BridgeEvent::AssistantStart { id } => if id == rid {
            Routed::Stream(StreamEvent::AssistantStart)
        } else {
            Routed::Skip
        },
        BridgeEvent::ThinkingStart { id, thinking_id } => if id == rid {
            Routed::Stream(StreamEvent::ThinkingStart { id: thinking_id })
        } else {
            Routed::Skip
        },
        BridgeEvent::ThinkingDelta { id, thinking_id, delta } => if id == rid {
            Routed::Stream(StreamEvent::ThinkingDelta { id: thinking_id, delta })
        } else {
            Routed::Skip
        },
        BridgeEvent::ThinkingEnd { id, thinking_id, content } => if id == rid {
            Routed::Stream(StreamEvent::ThinkingEnd { id: thinking_id, content })
        } else {
            Routed::Skip
        },
        BridgeEvent::TextDelta { id, delta } => if id == rid {
            Routed::Stream(StreamEvent::TextDelta(delta))
        } else {
            Routed::Skip
        },
        BridgeEvent::ToolStart { id, tool_call_id, tool_name, args } => if id == rid {
            Routed::Stream(StreamEvent::ToolStart { id: tool_call_id, name: tool_name, args })
        } else {
            Routed::Skip
        },
        BridgeEvent::ToolEnd {
            id,
            tool_call_id,
            is_error,
            error,
            output,
            highlighted_html,
            added,
            removed,
        } => if id == rid {
            Routed::Stream(
                StreamEvent::ToolEnd {
                    id: tool_call_id,
                    is_error,
                    error,
                    output,
                    highlighted_html,
                    added,
                    removed,
                },
            )
        } else {
            Routed::Skip
        },
        BridgeEvent::BashDelta { id, delta } => if id == rid {
            Routed::Stream(StreamEvent::BashDelta(delta))
        } else {
            Routed::Skip
        },
        BridgeEvent::Done { id } => if id == rid {
            match request {
                BridgeRequest::Prompt { .. } => Routed::Finished(Ok(RequestOutcome::Prompt)),
                _ => Routed::Finished(
                    Err(String::from_str("the Pi SDK bridge returned the wrong completion type")),
                ),
            }
        } else {
            Routed::Skip
        },
        BridgeEvent::BashDone {
            id,
            output,
            exit_code,
            cancelled,
            truncated,
            full_output_path,
            highlighted_html,
        } => if id == rid {
            match request {
                BridgeRequest::Bash { .. } => Routed::Finished(
                    Ok(
                        RequestOutcome::Bash(
                            BashOutcome {
                                output,
                                exit_code,
                                cancelled,
                                truncated,
                                full_output_path,
                                highlighted_html,
                            },
                        ),
                    ),
                ),
                _ => Routed::Finished(
                    Err(String::from_str("the Pi SDK bridge returned the wrong completion type")),
                ),
            }
        } else {
            Routed::Skip
        },
        BridgeEvent::Error { id, message } => match id {
            Some(id) => if id == rid {
                Routed::Finished(Err(message))
            } else {
                Routed::Skip
            },
            None => Routed::Finished(Err(message)),
        },
        BridgeEvent::Fatal { message } => Routed::Finished(Err(message)),
        BridgeEvent::Ready => Routed::Skip,
        BridgeEvent::Unknown => Routed::Skip,
    }
}

/// What a line of the bridge means while the library waits for it to be
/// ready: `Ready` ends the wait, an error or a fatal error fails it.
pub fn ready_step(event: BridgeEvent) -> (r: Option<Result<(), String>>)
    ensures
        match event {
            BridgeEvent::Ready => r == Some(Ok::<(), String>(())),
            BridgeEvent::Error { message, .. } => r == Some(Err::<(), String>(message)),
            BridgeEvent::Fatal { message } => r == Some(Err::<(), String>(message)),
            _ => r is None,
        },
{
    match event {
        BridgeEvent::Ready => Some(Ok(())),
        BridgeEvent::Error { message, .. } => Some(Err(message)),
        BridgeEvent::Fatal { message } => Some(Err(message)),
        _ => None,
    }
}

/// What a line of the bridge means while the library waits for request `id`
/// to be aborted: its completion or its error ends the wait; an error that
/// names no request, or a fatal one, fails it.
pub fn abort_step(id: u64, event: BridgeEvent) -> (r: Option<Result<(), String>>)
    ensures
        match event {
            BridgeEvent::Done { id: e } => if e == id {
                r == Some(Ok::<(), String>(()))
            } else {
                r is None
            },
            BridgeEvent::BashDone { id: e, .. } => if e == id {
                r == Some(Ok::<(), String>(()))
            } else {
                r is None
            },
            BridgeEvent::Error { id: Some(e), .. } => if e == id {
                r == Some(Ok::<(), String>(()))
            } else {
                r is None
            },
            BridgeEvent::Error { id: None, message } => r == Some(Err::<(), String>(message)),
            BridgeEvent::Fatal { message } => r == Some(Err::<(), String>(message)),
            _ => r is None,
        },
{
    match event {
        BridgeEvent::Done { id: e } => if e == id {
            Some(Ok(()))
        } else {
            None
        },
        BridgeEvent::BashDone { id: e, .. } => if e == id {
            Some(Ok(()))
        } else {
            None
        },
        BridgeEvent::Error { id: Some(e), .. } => if e == id {
            Some(Ok(()))
        } else {
            None
        },
        BridgeEvent::Error { id: None, message } => Some(Err(message)),
        BridgeEvent::Fatal { message } => Some(Err(message)),
        _ => None,
    }
}

/// A line of the bridge that holds nothing but whitespace, which the
/// library skips.
pub fn is_blank_line(line: &str) -> (b: bool)
    ensures
        b == (trim(line@).len() == 0),
{
    let v = chars_of(line);
    let (a, e) = trim_bounds(&v);
    a == e
}

/// How the wait for a request ended.
pub enum RunEnd {
    /// The request ended so.
    Finished(Result<RequestOutcome, String>),
    /// Its time ran out; the abort that followed did or did not succeed.
    TimedOut { abort_succeeded: bool },
}

/// The result of a request, and whether the bridge is to be stopped: after
/// an error, or after a timeout whose abort failed.
pub fn conclude_run(request: &UserRequest, timeout_secs: u64, end: RunEnd) -> (r: (
    Result<RequestOutcome, String>,
    bool,
))
    ensures
        match end {
            RunEnd::Finished(result) => r.0 == result && r.1 == result is Err,
            RunEnd::TimedOut { abort_succeeded } => r.0 matches Err(e) && e@ == timeout_message(
                request@,
                timeout_secs,
            ) && r.1 == !abort_succeeded,
        },
{
    match end {
        RunEnd::Finished(result) => {
            let failed = result.is_err();
            (result, failed)
        },
        RunEnd::TimedOut { abort_succeeded } => (
            Err(timeout_error(request, timeout_secs)),
            !abort_succeeded,
        ),
    }
}

} // verus!
