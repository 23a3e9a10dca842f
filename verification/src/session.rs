use vstd::prelude::*;

use crate::pi::{classify, BashOutcome, RequestOutcome, RequestV, StreamEvent, UserRequest};
use crate::render::{bash_result, render_bash_result};
use crate::text::{decimal, push_str, trim, trimmed};
use crate::transcript::{
    any_active, fail_active_tools, fail_all, items_view, push_shell, settle, shell_tool,
    update_shell, ItemV, TranscriptItem,
};
use crate::tools::ToolState;

verus! {

/// How a submitted line starts a request: the request, and the entry it
/// adds to the transcript: the prompt, or the tool of the shell command,
/// whose id comes back.
pub open spec fn begun(
    old_items: Seq<ItemV>,
    input: Seq<char>,
    new_items: Seq<ItemV>,
    r: Option<(UserRequest, Option<String>)>,
) -> bool {
    match r {
        None => trim(input).len() == 0 && new_items == old_items,
        Some((request, shell)) => {
            &&& trim(input).len() > 0
            &&& request@ == classify(trim(input))
            &&& match request@ {
                RequestV::Prompt(m) => shell is None && new_items == old_items.push(ItemV::User(m)),
                RequestV::Bash { command, .. } => shell matches Some(id) && id@ == "shell-"@
                    + decimal(old_items.len()) && new_items == old_items.push(
                    ItemV::Tool(shell_tool(id@, command)),
                ),
            }
        },
    }
}

/// Starts a request from a submitted line; nothing where the line is blank.
pub fn begin_request(transcript: &mut Vec<TranscriptItem>, input: &str) -> (r: Option<
    (UserRequest, Option<String>),
>)
    ensures
        begun(items_view(old(transcript)@), input@, items_view(final(transcript)@), r),
{
    broadcast use crate::transcript::group_views;

    let message = trimmed(input);
    if message.as_str().is_empty() {
        return None;
    }
    let ghost m = message@;
    let request = UserRequest::from_input(message);
    let shell_id = match &request {
        UserRequest::Prompt(m) => {
            transcript.push(TranscriptItem::User(m.clone()));
            None
        },
        UserRequest::Bash { command, .. } => Some(push_shell(transcript, command.as_str())),
    };
    Some((request, shell_id))
}

/// An event shows that the request put something out: text or thinking
/// that is not empty, or a tool.
pub open spec fn is_output(e: StreamEvent) -> bool {
    match e {
        StreamEvent::TextDelta(d) => d@.len() > 0,
        StreamEvent::ThinkingDelta { delta, .. } => delta@.len() > 0,
        StreamEvent::ThinkingEnd { content, .. } => content@.len() > 0,
        StreamEvent::ToolStart { .. } => true,
        _ => false,
    }
}

/// An event shows that the request put something out.
pub fn counts_as_output(event: &StreamEvent) -> (b: bool)
    ensures
        b == is_output(*event),
{
    match event {
        StreamEvent::TextDelta(d) => !d.as_str().is_empty(),
        StreamEvent::ThinkingDelta { delta, .. } => !delta.as_str().is_empty(),
        StreamEvent::ThinkingEnd { content, .. } => !content.as_str().is_empty(),
        StreamEvent::ToolStart { .. } => true,
        _ => false,
    }
}

/// A shell command failed where it was cancelled or exited with a code
/// other than 0.
pub open spec fn bash_failed(o: BashOutcome) -> bool {
    o.cancelled || (o.exit_code matches Some(c) && c != 0)
}

/// The state of the tool of a shell command that has finished.
pub fn bash_state(outcome: &BashOutcome) -> (s: ToolState)
    ensures
        s == if bash_failed(*outcome) {
            ToolState::Failed
        } else {
            ToolState::Complete
        },
{
    let failed = outcome.cancelled || match outcome.exit_code {
        Some(c) => c != 0,
        None => false,
    };
    if failed {
        ToolState::Failed
    } else {
        ToolState::Complete
    }
}

/// The transcript once a request has ended: a failed shell command marks
/// its tool; another failure marks the tools still active, or, where there
/// are none, adds the error; a prompt that put nothing out adds a notice;
/// a finished shell command settles its tool with what it printed.
pub open spec fn finished(
    items: Seq<ItemV>,
    shell: Option<Seq<char>>,
    result: Result<RequestOutcome, String>,
    received_output: bool,
) -> Seq<ItemV> {
    match result {
        Err(e) => match shell {
            Some(sid) => settle(items, sid, ToolState::Failed, Some(e@), None, None),
            None => if any_active(items) {
                fail_all(items, e@)
            } else {
                items.push(ItemV::Error("Error: "@ + e@))
            },
        },
        Ok(RequestOutcome::Prompt) => if received_output {
            items
        } else {
            items.push(ItemV::Error("Pi returned no text output."@))
        },
        Ok(RequestOutcome::Bash(o)) => match shell {
            Some(sid) => settle(
                items,
                sid,
                if bash_failed(o) {
                    ToolState::Failed
                } else {
                    ToolState::Complete
                },
                None,
                Some(bash_result(o).0),
                bash_result(o).1,
            ),
            None => items,
        },
    }
}

/// Records how a request ended.
pub fn finish_request(
    transcript: &mut Vec<TranscriptItem>,
    shell_id: Option<&str>,
    result: Result<RequestOutcome, String>,
    received_output: bool,
)
    ensures
        items_view(final(transcript)@) == finished(
            items_view(old(transcript)@),
            match shell_id {
                Some(s) => Some(s@),
                None => None,
            },
            result,
            received_output,
        ),
{
    broadcast use crate::transcript::group_views;

    match result {
        Err(error) => match shell_id {
            Some(sid) => {
                update_shell(transcript, sid, ToolState::Failed, Some(error), None, None);
            },
            None => {
                if !fail_active_tools(transcript, error.as_str()) {
                    proof {
                        crate::transcript::lemma_fail_all_idle(
                            items_view(old(transcript)@),
                            error@,
                        );
                    }
                    let mut text = String::from_str("Error: ");
                    push_str(&mut text, error.as_str());
                    transcript.push(TranscriptItem::Error(text));
                }
            },
        },
        Ok(RequestOutcome::Prompt) => {
            if !received_output {
                let text = String::from_str("Pi returned no text output.");
                transcript.push(TranscriptItem::Error(text));
            }
        },
        Ok(RequestOutcome::Bash(outcome)) => match shell_id {
            Some(sid) => {
                let state = bash_state(&outcome);
                let (output, highlighted_html) = render_bash_result(&outcome);
                update_shell(transcript, sid, state, None, Some(output), highlighted_html);
            },
            None => {},
        },
    }
}

} // verus!
