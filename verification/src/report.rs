use crate::model::TransitionKind;
use crate::outcome::{RunError, RunErrorView, RunOutcome};
use vstd::prelude::*;
use vstd::string::StringExecFns;

verus! {

/// The text that the standard library's `Debug` formatting gives for a list
/// of strings.
pub uninterp spec fn debug_list(ids: Seq<Seq<char>>) -> Seq<char>;

/// Formats a list of identifiers with `{:?}`, the `Debug` formatting of
/// `Vec<String>` in the standard library. Not proved: that the text is the
/// one that formatting gives for these identifiers, which depends on them
/// alone.
#[verifier::external_body]
fn debug_ids(ids: &Vec<String>) -> (text: String)
    ensures
        text@ == debug_list(ids.deep_view()),
{
    format!("{:?}", ids)
}

/// How the summary of a run begins.
pub open spec fn heading(kind: TransitionKind) -> Seq<char> {
    match kind {
        TransitionKind::Stop => "Stopped instances: "@,
        TransitionKind::Terminate => "Terminated instances: "@,
    }
}

/// The summary of a run: the heading, the list of processed instances as
/// `listed` gives it, and the elapsed time where one is given.
pub open spec fn summary_text(
    kind: TransitionKind,
    listed: Seq<char>,
    elapsed: Option<Seq<char>>,
) -> Seq<char> {
    heading(kind) + listed + match elapsed {
        Some(time) => " in "@ + time,
        None => Seq::empty(),
    }
}

/// Puts the summary of a run together from the formatted list of processed
/// instances and the formatted elapsed time.
pub fn summary_line(kind: TransitionKind, listed: &str, elapsed: Option<&str>) -> (line: String)
    ensures
        line@ == summary_text(kind, listed@, elapsed.deep_view()),
{
    let mut line = match kind {
        TransitionKind::Stop => "Stopped instances: ".to_owned(),
        TransitionKind::Terminate => "Terminated instances: ".to_owned(),
    };
    line.append(listed);
    match elapsed {
        Some(time) => {
            line.append(" in ");
            line.append(time);
            assert(line@ =~= summary_text(kind, listed@, elapsed.deep_view()));
        },
        None => {
            assert(line@ =~= summary_text(kind, listed@, elapsed.deep_view()));
        },
    }
    line
}

/// The message that an invocation answers with: which instances were
/// processed, and how long the run took where that is known.
pub fn summary(kind: TransitionKind, outcome: &RunOutcome, elapsed: Option<&str>) -> (line: String)
    ensures
        line@ == summary_text(
            kind,
            debug_list(outcome.processed.deep_view()),
            elapsed.deep_view(),
        ),
{
    let listed = debug_ids(&outcome.processed);
    summary_line(kind, listed.as_str(), elapsed)
}

/// What an error says of itself: the stage that failed, and the provider's
/// message where there is one.
pub open spec fn error_text(error: RunErrorView) -> Seq<char> {
    match error {
        RunErrorView::Discovery(reason) => "inventory query failed: "@ + reason,
        RunErrorView::Transition(reason) => "transition request failed: "@ + reason,
        RunErrorView::Polling(reason) => "inventory query failed while waiting: "@ + reason,
        RunErrorView::Protocol => "event does not answer the action that was asked for"@,
    }
}

/// The text of an error, for the caller to log or to hand on.
pub fn describe(error: &RunError) -> (text: String)
    ensures
        text@ == error_text(error.deep_view()),
{
    match error {
        RunError::Discovery(reason) => {
            let mut text = "inventory query failed: ".to_owned();
            text.append(reason.as_str());
            text
        },
        RunError::Transition(reason) => {
            let mut text = "transition request failed: ".to_owned();
            text.append(reason.as_str());
            text
        },
        RunError::Polling(reason) => {
            let mut text = "inventory query failed while waiting: ".to_owned();
            text.append(reason.as_str());
            text
        },
        RunError::Protocol => "event does not answer the action that was asked for".to_owned(),
    }
}

} // verus!
