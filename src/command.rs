use vstd::prelude::*;
use vstd::string::*;

use crate::error::SwayWsError;

verus! {

/// Text of the command that focuses (creating it if needed) a workspace.
pub open spec fn focus_text(workspace: Seq<char>) -> Seq<char> {
    "workspace "@ + workspace
}

/// Text of the command that puts `workspace` on `output`: three sub-commands
/// joined by commas. The first creates or switches to the workspace on that
/// output, the second focuses it, the third moves the focused workspace
/// (now that one) to the output.
pub open spec fn move_to_output_text(workspace: Seq<char>, output: Seq<char>) -> Seq<char> {
    "workspace "@ + workspace + " output "@ + output + ","@ + "workspace "@ + workspace + ","@
        + "move workspace to "@ + output
}

/// Text of the command that renames workspace `from` to `to`.
pub open spec fn rename_text(from: Seq<char>, to: Seq<char>) -> Seq<char> {
    "rename workspace "@ + from + " to "@ + to
}

/// Builds the command that focuses `workspace_name`.
pub fn focus_workspace_command(workspace_name: &str) -> (r: String)
    ensures
        r@ == focus_text(workspace_name@),
{
    let mut text = String::from_str("workspace ");
    text.append(workspace_name);
    text
}

/// Builds the command that moves `workspace_name` to `output_name`.
pub fn move_workspace_to_output_command(workspace_name: &str, output_name: &str) -> (r: String)
    ensures
        r@ == move_to_output_text(workspace_name@, output_name@),
{
    let mut text = String::from_str("workspace ");
    text.append(workspace_name);
    text.append(" output ");
    text.append(output_name);
    text.append(",");
    text.append("workspace ");
    text.append(workspace_name);
    text.append(",");
    text.append("move workspace to ");
    text.append(output_name);
    text
}

/// Builds the command that renames workspace `from` to `to`.
pub fn rename_workspace_command(from: &str, to: &str) -> (r: String)
    ensures
        r@ == rename_text(from@, to@),
{
    let mut text = String::from_str("rename workspace ");
    text.append(from);
    text.append(" to ");
    text.append(to);
    text
}

/// What a batch of sub-command outcomes amounts to: success when every
/// sub-command succeeded, else the rejection of the first one that failed.
pub open spec fn batch_result(outcomes: Seq<Result<(), String>>) -> Result<(), SwayWsError>
    decreases outcomes.len(),
{
    if outcomes.len() == 0 {
        Ok(())
    } else {
        match outcomes[0] {
            Ok(()) => batch_result(outcomes.drop_first()),
            Err(message) => Err(SwayWsError::CommandRejected(message)),
        }
    }
}

/// The first failing sub-command decides the outcome of a batch, whatever the
/// sub-commands after it reported.
pub proof fn lemma_first_rejection_decides(outcomes: Seq<Result<(), String>>, k: int)
    requires
        0 <= k < outcomes.len(),
        outcomes[k] is Err,
        forall|j: int| 0 <= j < k ==> (#[trigger] outcomes[j]) is Ok,
    ensures
        batch_result(outcomes) == Err::<(), SwayWsError>(
            SwayWsError::CommandRejected(outcomes[k]->Err_0),
        ),
    decreases k,
{
    if k > 0 {
        let rest = outcomes.drop_first();
        assert(outcomes[0] is Ok);
        assert forall|j: int| 0 <= j < k - 1 implies (#[trigger] rest[j]) is Ok by {
            assert(outcomes[j + 1] is Ok);
        }
        lemma_first_rejection_decides(rest, k - 1);
    }
}

/// A batch in which every sub-command succeeded succeeds.
pub proof fn lemma_all_accepted(outcomes: Seq<Result<(), String>>)
    requires
        forall|j: int| 0 <= j < outcomes.len() ==> (#[trigger] outcomes[j]) is Ok,
    ensures
        batch_result(outcomes) == Ok::<(), SwayWsError>(()),
    decreases outcomes.len(),
{
    if outcomes.len() > 0 {
        let rest = outcomes.drop_first();
        assert(outcomes[0] is Ok);
        assert forall|j: int| 0 <= j < rest.len() implies (#[trigger] rest[j]) is Ok by {
            assert(outcomes[j + 1] is Ok);
        }
        lemma_all_accepted(rest);
    }
}

/// Folds the compositor's per-sub-command outcomes (an error message for each
/// rejected one) into one result: the first rejection, if any, is reported;
/// later ones are not looked at.
pub fn collect_outcomes(outcomes: Vec<Result<(), String>>) -> (r: Result<(), SwayWsError>)
    ensures
        r == batch_result(outcomes@),
{
    let mut i: usize = 0;
    while i < outcomes.len()
        invariant
            i <= outcomes.len(),
            forall|j: int| 0 <= j < i ==> (#[trigger] outcomes@[j]) is Ok,
        decreases outcomes.len() - i,
    {
        match &outcomes[i] {
            Ok(()) => {},
            Err(message) => {
                proof {
                    lemma_first_rejection_decides(outcomes@, i as int);
                }
                return Err(SwayWsError::CommandRejected(message.clone()));
            },
        }
        i = i + 1;
    }
    proof {
        lemma_all_accepted(outcomes@);
    }
    Ok(())
}

} // verus!
