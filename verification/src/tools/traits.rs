//! What every tool hands back to its caller.

use vstd::prelude::*;

verus! {

/// The outcome of running a tool.
#[derive(Debug)]
pub struct ToolResult {
    pub success: bool,
    pub output: String,
    pub error: Option<String>,
}

/// A `ToolResult`, with its texts as sequences of characters.
pub struct ToolResultView {
    pub success: bool,
    pub output: Seq<char>,
    pub error: Option<Seq<char>>,
}

impl DeepView for ToolResult {
    type V = ToolResultView;

    open spec fn deep_view(&self) -> ToolResultView {
        ToolResultView {
            success: self.success,
            output: self.output@,
            error: self.error.deep_view(),
        }
    }
}

/// The result of a tool that ran and produced `output`.
pub open spec fn succeeded(output: Seq<char>) -> ToolResultView {
    ToolResultView { success: true, output, error: None }
}

/// The result of a tool that was turned down or failed, with the reason.
pub open spec fn failed(reason: Seq<char>) -> ToolResultView {
    ToolResultView { success: false, output: Seq::empty(), error: Some(reason) }
}

/// Whether a result is that of a tool that was turned down or failed: it has a reason and
/// no output.
pub open spec fn is_failure(result: ToolResultView) -> bool {
    !result.success && result.output.len() == 0 && result.error is Some
}

impl ToolResult {
    /// The result of a tool that ran and produced `output`.
    pub fn success(output: String) -> (result: ToolResult)
        ensures
            result.deep_view() == succeeded(output@),
    {
        ToolResult { success: true, output, error: None }
    }

    /// The result of a tool that was turned down or failed, with the reason.
    pub fn failure(reason: String) -> (result: ToolResult)
        ensures
            result.deep_view() == failed(reason@),
    {
        ToolResult { success: false, output: String::new(), error: Some(reason) }
    }
}

/// Why a tool could not take its arguments at all.
#[derive(Debug)]
pub struct ToolError {
    pub message: String,
}

impl DeepView for ToolError {
    type V = Seq<char>;

    open spec fn deep_view(&self) -> Seq<char> {
        self.message@
    }
}

/// A result of success has the output and no reason, and one of failure has the reason and no
/// output.
pub proof fn result_tells_how_it_went(text: Seq<char>)
    ensures
        succeeded(text).success,
        succeeded(text).output == text,
        succeeded(text).error is None,
        !failed(text).success,
        failed(text).output.len() == 0,
        failed(text).error == Some(text),
        is_failure(failed(text)),
        !is_failure(succeeded(text)),
{
}

/// A result is seen with its whole output and reason.
pub proof fn result_is_seen_whole(result: ToolResult)
    ensures
        result.deep_view().success == result.success,
        result.deep_view().output == result.output@,
        result.error is Some ==> result.deep_view().error == Some(result.error->0@),
        result.error is None ==> result.deep_view().error is None,
{
}

} // verus!
