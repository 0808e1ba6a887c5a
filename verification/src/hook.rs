//! The event that a hook hands over.
use vstd::prelude::*;

use crate::json::Json;

verus! {

/// The JSON object that a hook receives on standard input, as plain values.
#[derive(Debug)]
pub struct HookInput {
    pub session_id: String,
    pub transcript_path: String,
    /// Name of the tool the hook fired for (empty when none).
    pub tool_name: String,
    /// The tool's input (`Null` when absent).
    pub tool_input: Json,
    /// The tool's result (`Null` when absent).
    pub tool_result: Json,
    pub is_team_lead: bool,
    pub team_name: String,
    /// The `isApiErrorMessage` flag.
    pub is_api_error_message: bool,
}

} // verus!
