//! The agent tools over invitation administration. None of them makes, shows or takes a token.

use crate::contract::ManagementError;
use crate::text::same_text;
use vstd::prelude::*;

verus! {

pub const PLUGIN_ID: &'static str = "lenso.organization-invitation.agent-tools";

/// The one capability that the tools need.
pub const REQUIRED_CAPABILITY: &'static str = "lenso.organization-invitation@1";

pub const GET: &'static str = "organization_invitation_get";

pub const LIST: &'static str = "organization_invitation_list";

pub const REVOKE: &'static str = "organization_invitation_revoke";

pub const REJECTION_MESSAGE: &'static str = "Organization Invitation rejected the operation.";

/// Whether calls of a tool may run beside each other.
#[derive(Clone, Copy, Debug, PartialEq, Eq, Structural)]
pub enum ToolExecutionClass {
    ParallelSafe,
    Exclusive,
}

/// The tools that there are.
#[derive(Clone, Copy, Debug, PartialEq, Eq, Structural)]
pub enum Tool {
    Get,
    List,
    Revoke,
}

pub open spec fn tool_name(tool: Tool) -> Seq<char> {
    match tool {
        Tool::Get => GET@,
        Tool::List => LIST@,
        Tool::Revoke => REVOKE@,
    }
}

pub open spec fn tool_description(tool: Tool) -> Seq<char> {
    match tool {
        Tool::Get => "Get one invitation without exposing a token."@,
        Tool::List => "List invitations with bounded cursor pagination and no tokens."@,
        Tool::Revoke
            => "Revoke an invitation using its current expected revision and caller-scoped idempotency key."@,
    }
}

/// Reading tools may run beside each other; the one that changes an invitation may not.
pub open spec fn tool_execution(tool: Tool) -> ToolExecutionClass {
    if tool == Tool::Revoke {
        ToolExecutionClass::Exclusive
    } else {
        ToolExecutionClass::ParallelSafe
    }
}

/// A tool as the catalog shows it.
#[derive(Clone, Debug, PartialEq, Eq)]
pub struct ToolDefinition {
    pub tool: Tool,
    pub name: String,
    pub description: String,
    pub execution: ToolExecutionClass,
}

impl ToolDefinition {
    pub open spec fn defines(self, tool: Tool) -> bool {
        &&& self.tool == tool
        &&& self.name@ == tool_name(tool)
        &&& self.description@ == tool_description(tool)
        &&& self.execution == tool_execution(tool)
    }
}

fn define(tool: Tool) -> (definition: ToolDefinition)
    ensures
        definition.defines(tool),
{
    let (name, description, execution) = match tool {
        Tool::Get => (
            GET,
            "Get one invitation without exposing a token.",
            ToolExecutionClass::ParallelSafe,
        ),
        Tool::List => (
            LIST,
            "List invitations with bounded cursor pagination and no tokens.",
            ToolExecutionClass::ParallelSafe,
        ),
        Tool::Revoke => (
            REVOKE,
            "Revoke an invitation using its current expected revision and caller-scoped idempotency key.",
            ToolExecutionClass::Exclusive,
        ),
    };
    ToolDefinition {
        tool,
        name: name.to_owned(),
        description: description.to_owned(),
        execution,
    }
}

/// The catalog: reading one invitation, listing them, and revoking one.
pub fn tool_definitions() -> (tools: Vec<ToolDefinition>)
    ensures
        tools@.len() == 3,
        tools@[0].defines(Tool::Get),
        tools@[1].defines(Tool::List),
        tools@[2].defines(Tool::Revoke),
{
    vec![define(Tool::Get), define(Tool::List), define(Tool::Revoke)]
}

/// The tool of the given name.
pub fn select_tool(name: &str) -> (tool: Option<Tool>)
    ensures
        match tool {
            Some(tool) => tool_name(tool) == name@,
            None => forall|any: Tool| #[trigger] tool_name(any) != name@,
        },
{
    if same_text(name, GET) {
        Some(Tool::Get)
    } else if same_text(name, LIST) {
        Some(Tool::List)
    } else if same_text(name, REVOKE) {
        Some(Tool::Revoke)
    } else {
        None
    }
}

/// A tool is told apart from the others by its name.
pub proof fn tool_names_differ(left: Tool, right: Tool)
    requires
        tool_name(left) == tool_name(right),
    ensures
        left == right,
{
    reveal_strlit("organization_invitation_get");
    reveal_strlit("organization_invitation_list");
    reveal_strlit("organization_invitation_revoke");
    assert(GET@.len() == 27);
    assert(LIST@.len() == 28);
    assert(REVOKE@.len() == 30);
}

/// Why the call of a tool failed.
#[derive(Clone, Copy, Debug, PartialEq, Eq)]
pub enum ToolFailure {
    InvalidArguments,
    NotFound,
    PermissionDenied,
    /// The operation was refused, with the code that says why.
    Rejected { reason_code: &'static str },
}

/// What a refusal of the invitation role is for the caller of a tool. `None` is a refusal that is
/// not known here.
pub open spec fn is_tool_failure(error: Option<ManagementError>, failure: ToolFailure) -> bool {
    match error {
        Some(ManagementError::InvalidRequest) => failure == ToolFailure::InvalidArguments,
        Some(ManagementError::InvitationNotFound)
        | Some(ManagementError::OrganizationNotFound) => failure == ToolFailure::NotFound,
        Some(ManagementError::Forbidden)
        | Some(ManagementError::Unauthenticated) => failure == ToolFailure::PermissionDenied,
        _ => failure matches ToolFailure::Rejected { reason_code } && reason_code@ == (
        match error {
            Some(ManagementError::IdempotencyConflict) => "idempotency_conflict"@,
            Some(ManagementError::InvalidTransition) => "invalid_transition"@,
            Some(ManagementError::InvitationExists) => "invitation_exists"@,
            Some(ManagementError::OrganizationInactive) => "organization_inactive"@,
            Some(ManagementError::RevisionConflict) => "revision_conflict"@,
            _ => "unknown_domain_error"@,
        }),
    }
}

pub fn tool_error(error: Option<ManagementError>) -> (failure: ToolFailure)
    ensures
        is_tool_failure(error, failure),
{
    match error {
        Some(ManagementError::InvalidRequest) => ToolFailure::InvalidArguments,
        Some(ManagementError::InvitationNotFound) => ToolFailure::NotFound,
        Some(ManagementError::OrganizationNotFound) => ToolFailure::NotFound,
        Some(ManagementError::Forbidden) => ToolFailure::PermissionDenied,
        Some(ManagementError::Unauthenticated) => ToolFailure::PermissionDenied,
        Some(ManagementError::IdempotencyConflict) => ToolFailure::Rejected {
            reason_code: "idempotency_conflict",
        },
        Some(ManagementError::InvalidTransition) => ToolFailure::Rejected {
            reason_code: "invalid_transition",
        },
        Some(ManagementError::InvitationExists) => ToolFailure::Rejected {
            reason_code: "invitation_exists",
        },
        Some(ManagementError::OrganizationInactive) => ToolFailure::Rejected {
            reason_code: "organization_inactive",
        },
        Some(ManagementError::RevisionConflict) => ToolFailure::Rejected {
            reason_code: "revision_conflict",
        },
        None => ToolFailure::Rejected { reason_code: "unknown_domain_error" },
    }
}

} // verus!
