use organization_invitation::contract::ManagementError;
use organization_invitation::tools::{
    select_tool, tool_definitions, tool_error, Tool, ToolExecutionClass, ToolFailure, GET, LIST,
    PLUGIN_ID, REQUIRED_CAPABILITY, REVOKE,
};

#[test]
fn catalog_excludes_every_token_producing_or_consuming_operation() {
    assert_eq!(PLUGIN_ID, "lenso.organization-invitation.agent-tools");
    let required = [REQUIRED_CAPABILITY];
    assert_eq!(required.len(), 1);
    assert_eq!(required[0], "lenso.organization-invitation@1");
    let tools = tool_definitions();
    assert_eq!(tools.len(), 3);
    assert!(tools
        .iter()
        .map(|tool| tool.name.as_str())
        .all(|name| !name.contains("invite")
            && !name.contains("resend")
            && !name.contains("accept")
            && !name.contains("worker")));
}

#[test]
fn only_the_tool_that_changes_something_runs_alone() {
    let tools = tool_definitions();
    assert_eq!(tools[0].name, GET);
    assert_eq!(tools[0].execution, ToolExecutionClass::ParallelSafe);
    assert_eq!(
        tools[0].description,
        "Get one invitation without exposing a token."
    );
    assert_eq!(tools[1].name, LIST);
    assert_eq!(tools[1].execution, ToolExecutionClass::ParallelSafe);
    assert_eq!(tools[2].name, REVOKE);
    assert_eq!(tools[2].execution, ToolExecutionClass::Exclusive);
}

#[test]
fn tools_are_selected_by_their_exact_name() {
    assert_eq!(
        select_tool("organization_invitation_get"),
        Some(Tool::Get)
    );
    assert_eq!(
        select_tool("organization_invitation_list"),
        Some(Tool::List)
    );
    assert_eq!(
        select_tool("organization_invitation_revoke"),
        Some(Tool::Revoke)
    );
    assert_eq!(select_tool("organization_invitation_invite"), None);
    assert_eq!(select_tool(""), None);
}

#[test]
fn refusals_are_told_to_the_caller_of_a_tool() {
    assert_eq!(
        tool_error(Some(ManagementError::InvalidRequest)),
        ToolFailure::InvalidArguments
    );
    for error in [
        ManagementError::InvitationNotFound,
        ManagementError::OrganizationNotFound,
    ] {
        assert_eq!(tool_error(Some(error)), ToolFailure::NotFound);
    }
    for error in [ManagementError::Forbidden, ManagementError::Unauthenticated] {
        assert_eq!(tool_error(Some(error)), ToolFailure::PermissionDenied);
    }
    for (error, reason_code) in [
        (
            Some(ManagementError::IdempotencyConflict),
            "idempotency_conflict",
        ),
        (
            Some(ManagementError::InvalidTransition),
            "invalid_transition",
        ),
        (Some(ManagementError::InvitationExists), "invitation_exists"),
        (
            Some(ManagementError::OrganizationInactive),
            "organization_inactive",
        ),
        (Some(ManagementError::RevisionConflict), "revision_conflict"),
        (None, "unknown_domain_error"),
    ] {
        assert_eq!(tool_error(error), ToolFailure::Rejected { reason_code });
    }
}
