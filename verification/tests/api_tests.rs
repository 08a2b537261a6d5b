use scatterbrain::api::{
    complete_task_reply, invalid_index_reply, map_core_result_simple, map_core_result_to_response, move_to_reply,
    outcome_reply, read_failure, read_success, uncomplete_task_reply, ApiResponse, ClientConfig, CreatePlanRequest,
    ReplyError,
};
use scatterbrain::index::IntParseError;
use scatterbrain::levels::default_levels;
use scatterbrain::models::{Context, Lease, Plan, PlanError, PlanResponse};

fn response<T>(res: T) -> PlanResponse<T> {
    let ctx = Context::new_with_seed(Plan::new(default_levels(), None, None), 3);
    ctx.distilled_context().replace(res)
}

#[test]
fn defaults() {
    assert_eq!(ClientConfig::default().base_url, "http://localhost:3000");
    assert_eq!(CreatePlanRequest::default().prompt, None);
    assert_eq!(CreatePlanRequest::default().notes, None);
}

#[test]
fn outcomes_map_to_statuses_and_messages() {
    let (status, body) = map_core_result_simple::<u8>(Ok(5));
    assert_eq!(status, 200);
    assert_eq!(body.into_parts(), (true, Some(5), None));

    let (status, body) = map_core_result_simple::<u8>(Err(PlanError::PlanNotFound(Lease::new(7))));
    assert_eq!(status, 404);
    assert_eq!(body.into_parts(), (false, None, Some("Plan '7' not found".to_string())));

    let (status, body) = map_core_result_simple::<u8>(Err(PlanError::Internal("boom".to_string())));
    assert_eq!(status, 500);
    assert_eq!(
        body.into_parts(),
        (false, None, Some("Internal server error: Internal error: boom".to_string()))
    );

    let (status, body) = map_core_result_simple::<u8>(Err(PlanError::LockError));
    assert_eq!(status, 500);
    assert_eq!(
        body.into_parts().2,
        Some("Internal server error: Failed to acquire lock for plan operations".to_string())
    );

    let (status, body) = map_core_result_to_response(Ok(response(1u8)));
    assert_eq!(status, 200);
    assert_eq!(body.into_parts().1.unwrap().res, 1);
}

#[test]
fn refusals_are_bad_requests() {
    let (status, body) = complete_task_reply(Ok(response(false)));
    assert_eq!(status, 400);
    assert_eq!(
        body.into_parts().2,
        Some("Failed to complete task (lease mismatch, already complete, or other issue)".to_string())
    );
    let (status, _) = complete_task_reply(Ok(response(true)));
    assert_eq!(status, 200);

    let (status, body) = outcome_reply::<()>(Ok(response(Err("Task not found".to_string()))));
    assert_eq!(status, 400);
    assert_eq!(body.into_parts().2, Some("Task not found".to_string()));
    let (status, _) = outcome_reply::<()>(Ok(response(Ok(()))));
    assert_eq!(status, 200);

    let (status, body) = uncomplete_task_reply(Ok(response(Ok(false))));
    assert_eq!(status, 400);
    assert_eq!(
        body.into_parts().2,
        Some("Task was already incomplete or uncompletion failed silently".to_string())
    );
    let (status, body) = uncomplete_task_reply(Ok(response(Err("Task is already incomplete".to_string()))));
    assert_eq!(status, 400);
    assert_eq!(body.into_parts().2, Some("Task is already incomplete".to_string()));
    let (status, _) = uncomplete_task_reply(Ok(response(Ok(true))));
    assert_eq!(status, 200);

    let (status, body) = move_to_reply(Ok(response(None)));
    assert_eq!(status, 400);
    assert_eq!(body.into_parts().2, Some("Failed to move: Task index not found".to_string()));
    let (status, _) = move_to_reply(Err(PlanError::PlanNotFound(Lease::new(1))));
    assert_eq!(status, 404);

    let (status, body) = invalid_index_reply::<()>(&IntParseError::InvalidDigit);
    assert_eq!(status, 400);
    assert_eq!(
        body.into_parts().2,
        Some("Invalid index format: invalid digit found in string".to_string())
    );
}

#[test]
fn client_reads_failures() {
    assert_eq!(
        read_failure(Some("Plan ID '12' not found".to_string()), "404 Not Found"),
        ReplyError::PlanNotFound(Lease::new(12))
    );
    assert_eq!(
        read_failure(Some("Plan ID 'x' not found".to_string()), "404 Not Found"),
        ReplyError::PlanNotFound(Lease::new(255))
    );
    assert_eq!(
        read_failure(Some("Plan '7' not found".to_string()), "404 Not Found"),
        ReplyError::Api("Plan '7' not found".to_string())
    );
    assert_eq!(
        read_failure(None, "500 Internal Server Error"),
        ReplyError::Api("HTTP error: 500 Internal Server Error".to_string())
    );
}

#[test]
fn client_reads_successes() {
    assert_eq!(read_success(ApiResponse::success(3u8)), Ok(3));
    assert_eq!(
        read_success(ApiResponse::<u8>::from_parts(true, None, None)),
        Err(ReplyError::Internal("API reported success but sent no data".to_string()))
    );
    assert_eq!(
        read_success(ApiResponse::<u8>::from_parts(false, None, None)),
        Err(ReplyError::Api("Unknown API error".to_string()))
    );
    assert_eq!(
        read_success(ApiResponse::<u8>::error("bad".to_string())),
        Err(ReplyError::Api("bad".to_string()))
    );
}

#[test]
fn error_messages() {
    assert_eq!(
        PlanError::PlanNotFound(Lease::new(5)).message(),
        "Plan with ID 'Lease(5)' not found"
    );
    assert_eq!(IntParseError::Empty.message(), "cannot parse integer from empty string");
    assert_eq!(IntParseError::PosOverflow.message(), "number too large to fit in target type");
}

#[test]
fn plan_errors_read_as_client_errors() {
    assert_eq!(
        ReplyError::from_plan_error(PlanError::PlanNotFound(Lease::new(4))),
        ReplyError::PlanNotFound(Lease::new(4))
    );
    assert_eq!(
        ReplyError::from_plan_error(PlanError::LockError),
        ReplyError::Internal("Lock error".to_string())
    );
    assert_eq!(
        ReplyError::from_plan_error(PlanError::Internal("x".to_string())),
        ReplyError::Internal("x".to_string())
    );
}
