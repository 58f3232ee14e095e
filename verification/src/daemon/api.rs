//! The HTTP API: who may call it, what a search request leads to, and what is answered.
use vstd::prelude::*;

use crate::daemon::command::{command_at, search_address};
use crate::daemon::config::Config;
use crate::daemon::error::{status_of, ApiError, ErrorCode, ErrorDetail};
use crate::daemon::model::{
    HealthResponse, SearchCommand, SearchKind, SearchRequest, SearchResponse,
};
use crate::daemon::pending_job::SearchOutcome;
use crate::daemon::secrets::same_secret;
use crate::text::joined;
use crate::web_address::{parsed_address, AddressParts};

verus! {

/// A search that can be handed to the scheduler.
pub struct SearchPlan {
    pub kind: SearchKind,
    pub command: SearchCommand,
    /// How long the caller is kept waiting, in milliseconds.
    pub wait_ms: u64,
}

/// How the wait for the outcome of a search ended.
pub enum Waited {
    Answered(SearchOutcome),
    /// The scheduler dropped the job without an answer.
    Closed,
    /// The time was up.
    TimedOut,
}

/// The answer to a health check.
pub fn health(version: &'static str) -> (result: HealthResponse)
    ensures
        result.status@ == "ok"@,
        result.version == version,
{
    HealthResponse { status: "ok", version }
}

/// Lets a request pass whose `Authorization` header carries the API token.
pub fn require_bearer(authorization: Option<&str>, config: &Config) -> (result: Result<
    (),
    ApiError,
>)
    ensures
        match result {
            Ok(_) => {
                &&& authorization matches Some(value)
                &&& value@ == "Bearer "@ + config.server.api_token@
            },
            Err(error) => {
                &&& authorization matches Some(value) ==> value@ != "Bearer "@
                    + config.server.api_token@
                &&& error.status == 401
                &&& error.detail.says(
                    ErrorCode::Unauthorized,
                    "缺少或提供了无效的 Bearer token"@,
                    false,
                )
            },
        },
{
    let expected = joined("Bearer ", config.server.api_token.as_str());
    let authorized = match authorization {
        Some(value) => same_secret(value, expected.as_str()),
        None => false,
    };
    if authorized {
        Ok(())
    } else {
        Err(
            ApiError::new(
                401,
                ErrorDetail::new(
                    ErrorCode::Unauthorized,
                    "缺少或提供了无效的 Bearer token".to_owned(),
                    false,
                ),
            ),
        )
    }
}

/// Why a search cannot be run, if it cannot: the first of the things that are wrong. `payload` is
/// the body of the request or why it could not be read, `base_url` what became of the base address.
pub open spec fn plan_fault(
    kind: Seq<char>,
    payload: Result<SearchRequest, String>,
    config: Config,
    base_url: Result<AddressParts, Seq<char>>,
) -> Option<(ErrorCode, Seq<char>)> {
    match SearchKind::named(kind) {
        None => Some(
            (
                ErrorCode::InvalidRequest,
                "搜索类型必须是 web、news、images、videos 或 forums"@,
            ),
        ),
        Some(kind) => match payload {
            Err(text) => Some((ErrorCode::InvalidRequest, "请求 JSON 无效: "@ + text@)),
            Ok(request) => match request.fault(config.executor.max_timeout_ms) {
                Some(message) => Some((ErrorCode::InvalidRequest, message)),
                None => match search_address(
                    kind,
                    request.normal_form(config.executor.max_timeout_ms),
                    config.search,
                    base_url,
                ) {
                    Err(text) => Some(
                        (ErrorCode::InternalError, "搜索 base_url 无效: "@ + text),
                    ),
                    Ok(_) => None,
                },
            },
        },
    }
}

/// `a + b`, or the greatest number where that does not fit.
pub open spec fn saturating_sum(a: u64, b: u64) -> u64 {
    if a + b <= u64::MAX {
        (a + b) as u64
    } else {
        u64::MAX
    }
}

/// Makes a plan for the search that a request asks for, or says why there is none.
pub fn plan_search(kind: &str, payload: Result<SearchRequest, String>, config: &Config) -> (result:
    Result<SearchPlan, ApiError>)
    ensures
        match plan_fault(
            kind@,
            payload,
            *config,
            parsed_address(config.search.common.base_url@),
        ) {
            Some((code, message)) => {
                &&& result matches Err(error)
                &&& error.status == status_of(code)
                &&& error.detail.says(code, message, false)
            },
            None => {
                let request = payload->Ok_0.normal_form(config.executor.max_timeout_ms);
                &&& result matches Ok(plan)
                &&& SearchKind::named(kind@) == Some(plan.kind)
                &&& plan.command@ == command_at(
                    plan.kind,
                    request,
                    *config,
                    search_address(
                        plan.kind,
                        request,
                        config.search,
                        parsed_address(config.search.common.base_url@),
                    )->Ok_0,
                )
                &&& plan.wait_ms == saturating_sum(request.timeout_ms, 1_000)
            },
        },
{
    let kind = match SearchKind::from_str(kind) {
        Ok(kind) => kind,
        Err(error) => {
            return Err(ApiError::from_detail(error));
        },
    };
    let request = match payload {
        Ok(request) => request,
        Err(text) => {
            return Err(
                ApiError::new(
                    400,
                    ErrorDetail::new(
                        ErrorCode::InvalidRequest,
                        joined("请求 JSON 无效: ", text.as_str()),
                        false,
                    ),
                ),
            );
        },
    };
    let request = match request.normalized(config) {
        Ok(request) => request,
        Err(error) => {
            return Err(ApiError::from_detail(error));
        },
    };
    let wait_ms = request.timeout_ms.saturating_add(1_000);
    match SearchCommand::new(kind, request, config) {
        Ok(command) => Ok(SearchPlan { kind, command, wait_ms }),
        Err(error) => Err(ApiError::from_detail(error)),
    }
}

/// What the caller of a search is answered once the wait is over.
pub fn search_answer(kind: SearchKind, waited: Waited) -> (result: Result<SearchResponse, ApiError>)
    ensures
        match waited {
            Waited::Answered(Ok(results)) => result == Ok::<SearchResponse, ApiError>(
                SearchResponse { kind, results },
            ),
            Waited::Answered(Err(detail)) => result == Err::<SearchResponse, ApiError>(
                ApiError { status: status_of(detail.code), detail },
            ),
            Waited::Closed => {
                &&& result matches Err(error)
                &&& error.status == 500
                &&& error.detail.says(
                    ErrorCode::InternalError,
                    "搜索任务响应通道意外关闭"@,
                    true,
                )
            },
            Waited::TimedOut => {
                &&& result matches Err(error)
                &&& error.status == 504
                &&& error.detail.says(ErrorCode::Timeout, "HTTP 请求等待搜索结果超时"@, true)
            },
        },
{
    match waited {
        Waited::Answered(Ok(results)) => Ok(SearchResponse::new(kind, results)),
        Waited::Answered(Err(detail)) => Err(ApiError::from_detail(detail)),
        Waited::Closed => Err(
            ApiError::from_detail(
                ErrorDetail::new(
                    ErrorCode::InternalError,
                    "搜索任务响应通道意外关闭".to_owned(),
                    true,
                ),
            ),
        ),
        Waited::TimedOut => Err(
            ApiError::from_detail(ErrorDetail::timeout("HTTP 请求等待搜索结果超时".to_owned())),
        ),
    }
}

/// An error code is never answered with a success.
pub proof fn errors_are_answered_with_error_statuses(code: ErrorCode)
    ensures
        400 <= status_of(code) < 600,
{
}

} // verus!
