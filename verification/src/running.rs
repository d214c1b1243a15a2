//! Reading the status of an invocation, and insisting that it is running.

use crate::error::{Failure, ResponseError, StatusCode};
use crate::flow::{Reply, Request};
use crate::query::{Column, Query, Value};
use crate::status::{optional_text, status_of, InvocationStatus, StatusView, RUNNING};
use crate::text::concat3;
use vstd::prelude::*;

verus! {

/// The reply is one to the question for the status of an invocation.
pub open spec fn is_status_reply(reply: Reply) -> bool {
    match reply {
        Reply::Failed(_) => true,
        Reply::Optional(None) => true,
        Reply::Optional(Some(row)) => row.fits(seq![Column::Text, Column::OptionalText]),
        _ => false,
    }
}

/// What the reply says of the invocation: nothing if it is not recorded, its status, or an error.
pub open spec fn is_stored_status(
    reply: Reply,
    status: Result<Option<InvocationStatus>, Failure>,
) -> bool {
    match reply {
        Reply::Optional(None) => status == Ok::<Option<InvocationStatus>, Failure>(None),
        Reply::Optional(Some(row)) => match status_of(
            row.spec_text(0)@,
            optional_text(row.spec_optional_text(1)),
        ) {
            Some(s) => status matches Ok(Some(read)) && read@ == s,
            None => status matches Err(e) && e@ == seq![
                "deserializing invocation status"@,
                "received unknown status from DB: "@ + row.spec_text(0)@,
            ],
        },
        Reply::Failed(error) => status matches Err(e) && e@ == seq![
            "fetching invocation status"@,
        ] + error@,
        _ => false,
    }
}

/// The reply shows an invocation that is running.
pub open spec fn shows_running(reply: Reply) -> bool {
    reply matches Reply::Optional(Some(row)) && row.spec_text(0)@ == RUNNING@
}

impl InvocationStatus {
    /// The question for the status of an invocation.
    pub fn query(invocation_uuid: &String) -> (request: Request)
        ensures
            request == Request::FetchOptional(
                Query::InvocationStatus { uuid: *invocation_uuid },
            ),
    {
        Request::FetchOptional(Query::InvocationStatus { uuid: invocation_uuid.clone() })
    }

    /// Reads the status of an invocation from the reply to that question.
    pub fn get(reply: Reply) -> (status: Result<Option<InvocationStatus>, Failure>)
        requires
            is_status_reply(reply),
        ensures
            is_stored_status(reply, status),
    {
        match reply {
            Reply::Optional(None) => Ok(None),
            Reply::Optional(Some(row)) => {
                let text = row.text(0);
                match InvocationStatus::from_db_status(text.as_str(), row.optional_text(1)) {
                    Ok(status) => Ok(Some(status)),
                    Err(error) => {
                        let error = error.context("deserializing invocation status");
                        assert(error@ =~= seq![
                            "deserializing invocation status"@,
                            "received unknown status from DB: "@ + text@,
                        ]);
                        Err(error)
                    },
                }
            },
            Reply::Failed(error) => Err(error.context("fetching invocation status")),
            _ => vstd::pervasive::unreached(),
        }
    }
}

/// The answer to a request that needs a running invocation.
pub open spec fn is_running_check(
    invocation_uuid: Seq<char>,
    reply: Reply,
    check: Result<(), ResponseError>,
) -> bool {
    match reply {
        Reply::Optional(None) => check matches Err(e) && e.says(
            seq!["invocation '"@ + invocation_uuid + "' not found"@],
            StatusCode::NotFound,
        ),
        Reply::Optional(Some(row)) => match status_of(
            row.spec_text(0)@,
            optional_text(row.spec_optional_text(1)),
        ) {
            Some(StatusView::Running) => check == Ok::<(), ResponseError>(()),
            Some(_) => check matches Err(e) && e.says(
                seq!["invocation '"@ + invocation_uuid + "' is not running"@],
                StatusCode::BadRequest,
            ),
            None => check matches Err(e) && e.says(
                seq![
                    "deserializing invocation status"@,
                    "received unknown status from DB: "@ + row.spec_text(0)@,
                ],
                StatusCode::InternalServerError,
            ),
        },
        Reply::Failed(error) => check matches Err(e) && e.says(
            seq!["fetching invocation status"@] + error@,
            StatusCode::InternalServerError,
        ),
        _ => false,
    }
}

/// Refuses a request unless the invocation that it is about is running.
pub fn check_running(invocation_uuid: &str, reply: Reply) -> (check: Result<(), ResponseError>)
    requires
        is_status_reply(reply),
    ensures
        is_running_check(invocation_uuid@, reply, check),
{
    match InvocationStatus::get(reply) {
        Err(error) => Err(ResponseError { error, code: StatusCode::InternalServerError }),
        Ok(None) => Err(
            ResponseError::new(
                concat3("invocation '", invocation_uuid, "' not found"),
                StatusCode::NotFound,
            ),
        ),
        Ok(Some(status)) => {
            if status.is_running() {
                Ok(())
            } else {
                Err(
                    ResponseError::new(
                        concat3("invocation '", invocation_uuid, "' is not running"),
                        StatusCode::BadRequest,
                    ),
                )
            }
        },
    }
}

/// The check lets a request pass exactly if the invocation is recorded as running.
pub proof fn check_passes_only_running(
    invocation_uuid: Seq<char>,
    reply: Reply,
    check: Result<(), ResponseError>,
)
    requires
        is_running_check(invocation_uuid, reply, check),
    ensures
        check is Ok <==> shows_running(reply),
{
    crate::status::status_texts_differ();
}

/// What a request is answered that needs a running invocation: it passes if the status column says
/// so; an invocation that has ended is a bad request, one that is not recorded is not found, and
/// what cannot be read is a failure of the service.
pub proof fn request_needs_a_running_invocation(
    invocation_uuid: Seq<char>,
    reply: Reply,
    check: Result<(), ResponseError>,
)
    requires
        is_status_reply(reply),
        is_running_check(invocation_uuid, reply, check),
    ensures
        reply matches Reply::Optional(None) ==> (check matches Err(e) && e.says(
            seq!["invocation '"@ + invocation_uuid + "' not found"@],
            StatusCode::NotFound,
        )),
        reply matches Reply::Optional(Some(row)) ==> {
            &&& row.cells@.len() == 2
            &&& row.cells@[0] matches Value::Text(text)
            &&& text@ == "running"@ <==> check is Ok
            &&& text@ == "failed"@ || text@ == "completed"@ || text@ == "canceled"@ || text@
                == "timeout"@ ==> (check matches Err(e) && e.says(
                seq!["invocation '"@ + invocation_uuid + "' is not running"@],
                StatusCode::BadRequest,
            ))
            &&& text@ != "running"@ && text@ != "failed"@ && text@ != "completed"@ && text@
                != "canceled"@ && text@ != "timeout"@ ==> (check matches Err(e) && e.says(
                seq![
                    "deserializing invocation status"@,
                    "received unknown status from DB: "@ + text@,
                ],
                StatusCode::InternalServerError,
            ))
        },
        reply matches Reply::Failed(error) ==> (check matches Err(e) && e.says(
            seq!["fetching invocation status"@] + error@,
            StatusCode::InternalServerError,
        )),
{
    crate::status::status_texts_differ();
    if let Reply::Optional(Some(row)) = reply {
        assert(row.cells@[0].kind() == Column::Text);
    }
}

/// What is read of an invocation: nothing if it is not recorded, and else the status that the
/// columns say, with the reason of a failure.
pub proof fn stored_status_is_what_the_columns_say(
    reply: Reply,
    status: Result<Option<InvocationStatus>, Failure>,
)
    requires
        is_status_reply(reply),
        is_stored_status(reply, status),
    ensures
        reply matches Reply::Optional(None) ==> (status matches Ok(read) && read is None),
        reply is Failed ==> status is Err,
        reply matches Reply::Optional(Some(row)) ==> {
            &&& row.cells@[0] matches Value::Text(text)
            &&& text@ == "running"@ <==> (status matches Ok(Some(read)) && read is Running)
            &&& text@ == "completed"@ <==> (status matches Ok(Some(read)) && read is Completed)
            &&& text@ == "canceled"@ <==> (status matches Ok(Some(read)) && read is Canceled)
            &&& text@ == "timeout"@ <==> (status matches Ok(Some(read)) && read is Timeout)
            &&& text@ == "failed"@ <==> (status matches Ok(Some(read)) && read is Failed)
            &&& status matches Ok(Some(InvocationStatus::Failed(why))) ==> {
                &&& row.cells@[1] matches Value::OptionalText(reason)
                &&& reason matches Some(r) ==> why@ == r@
                &&& reason is None ==> why@.len() == 0
            }
        },
{
    crate::status::status_texts_differ();
    if let Reply::Optional(Some(row)) = reply {
        assert(row.cells@[0].kind() == Column::Text);
        assert(row.cells@[1].kind() == Column::OptionalText);
    }
}

} // verus!
