//! The status of an invocation, and its form in the database.

use crate::error::Failure;
use crate::text::same_text;
use vstd::prelude::*;

verus! {

pub const RUNNING: &'static str = "running";

pub const FAILED: &'static str = "failed";

pub const COMPLETED: &'static str = "completed";

pub const CANCELED: &'static str = "canceled";

pub const TIMEOUT: &'static str = "timeout";

/// What has become of an invocation.
pub enum InvocationStatus {
    Running,
    Failed(String),
    Completed,
    Canceled,
    Timeout,
}

/// A status with the reason of a failure as text.
#[verifier::ext_equal]
pub enum StatusView {
    Running,
    Failed(Seq<char>),
    Completed,
    Canceled,
    Timeout,
}

impl StatusView {
    /// The text of the status column.
    pub open spec fn db_text(self) -> Seq<char> {
        match self {
            StatusView::Running => RUNNING@,
            StatusView::Failed(_) => FAILED@,
            StatusView::Completed => COMPLETED@,
            StatusView::Canceled => CANCELED@,
            StatusView::Timeout => TIMEOUT@,
        }
    }

    /// The text of the failure column.
    pub open spec fn failure(self) -> Option<Seq<char>> {
        match self {
            StatusView::Failed(reason) => Some(reason),
            _ => None,
        }
    }
}

/// The status that the two columns stand for, if they stand for one.
pub open spec fn status_of(status: Seq<char>, reason: Option<Seq<char>>) -> Option<StatusView> {
    if status == RUNNING@ {
        Some(StatusView::Running)
    } else if status == FAILED@ {
        Some(StatusView::Failed(reason.unwrap_or(Seq::empty())))
    } else if status == COMPLETED@ {
        Some(StatusView::Completed)
    } else if status == CANCELED@ {
        Some(StatusView::Canceled)
    } else if status == TIMEOUT@ {
        Some(StatusView::Timeout)
    } else {
        None
    }
}

/// The text of an optional string.
pub open spec fn optional_text(text: Option<String>) -> Option<Seq<char>> {
    match text {
        Some(s) => Some(s@),
        None => None,
    }
}

impl View for InvocationStatus {
    type V = StatusView;

    open spec fn view(&self) -> StatusView {
        match self {
            InvocationStatus::Running => StatusView::Running,
            InvocationStatus::Failed(reason) => StatusView::Failed(reason@),
            InvocationStatus::Completed => StatusView::Completed,
            InvocationStatus::Canceled => StatusView::Canceled,
            InvocationStatus::Timeout => StatusView::Timeout,
        }
    }
}

impl Clone for InvocationStatus {
    fn clone(&self) -> (status: Self)
        ensures
            status == *self,
    {
        match self {
            InvocationStatus::Running => InvocationStatus::Running,
            InvocationStatus::Failed(reason) => InvocationStatus::Failed(reason.clone()),
            InvocationStatus::Completed => InvocationStatus::Completed,
            InvocationStatus::Canceled => InvocationStatus::Canceled,
            InvocationStatus::Timeout => InvocationStatus::Timeout,
        }
    }
}

/// The texts of the status column are different from each other.
pub proof fn status_texts_differ()
    ensures
        RUNNING@ != FAILED@,
        RUNNING@ != COMPLETED@,
        RUNNING@ != CANCELED@,
        RUNNING@ != TIMEOUT@,
        FAILED@ != COMPLETED@,
        FAILED@ != CANCELED@,
        FAILED@ != TIMEOUT@,
        COMPLETED@ != CANCELED@,
        COMPLETED@ != TIMEOUT@,
        CANCELED@ != TIMEOUT@,
{
    reveal_strlit("running");
    reveal_strlit("failed");
    reveal_strlit("completed");
    reveal_strlit("canceled");
    reveal_strlit("timeout");
    assert(RUNNING@[0] == 'r' && FAILED@[0] == 'f' && COMPLETED@[1] == 'o');
    assert(TIMEOUT@[0] == 't' && CANCELED@[1] == 'a' && CANCELED@[0] == 'c');
}

/// A status that was written to the database is read back as it was: from its two columns every
/// status is recovered, the reason of a failure included.
pub proof fn status_round_trip(status: StatusView)
    ensures
        status_of(status.db_text(), status.failure()) == Some(status),
{
    status_texts_differ();
}

/// Only the five status texts are read as a status.
pub proof fn readable_statuses(status: Seq<char>, reason: Option<Seq<char>>)
    ensures
        status_of(status, reason) is Some <==> exists|s: StatusView| #[trigger]
            s.db_text() == status,
        status_of(status, reason) matches Some(s) ==> s.db_text() == status,
{
    status_texts_differ();
    assert(StatusView::Running.db_text() == RUNNING@);
    assert(StatusView::Failed(Seq::empty()).db_text() == FAILED@);
    assert(StatusView::Completed.db_text() == COMPLETED@);
    assert(StatusView::Canceled.db_text() == CANCELED@);
    assert(StatusView::Timeout.db_text() == TIMEOUT@);
}

impl InvocationStatus {
    /// The text of the status column.
    pub fn to_db_status(&self) -> (text: &'static str)
        ensures
            text@ == self@.db_text(),
    {
        match self {
            InvocationStatus::Running => RUNNING,
            InvocationStatus::Failed(_) => FAILED,
            InvocationStatus::Completed => COMPLETED,
            InvocationStatus::Canceled => CANCELED,
            InvocationStatus::Timeout => TIMEOUT,
        }
    }

    /// Reads a status from the status column and the failure column. A failure without a reason
    /// has an empty one; a text that is no status is an error.
    pub fn from_db_status(status: &str, reason: Option<String>) -> (res: Result<Self, Failure>)
        ensures
            match res {
                Ok(s) => status_of(status@, optional_text(reason)) == Some(s@),
                Err(error) => {
                    &&& status_of(status@, optional_text(reason)) is None
                    &&& error@ == seq!["received unknown status from DB: "@ + status@]
                },
            },
    {
        if same_text(status, RUNNING) {
            Ok(InvocationStatus::Running)
        } else if same_text(status, FAILED) {
            match reason {
                Some(text) => Ok(InvocationStatus::Failed(text)),
                None => Ok(InvocationStatus::Failed(String::new())),
            }
        } else if same_text(status, COMPLETED) {
            Ok(InvocationStatus::Completed)
        } else if same_text(status, CANCELED) {
            Ok(InvocationStatus::Canceled)
        } else if same_text(status, TIMEOUT) {
            Ok(InvocationStatus::Timeout)
        } else {
            Err(Failure::msg("received unknown status from DB: ".to_string().concat(status)))
        }
    }

    /// The reason of a failure.
    pub fn reason(&self) -> (reason: Option<&str>)
        ensures
            match reason {
                Some(text) => self@.failure() == Some(text@),
                None => self@.failure() is None,
            },
    {
        match self {
            InvocationStatus::Failed(reason) => Some(reason.as_str()),
            _ => None,
        }
    }

    /// Tells whether the invocation has completed.
    pub fn is_completed(&self) -> (completed: bool)
        ensures
            completed == (self is Completed),
    {
        matches!(self, InvocationStatus::Completed)
    }

    /// Tells whether the invocation is still running.
    pub fn is_running(&self) -> (running: bool)
        ensures
            running == (self is Running),
    {
        matches!(self, InvocationStatus::Running)
    }
}

/// Every status has its own text in the database, and a failure alone has a reason.
pub proof fn statuses_have_their_texts(status: InvocationStatus)
    ensures
        status is Running ==> status@.db_text() == "running"@,
        status is Failed ==> status@.db_text() == "failed"@,
        status is Completed ==> status@.db_text() == "completed"@,
        status is Canceled ==> status@.db_text() == "canceled"@,
        status is Timeout ==> status@.db_text() == "timeout"@,
        status matches InvocationStatus::Failed(reason) ==> status@.failure() == Some(reason@),
        !(status is Failed) ==> status@.failure() is None,
{
}

/// What is read from the columns: the status whose text stands in the first, with the reason of the
/// second if it is a failure, or an empty one if there is none.
pub proof fn status_is_read_by_its_text(text: Seq<char>, reason: Option<Seq<char>>)
    ensures
        status_of("running"@, reason) == Some(StatusView::Running),
        status_of("completed"@, reason) == Some(StatusView::Completed),
        status_of("canceled"@, reason) == Some(StatusView::Canceled),
        status_of("timeout"@, reason) == Some(StatusView::Timeout),
        reason matches Some(why) ==> status_of("failed"@, reason) == Some(StatusView::Failed(why)),
        reason is None ==> status_of("failed"@, reason) == Some(StatusView::Failed(Seq::empty())),
        text != "running"@ && text != "failed"@ && text != "completed"@ && text != "canceled"@
            && text != "timeout"@ ==> status_of(text, reason) is None,
{
    status_texts_differ();
}

} // verus!
