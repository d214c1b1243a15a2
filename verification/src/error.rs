//! Errors: a message with what caused it, and the HTTP status it is answered with.

use vstd::prelude::*;

verus! {

/// The texts of a list of strings.
pub open spec fn texts(list: Seq<String>) -> Seq<Seq<char>> {
    list.map_values(|s: String| s@)
}

/// An error: its message, and the messages of what caused it, from the nearest to the root.
#[derive(Debug)]
pub struct Failure {
    pub message: String,
    pub sources: Vec<String>,
}

impl View for Failure {
    type V = Seq<Seq<char>>;

    /// The messages, the outermost first.
    open spec fn view(&self) -> Seq<Seq<char>> {
        seq![self.message@] + texts(self.sources@)
    }
}

impl Failure {
    /// An error without a cause.
    pub fn msg(message: String) -> (error: Failure)
        ensures
            error@ == seq![message@],
    {
        let error = Failure { message, sources: Vec::new() };
        assert(error@ =~= seq![message@]);
        error
    }

    /// Wraps an error: `context` becomes the message, and the error its cause.
    pub fn context(self, context: &str) -> (error: Failure)
        ensures
            error@ == seq![context@] + self@,
    {
        let mut sources = self.sources;
        sources.insert(0, self.message);
        let error = Failure { message: context.to_string(), sources };
        assert(texts(error.sources@) =~= seq![self.message@] + texts(self.sources@));
        assert(error@ =~= seq![context@] + self@);
        error
    }

    /// Wraps an error twice, in `inner` and then in `outer`.
    pub fn context2(self, inner: &str, outer: &str) -> (error: Failure)
        ensures
            error@ == seq![outer@, inner@] + self@,
    {
        let error = self.context(inner).context(outer);
        assert(error@ =~= seq![outer@, inner@] + self@);
        error
    }
}

/// The HTTP statuses that a request can be refused with.
#[derive(Debug, Clone, Copy, PartialEq, Eq, Structural)]
pub enum StatusCode {
    BadRequest,
    NotFound,
    InternalServerError,
}

impl StatusCode {
    /// The number of the status.
    pub open spec fn number(self) -> u16 {
        match self {
            StatusCode::BadRequest => 400,
            StatusCode::NotFound => 404,
            StatusCode::InternalServerError => 500,
        }
    }

    /// The number of the status.
    pub fn as_u16(&self) -> (number: u16)
        ensures
            number == self.number(),
    {
        match self {
            StatusCode::BadRequest => 400,
            StatusCode::NotFound => 404,
            StatusCode::InternalServerError => 500,
        }
    }
}

/// Why a request was refused.
#[derive(Debug)]
pub struct ResponseError {
    pub error: Failure,
    pub code: StatusCode,
}

/// The body of the answer to a refused request.
pub struct ErrorBody {
    pub error: String,
    pub sources: Vec<String>,
}

impl ResponseError {
    /// The refusal says `messages`, the outermost first, under the status `code`.
    pub open spec fn says(&self, messages: Seq<Seq<char>>, code: StatusCode) -> bool {
        self.error@ == messages && self.code == code
    }

    /// The answer has the status, the message of the error, and the messages of its causes.
    pub open spec fn is_answered_with(&self, code: StatusCode, body: ErrorBody) -> bool {
        &&& code == self.code
        &&& body.error@ == self.error@[0]
        &&& texts(body.sources@) == self.error@.skip(1)
    }

    /// Refuses a request with a message and a status.
    pub fn new(message: String, code: StatusCode) -> (refusal: ResponseError)
        ensures
            refusal.says(seq![message@], code),
    {
        ResponseError { error: Failure::msg(message), code }
    }

    /// A failure of the service itself, while it was doing `context`.
    pub fn internal(error: Failure, context: &str) -> (refusal: ResponseError)
        ensures
            refusal.says(seq![context@] + error@, StatusCode::InternalServerError),
    {
        ResponseError { error: error.context(context), code: StatusCode::InternalServerError }
    }

    /// The answer: the status, the message of the error, and the messages of its causes.
    pub fn into_response(self) -> (response: (StatusCode, ErrorBody))
        ensures
            self.is_answered_with(response.0, response.1),
    {
        let body = ErrorBody { error: self.error.message, sources: self.error.sources };
        assert(texts(body.sources@) =~= self.error@.skip(1));
        (self.code, body)
    }
}

/// Results whose error can be given an HTTP status.
pub trait ResultToResponseError<T>: Sized {
    /// `refused` is `self` with the status `code` on its error.
    spec fn coded(self, code: StatusCode, refused: Result<T, ResponseError>) -> bool;

    /// Gives the error, if any, the status `code`.
    fn with_code(self, code: StatusCode) -> (refused: Result<T, ResponseError>)
        ensures
            self.coded(code, refused),
    ;
}

impl<T> ResultToResponseError<T> for Result<T, Failure> {
    open spec fn coded(self, code: StatusCode, refused: Result<T, ResponseError>) -> bool {
        match self {
            Ok(value) => refused == Ok::<T, ResponseError>(value),
            Err(error) => refused == Err::<T, ResponseError>(ResponseError { error, code }),
        }
    }

    fn with_code(self, code: StatusCode) -> (refused: Result<T, ResponseError>) {
        match self {
            Ok(value) => Ok(value),
            Err(error) => Err(ResponseError { error, code }),
        }
    }
}

/// How the handling of a request ends.
pub enum Outcome<T> {
    /// The request is answered.
    Answer(T),
    /// The request is refused.
    Refused(ResponseError),
    /// The handling cannot go on, because a value that the service relies on is malformed; the
    /// caller has to give up with this message.
    Abort(&'static str),
}

/// The statuses have the numbers that HTTP gives them.
pub proof fn statuses_have_their_numbers(code: StatusCode)
    ensures
        code is BadRequest ==> code.number() == 400,
        code is NotFound ==> code.number() == 404,
        code is InternalServerError ==> code.number() == 500,
{
}

/// Nothing of a refusal is lost in its answer, and nothing is added: it has the status of the
/// refusal, and its message before those of its causes are the messages of the refusal.
pub proof fn answer_says_what_was_refused(
    refusal: ResponseError,
    messages: Seq<Seq<char>>,
    code: StatusCode,
    answered: StatusCode,
    body: ErrorBody,
)
    requires
        refusal.says(messages, code),
        refusal.is_answered_with(answered, body),
    ensures
        answered == code,
        messages.len() == body.sources@.len() + 1,
        messages[0] == body.error@,
        forall|i: int| 0 <= i < body.sources@.len() ==> (#[trigger] body.sources@[i])@ == messages[i
            + 1],
{
    assert(messages.len() == texts(refusal.error.sources@).len() + 1);
    assert(texts(body.sources@).len() == messages.skip(1).len());
    assert forall|i: int| 0 <= i < body.sources@.len() implies (#[trigger] body.sources@[i])@
        == messages[i + 1] by {
        assert(texts(body.sources@)[i] == messages.skip(1)[i]);
    }
}

/// A result keeps its value, and an error keeps what it says, whatever status it is given.
pub proof fn status_is_given_to_errors_alone<T>(
    result: Result<T, Failure>,
    code: StatusCode,
    refused: Result<T, ResponseError>,
)
    requires
        result.coded(code, refused),
    ensures
        result is Ok <==> refused is Ok,
        result matches Ok(value) ==> (refused matches Ok(kept) && kept == value),
        result matches Err(error) ==> (refused matches Err(refusal) && refusal.says(error@, code)),
{
}

} // verus!
