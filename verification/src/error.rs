//! What can go wrong, and how it is reported.

use vstd::prelude::*;

verus! {

/// An error of the environment controller. Each carries its message.
#[derive(Debug)]
pub enum EnvironmentError {
    Invalid(String),
    NotFound(String),
    NoRoute(String),
    Conflict(String),
    Denied(String),
    Unauthorized(String),
    Unavailable(String),
    RuntimeUnavailable(String),
    UpgradeFailed(String),
    Io(String),
    Json(String),
    Compute(String),
}

/// An error of the control state: the report it gives of itself, or, for
/// an invalid request and for an outage, its message.
#[derive(Debug)]
pub enum StateError {
    Conflict(String),
    Precondition(String),
    NotFound(String),
    Invalid(String),
    Unavailable(String),
}

/// Why a request is refused.
pub ghost enum Refusal {
    Invalid(Seq<char>),
    NotFound(Seq<char>),
    Conflict(Seq<char>),
    Denied(Seq<char>),
    UpgradeFailed(Seq<char>),
    RuntimeUnavailable(Seq<char>),
    Compute(Seq<char>),
    Unavailable(Seq<char>),
}

impl EnvironmentError {
    /// Whether the error reports a refusal.
    pub open spec fn reports(self, refusal: Refusal) -> bool {
        match refusal {
            Refusal::Invalid(text) => self is Invalid && self.text() == text,
            Refusal::NotFound(text) => self is NotFound && self.text() == text,
            Refusal::Conflict(text) => self is Conflict && self.text() == text,
            Refusal::Denied(text) => self is Denied && self.text() == text,
            Refusal::UpgradeFailed(text) => self is UpgradeFailed && self.text() == text,
            Refusal::RuntimeUnavailable(text) => self is RuntimeUnavailable && self.text() == text,
            Refusal::Compute(text) => self is Compute && self.text() == text,
            Refusal::Unavailable(text) => self is Unavailable && self.text() == text,
        }
    }

    /// The text the error carries.
    pub open spec fn text(self) -> Seq<char> {
        match self {
            EnvironmentError::Invalid(text) => text@,
            EnvironmentError::NotFound(text) => text@,
            EnvironmentError::NoRoute(text) => text@,
            EnvironmentError::Conflict(text) => text@,
            EnvironmentError::Denied(text) => text@,
            EnvironmentError::Unauthorized(text) => text@,
            EnvironmentError::Unavailable(text) => text@,
            EnvironmentError::RuntimeUnavailable(text) => text@,
            EnvironmentError::UpgradeFailed(text) => text@,
            EnvironmentError::Io(text) => text@,
            EnvironmentError::Json(text) => text@,
            EnvironmentError::Compute(text) => text@,
        }
    }

    pub open spec fn kind_text(self) -> Seq<char> {
        match self {
            EnvironmentError::Invalid(_) => "invalid"@,
            EnvironmentError::Json(_) => "invalid"@,
            EnvironmentError::Compute(_) => "invalid"@,
            EnvironmentError::NotFound(_) => "not_found"@,
            EnvironmentError::NoRoute(_) => "no_route"@,
            EnvironmentError::Conflict(_) => "conflict"@,
            EnvironmentError::Denied(_) => "admission_denied"@,
            EnvironmentError::Unauthorized(_) => "unauthorized"@,
            EnvironmentError::Unavailable(_) => "state_unavailable"@,
            EnvironmentError::RuntimeUnavailable(_) => "runtime_unavailable"@,
            EnvironmentError::UpgradeFailed(_) => "upgrade_failed"@,
            EnvironmentError::Io(_) => "io"@,
        }
    }

    pub open spec fn prefix_text(self) -> Seq<char> {
        match self {
            EnvironmentError::Invalid(_) => "invalid: "@,
            EnvironmentError::NotFound(_) => "not found: "@,
            EnvironmentError::NoRoute(_) => "no such operation: "@,
            EnvironmentError::Conflict(_) => "conflict: "@,
            EnvironmentError::Denied(_) => "admission denied: "@,
            EnvironmentError::Unauthorized(_) => "unauthorized: "@,
            EnvironmentError::Unavailable(_) => "control state unavailable: "@,
            EnvironmentError::RuntimeUnavailable(_) => "runtime unavailable: "@,
            EnvironmentError::UpgradeFailed(_) => "upgrade failed: "@,
            EnvironmentError::Io(_) => "I/O error: "@,
            EnvironmentError::Json(_) => "JSON error: "@,
            EnvironmentError::Compute(_) => ""@,
        }
    }

    /// The full report: what kind of error it is, then its text.
    pub open spec fn report(self) -> Seq<char> {
        self.prefix_text() + self.text()
    }

    /// A stable identifier of the kind of error, for clients.
    pub fn kind(&self) -> (r: &'static str)
        ensures
            r@ == self.kind_text(),
    {
        match self {
            EnvironmentError::Invalid(_) => "invalid",
            EnvironmentError::Json(_) => "invalid",
            EnvironmentError::Compute(_) => "invalid",
            EnvironmentError::NotFound(_) => "not_found",
            EnvironmentError::NoRoute(_) => "no_route",
            EnvironmentError::Conflict(_) => "conflict",
            EnvironmentError::Denied(_) => "admission_denied",
            EnvironmentError::Unauthorized(_) => "unauthorized",
            EnvironmentError::Unavailable(_) => "state_unavailable",
            EnvironmentError::RuntimeUnavailable(_) => "runtime_unavailable",
            EnvironmentError::UpgradeFailed(_) => "upgrade_failed",
            EnvironmentError::Io(_) => "io",
        }
    }

    /// The message alone: without its kind where the kind is reported
    /// beside it, the full report otherwise.
    pub fn message(&self) -> (r: String)
        ensures
            r@ == (match *self {
                EnvironmentError::Io(_) => self.report(),
                EnvironmentError::Json(_) => self.report(),
                EnvironmentError::Compute(_) => self.report(),
                _ => self.text(),
            }),
    {
        match self {
            EnvironmentError::Invalid(text) => text.clone(),
            EnvironmentError::NotFound(text) => text.clone(),
            EnvironmentError::NoRoute(text) => text.clone(),
            EnvironmentError::Conflict(text) => text.clone(),
            EnvironmentError::Denied(text) => text.clone(),
            EnvironmentError::Unauthorized(text) => text.clone(),
            EnvironmentError::Unavailable(text) => text.clone(),
            EnvironmentError::RuntimeUnavailable(text) => text.clone(),
            EnvironmentError::UpgradeFailed(text) => text.clone(),
            _ => self.to_text(),
        }
    }

    /// The full report as a string.
    pub fn to_text(&self) -> (r: String)
        ensures
            r@ == self.report(),
    {
        let (prefix, text) = match self {
            EnvironmentError::Invalid(text) => ("invalid: ", text),
            EnvironmentError::NotFound(text) => ("not found: ", text),
            EnvironmentError::NoRoute(text) => ("no such operation: ", text),
            EnvironmentError::Conflict(text) => ("conflict: ", text),
            EnvironmentError::Denied(text) => ("admission denied: ", text),
            EnvironmentError::Unauthorized(text) => ("unauthorized: ", text),
            EnvironmentError::Unavailable(text) => ("control state unavailable: ", text),
            EnvironmentError::RuntimeUnavailable(text) => ("runtime unavailable: ", text),
            EnvironmentError::UpgradeFailed(text) => ("upgrade failed: ", text),
            EnvironmentError::Io(text) => ("I/O error: ", text),
            EnvironmentError::Json(text) => ("JSON error: ", text),
            EnvironmentError::Compute(text) => ("", text),
        };
        let mut r = prefix.to_owned();
        r.append(text);
        r
    }

    pub open spec fn status_code(self) -> u16 {
        match self {
            EnvironmentError::Invalid(_) => 400,
            EnvironmentError::Json(_) => 400,
            EnvironmentError::Compute(_) => 400,
            EnvironmentError::Unauthorized(_) => 401,
            EnvironmentError::Denied(_) => 403,
            EnvironmentError::NotFound(_) => 404,
            EnvironmentError::NoRoute(_) => 404,
            EnvironmentError::Conflict(_) => 409,
            EnvironmentError::UpgradeFailed(_) => 409,
            EnvironmentError::Io(_) => 500,
            EnvironmentError::Unavailable(_) => 503,
            EnvironmentError::RuntimeUnavailable(_) => 503,
        }
    }

    /// The HTTP status an API answers with.
    pub fn status(&self) -> (r: u16)
        ensures
            r == self.status_code(),
    {
        match self {
            EnvironmentError::Invalid(_) => 400,
            EnvironmentError::Json(_) => 400,
            EnvironmentError::Compute(_) => 400,
            EnvironmentError::Unauthorized(_) => 401,
            EnvironmentError::Denied(_) => 403,
            EnvironmentError::NotFound(_) => 404,
            EnvironmentError::NoRoute(_) => 404,
            EnvironmentError::Conflict(_) => 409,
            EnvironmentError::UpgradeFailed(_) => 409,
            EnvironmentError::Io(_) => 500,
            EnvironmentError::Unavailable(_) => 503,
            EnvironmentError::RuntimeUnavailable(_) => 503,
        }
    }
}

/// The report of a change that lost a race.
pub open spec fn retry_text(error: Seq<char>) -> Seq<char> {
    error + "; another change landed first, retry against the current state"@
}

/// What a failure of the control state is to a caller of the controller.
pub fn from_state(error: StateError) -> (r: EnvironmentError)
    ensures
        match error {
            StateError::Conflict(text) => r is Conflict && r.text() == retry_text(text@),
            StateError::Precondition(text) => r is Conflict && r.text() == retry_text(text@),
            StateError::NotFound(text) => r is NotFound && r.text() == text@,
            StateError::Invalid(text) => r is Invalid && r.text() == text@,
            StateError::Unavailable(text) => r is Unavailable && r.text() == text@,
        },
{
    match error {
        StateError::Conflict(text) => EnvironmentError::Conflict(retry(text)),
        StateError::Precondition(text) => EnvironmentError::Conflict(retry(text)),
        StateError::NotFound(text) => EnvironmentError::NotFound(text),
        StateError::Invalid(text) => EnvironmentError::Invalid(text),
        StateError::Unavailable(text) => EnvironmentError::Unavailable(text),
    }
}

fn retry(text: String) -> (r: String)
    ensures
        r@ == retry_text(text@),
{
    text.concat("; another change landed first, retry against the current state")
}

// ---- Laws -------------------------------------------------------------------

/// What a caller asked for wrongly is answered in the four hundreds, what
/// the node could not do in the five hundreds. A request that was not
/// understood is 400, one without a credential 401, one that is denied 403,
/// one for something that is not there 404, and one that lost to another
/// 409.
pub proof fn law_errors_say_whose_they_are(error: EnvironmentError)
    ensures
        error.status_code() == 400 <==> error is Invalid || error is Json || error is Compute,
        error.status_code() == 401 <==> error is Unauthorized,
        error.status_code() == 403 <==> error is Denied,
        error.status_code() == 404 <==> error is NotFound || error is NoRoute,
        error.status_code() == 409 <==> error is Conflict || error is UpgradeFailed,
        error.status_code() == 500 <==> error is Io,
        error.status_code() == 503 <==> error is Unavailable || error is RuntimeUnavailable,
{
}

/// Errors of one kind for clients are of one status.
pub proof fn law_kinds_have_one_status(a: EnvironmentError, b: EnvironmentError)
    requires
        a.kind_text() == b.kind_text(),
    ensures
        a.status_code() == b.status_code(),
{
    reveal_strlit("invalid");
    reveal_strlit("not_found");
    reveal_strlit("no_route");
    reveal_strlit("conflict");
    reveal_strlit("admission_denied");
    reveal_strlit("unauthorized");
    reveal_strlit("state_unavailable");
    reveal_strlit("runtime_unavailable");
    reveal_strlit("upgrade_failed");
    reveal_strlit("io");
    assert("invalid"@.len() == 7 && "not_found"@.len() == 9 && "no_route"@.len() == 8
        && "conflict"@.len() == 8 && "admission_denied"@.len() == 16 && "unauthorized"@.len() == 12
        && "state_unavailable"@.len() == 17 && "runtime_unavailable"@.len() == 19
        && "upgrade_failed"@.len() == 14 && "io"@.len() == 2);
    assert("no_route"@[0] == 'n' && "conflict"@[0] == 'c');
}

/// An error reports a refusal of its own kind and text, and no other.
pub proof fn law_refusals_are_reported_as_they_are(error: EnvironmentError, text: Seq<char>)
    ensures
        error.reports(Refusal::Invalid(text)) <==> (error matches EnvironmentError::Invalid(held)
            && held@ == text),
        error.reports(Refusal::NotFound(text)) <==> (error matches EnvironmentError::NotFound(held)
            && held@ == text),
        error.reports(Refusal::Conflict(text)) <==> (error matches EnvironmentError::Conflict(held)
            && held@ == text),
        error.reports(Refusal::Denied(text)) <==> (error matches EnvironmentError::Denied(held)
            && held@ == text),
        error.reports(Refusal::UpgradeFailed(text)) <==> (
        error matches EnvironmentError::UpgradeFailed(held) && held@ == text),
        error.reports(Refusal::RuntimeUnavailable(text)) <==> (
        error matches EnvironmentError::RuntimeUnavailable(held) && held@ == text),
        error.reports(Refusal::Compute(text)) <==> (error matches EnvironmentError::Compute(held)
            && held@ == text),
        error.reports(Refusal::Unavailable(text)) <==> (
        error matches EnvironmentError::Unavailable(held) && held@ == text),
{
}

} // verus!
