//! Errors of the Jira client and the mapping of HTTP status codes onto them.
use vstd::prelude::*;

use crate::text::{chars_of, decimal, decimal_string, push_str};

verus! {

/// `reqwest::Error`, carried through unchanged.
#[verifier::external_type_specification]
#[verifier::external_body]
pub struct ExReqwestError(reqwest::Error);

/// Errors of the Jira client.
#[derive(Debug)]
pub enum JiraError {
    AuthFailed(String),
    InsufficientPermissions(String),
    NotFound(String),
    RateLimited,
    ApiError { status: u16, message: String },
    Network(reqwest::Error),
    Parse(String),
    NotConfigured,
}

/// Whether an error is transient: rate limiting, a network failure, or a
/// 502, 503 or 504 answer.
pub open spec fn retryable(e: &JiraError) -> bool {
    match e {
        JiraError::RateLimited => true,
        JiraError::Network(_) => true,
        JiraError::ApiError { status, .. } => 502 <= *status && *status <= 504,
        _ => false,
    }
}

/// The error that a non-success HTTP answer becomes.
pub open spec fn status_error_kind(status: u16, message: Seq<char>, e: &JiraError) -> bool {
    if status == 401 {
        e matches JiraError::AuthFailed(m) && m@ == message
    } else if status == 403 {
        e matches JiraError::InsufficientPermissions(m) && m@ == message
    } else if status == 404 {
        e matches JiraError::NotFound(m) && m@ == message
    } else if status == 429 {
        e is RateLimited
    } else {
        e matches JiraError::ApiError { status: s, message: m } && s == status && m@ == message
    }
}

/// Whether an HTTP status is a success (2xx).
pub open spec fn is_success(status: u16) -> bool {
    200 <= status && status <= 299
}

/// Whether a substring occurs in `s`.
pub open spec fn contains_seq(s: Seq<char>, pat: Seq<char>) -> bool {
    exists|i: int| 0 <= i && i + pat.len() <= s.len() && #[trigger] s.subrange(i, i + pat.len()) == pat
}

/// The display text of an error (its message).
pub open spec fn error_text(e: &JiraError) -> Option<Seq<char>> {
    match e {
        JiraError::AuthFailed(m) => Some("Authentication failed: "@ + m@),
        JiraError::InsufficientPermissions(m) => Some("Insufficient permissions: "@ + m@),
        JiraError::NotFound(m) => Some("Resource not found: "@ + m@),
        JiraError::RateLimited => Some("Rate limited by Jira API"@),
        JiraError::ApiError { status, message } => Some(
            "Jira API error ("@ + decimal(*status as nat) + "): "@ + message@,
        ),
        JiraError::Network(_) => None,
        JiraError::Parse(m) => Some("Failed to parse response: "@ + m@),
        JiraError::NotConfigured => Some("No Jira connection configured"@),
    }
}

/// The `Display` text of a `reqwest::Error`; it depends on the error's
/// internals, so nothing is stated of it.
#[verifier::external_body]
fn network_error_text(e: &reqwest::Error) -> String {
    format!("{}", e)
}

impl JiraError {
    /// The message of the error, as it is displayed.
    pub fn to_string(&self) -> (r: String)
        ensures
            match error_text(self) {
                Some(t) => r@ == t,
                None => "Network error: "@.is_prefix_of(r@),
            },
    {
        let mut r = String::new();
        match self {
            JiraError::AuthFailed(m) => {
                push_str(&mut r, "Authentication failed: ");
                push_str(&mut r, m.as_str());
            },
            JiraError::InsufficientPermissions(m) => {
                push_str(&mut r, "Insufficient permissions: ");
                push_str(&mut r, m.as_str());
            },
            JiraError::NotFound(m) => {
                push_str(&mut r, "Resource not found: ");
                push_str(&mut r, m.as_str());
            },
            JiraError::RateLimited => push_str(&mut r, "Rate limited by Jira API"),
            JiraError::ApiError { status, message } => {
                push_str(&mut r, "Jira API error (");
                let code = decimal_string(*status as u64);
                push_str(&mut r, code.as_str());
                push_str(&mut r, "): ");
                push_str(&mut r, message.as_str());
            },
            JiraError::Network(e) => {
                push_str(&mut r, "Network error: ");
                let detail = network_error_text(e);
                push_str(&mut r, detail.as_str());
            },
            JiraError::Parse(m) => {
                push_str(&mut r, "Failed to parse response: ");
                push_str(&mut r, m.as_str());
            },
            JiraError::NotConfigured => push_str(&mut r, "No Jira connection configured"),
        }
        r
    }

    /// Whether this error is transient and the operation should be retried.
    pub fn should_retry(&self) -> (r: bool)
        ensures
            r == retryable(self),
    {
        match self {
            JiraError::RateLimited => true,
            JiraError::Network(_) => true,
            JiraError::ApiError { status, .. } => 502 <= *status && *status <= 504,
            _ => false,
        }
    }

    /// The error for a non-success HTTP status and its body text.
    pub fn from_status(status: u16, message: String) -> (r: JiraError)
        ensures
            status_error_kind(status, message@, &r),
    {
        if status == 401 {
            JiraError::AuthFailed(message)
        } else if status == 403 {
            JiraError::InsufficientPermissions(message)
        } else if status == 404 {
            JiraError::NotFound(message)
        } else if status == 429 {
            JiraError::RateLimited
        } else {
            JiraError::ApiError { status, message }
        }
    }

    /// Whether the paginated statuses endpoint is missing or answered in
    /// another shape, so that the legacy endpoint is asked instead: not found
    /// (as such or as a 404 answer), or a body that did not parse.
    pub fn falls_back_to_legacy_statuses(&self) -> (r: bool)
        ensures
            r == (self is NotFound || self is Parse || (self matches JiraError::ApiError {
                status,
                ..
            } && status == 404)),
    {
        match self {
            JiraError::NotFound(_) => true,
            JiraError::ApiError { status, .. } => *status == 404,
            JiraError::Parse(_) => true,
            _ => false,
        }
    }

    /// Whether this is the 400 answer of a workflow that requires fields which
    /// cannot be set automatically.
    pub fn is_required_field_rejection(&self) -> (r: bool)
        ensures
            r == (self matches JiraError::ApiError { status, message } && status == 400
                && contains_seq(message@, "field is required"@)),
    {
        match self {
            JiraError::ApiError { status, message } => {
                if *status == 400 {
                    let cs = chars_of(message.as_str());
                    chars_contain_seq(cs.as_slice(), "field is required")
                } else {
                    false
                }
            },
            _ => false,
        }
    }
}

/// The outcome of a transition request answered with `status` and the body
/// text `message`: success for a 2xx status, else the error of the status.
pub fn transition_result(status: u16, message: String) -> (r: Result<(), JiraError>)
    ensures
        is_success(status) <==> r is Ok,
        r matches Err(e) ==> status_error_kind(status, message@, &e),
{
    if 200 <= status && status <= 299 {
        Ok(())
    } else {
        Err(JiraError::from_status(status, message))
    }
}

/// The outcome of an add-comment request answered with `status` and the
/// body text `message`: success for a 2xx status, else an API error with
/// both, whatever the status.
pub fn add_comment_result(status: u16, message: String) -> (r: Result<(), JiraError>)
    ensures
        is_success(status) <==> r is Ok,
        r matches Err(e) ==> (e matches JiraError::ApiError { status: s, message: m } && s == status
            && m@ == message@),
{
    if 200 <= status && status <= 299 {
        Ok(())
    } else {
        Err(JiraError::ApiError { status, message })
    }
}

/// Whether `pat` occurs in `s`.
pub fn chars_contain_seq(s: &[char], pat: &str) -> (r: bool)
    ensures
        r == contains_seq(s@, pat@),
{
    let p = chars_of(pat);
    if p.len() > s.len() {
        return false;
    }
    let mut i: usize = 0;
    while i <= s.len() - p.len()
        invariant
            p@ == pat@,
            p.len() <= s.len(),
            i <= s.len() - p.len() + 1,
            forall|k: int| 0 <= k < i ==> #[trigger] s@.subrange(k, k + p.len()) != p@,
        decreases s.len() - i,
    {
        let mut j: usize = 0;
        let mut same = true;
        while j < p.len()
            invariant
                i + p.len() <= s.len(),
                j <= p.len(),
                same == (forall|k: int| 0 <= k < j ==> s@[i + k] == p@[k]),
            decreases p.len() - j,
        {
            if s[i + j] != p[j] {
                same = false;
            }
            j += 1;
        }
        if same {
            assert(s@.subrange(i as int, i + p.len()) =~= p@);
            return true;
        }
        assert(s@.subrange(i as int, i + p.len()) != p@) by {
            let k = choose|k: int| 0 <= k < p.len() && s@[i + k] != p@[k];
            assert(s@.subrange(i as int, i + p.len())[k] == s@[i + k]);
        }
        i += 1;
    }
    assert forall|k: int| 0 <= k && k + pat@.len() <= s@.len() implies #[trigger] s@.subrange(
        k,
        k + pat@.len(),
    ) != pat@ by {
        assert(k < i);
    }
    false
}

} // verus!
