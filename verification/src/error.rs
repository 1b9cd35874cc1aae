//! Error type of the library and the mapping from `gh` failures to it.

use vstd::prelude::*;

use crate::text::{chars_of, contains, contains_seq, str_is, string_of};

verus! {

/// Every failure the scan / diff / init commands can report.
#[derive(Debug, Clone, PartialEq, Eq)]
pub enum GitlessError {
    /// User input or configuration problem (exit code 1).
    Config(String),
    /// Local I/O failure (exit code 1).
    Io(String),
    /// `gh` reported bad credentials (exit code 2).
    AuthFailed,
    /// Primary or secondary rate limit (exit code 3).
    RateLimitExceeded { reset_at: String },
    /// Any other `gh` / transport / decode failure (exit code 3).
    Http(String),
    /// Some files could not be compared; the report was still emitted (exit code 4).
    PartialFailure { failed_count: usize },
    /// The Trees API reported a truncated listing (exit code 5).
    TreesTruncated,
    /// The consumer of stdout went away; treated as success (exit code 0).
    BrokenPipe,
}

/// Process exit code of each error kind.
pub open spec fn spec_exit_code(e: GitlessError) -> u8 {
    match e {
        GitlessError::Config(_) => 1,
        GitlessError::Io(_) => 1,
        GitlessError::AuthFailed => 2,
        GitlessError::RateLimitExceeded { .. } => 3,
        GitlessError::Http(_) => 3,
        GitlessError::PartialFailure { .. } => 4,
        GitlessError::TreesTruncated => 5,
        GitlessError::BrokenPipe => 0,
    }
}

impl GitlessError {
    /// Exit code the binary reports for this error.
    pub fn exit_code(&self) -> (code: u8)
        ensures
            code == spec_exit_code(*self),
    {
        match self {
            GitlessError::Config(_) => 1,
            GitlessError::Io(_) => 1,
            GitlessError::AuthFailed => 2,
            GitlessError::RateLimitExceeded { .. } => 3,
            GitlessError::Http(_) => 3,
            GitlessError::PartialFailure { .. } => 4,
            GitlessError::TreesTruncated => 5,
            GitlessError::BrokenPipe => 0,
        }
    }
}

} // verus!

verus! {

/// `gh` wrote a bad-credentials message.
pub open spec fn is_auth_stderr(stderr: Seq<char>) -> bool {
    contains_seq(stderr, "Bad credentials"@)
}

/// `gh` wrote a primary or secondary rate-limit message.
pub open spec fn is_rate_limit_stderr(stderr: Seq<char>) -> bool {
    contains_seq(stderr, "secondary rate limit"@) || contains_seq(stderr, "API rate limit exceeded"@)
}

/// `e` is the error a failed `gh api` call with this stderr maps to: bad
/// credentials win over rate limits, which win over the catch-all `Http`
/// that keeps the stderr text unchanged.
pub open spec fn maps_gh_error(stderr: Seq<char>, e: GitlessError) -> bool {
    if is_auth_stderr(stderr) {
        e == GitlessError::AuthFailed
    } else if is_rate_limit_stderr(stderr) {
        e matches GitlessError::RateLimitExceeded { reset_at } && reset_at@ == Seq::<char>::empty()
    } else {
        e matches GitlessError::Http(msg) && msg@ == stderr
    }
}

/// Map the stderr of a failed `gh api` call to an error (see
/// [`maps_gh_error`]).
pub fn map_gh_error(stderr: &str) -> (e: GitlessError)
    ensures
        maps_gh_error(stderr@, e),
{
    let hay = chars_of(stderr);
    if contains(&hay, &chars_of("Bad credentials")) {
        GitlessError::AuthFailed
    } else if contains(&hay, &chars_of("secondary rate limit")) || contains(
        &hay,
        &chars_of("API rate limit exceeded"),
    ) {
        GitlessError::RateLimitExceeded { reset_at: String::new() }
    } else {
        GitlessError::Http(string_of(&hay))
    }
}

/// Text of the `Http` error for a GraphQL `errors[0]` entry that is neither
/// an authentication nor a rate-limit code.
pub open spec fn graphql_error_text(code: Seq<char>, message: Seq<char>) -> Seq<char> {
    "graphql error "@ + code + ": "@ + message
}

/// `e` is the error the first GraphQL `errors[]` entry maps to:
/// `UNAUTHENTICATED` is an authentication failure, `RATE_LIMITED` a rate
/// limit, any other code an `Http` error naming the code and the message.
pub open spec fn maps_graphql_error(code: Seq<char>, message: Seq<char>, e: GitlessError) -> bool {
    if code == "UNAUTHENTICATED"@ {
        e == GitlessError::AuthFailed
    } else if code == "RATE_LIMITED"@ {
        e matches GitlessError::RateLimitExceeded { reset_at } && reset_at@ == Seq::<char>::empty()
    } else {
        e matches GitlessError::Http(msg) && msg@ == graphql_error_text(code, message)
    }
}

/// Map the first entry of a GraphQL `errors[]` array (its
/// `extensions.code`, empty when absent, and its `message`) to an error.
pub fn map_graphql_error(code: &str, message: &str) -> (e: GitlessError)
    ensures
        maps_graphql_error(code@, message@, e),
{
    proof {
        reveal_strlit("UNAUTHENTICATED");
        reveal_strlit("RATE_LIMITED");
        assert("UNAUTHENTICATED"@.len() != "RATE_LIMITED"@.len());
    }
    if str_is(code, "UNAUTHENTICATED") {
        GitlessError::AuthFailed
    } else if str_is(code, "RATE_LIMITED") {
        GitlessError::RateLimitExceeded { reset_at: String::new() }
    } else {
        let mut s = String::new();
        s.append("graphql error ");
        s.append(code);
        s.append(": ");
        s.append(message);
        GitlessError::Http(s)
    }
}

} // verus!

verus! {

/// The `error_code` of the one-line JSON error written to stderr.
pub open spec fn spec_error_code(e: GitlessError) -> Seq<char> {
    match e {
        GitlessError::Config(_) => "CONFIG_ERROR"@,
        GitlessError::Io(_) => "IO_ERROR"@,
        GitlessError::AuthFailed => "AUTH_FAILED"@,
        GitlessError::RateLimitExceeded { .. } => "RATE_LIMIT_EXCEEDED"@,
        GitlessError::Http(_) => "HTTP_ERROR"@,
        GitlessError::PartialFailure { .. } => "PARTIAL_FAILURE"@,
        GitlessError::TreesTruncated => "TREES_TRUNCATED"@,
        GitlessError::BrokenPipe => "BROKEN_PIPE"@,
    }
}

/// The `message` of the one-line JSON error written to stderr.
pub open spec fn spec_error_message(e: GitlessError) -> Seq<char> {
    match e {
        GitlessError::Config(m) => "Configuration error: "@ + m@,
        GitlessError::Io(m) => "I/O error: "@ + m@,
        GitlessError::AuthFailed => "Authentication failed (gh: Bad credentials)"@,
        GitlessError::RateLimitExceeded { .. } => "GitHub API rate limit exceeded"@,
        GitlessError::Http(m) => "GitHub API error: "@ + m@,
        GitlessError::PartialFailure { failed_count } => "Partial failure: "@ + crate::text::decimal(
            failed_count as nat,
        ) + " file(s) failed"@,
        GitlessError::TreesTruncated => "Trees API response truncated"@,
        GitlessError::BrokenPipe => "Broken pipe"@,
    }
}

impl GitlessError {
    /// The `error_code` of the stderr payload.
    pub fn error_code(&self) -> (c: String)
        ensures
            c@ == spec_error_code(*self),
    {
        let code = match self {
            GitlessError::Config(_) => "CONFIG_ERROR",
            GitlessError::Io(_) => "IO_ERROR",
            GitlessError::AuthFailed => "AUTH_FAILED",
            GitlessError::RateLimitExceeded { .. } => "RATE_LIMIT_EXCEEDED",
            GitlessError::Http(_) => "HTTP_ERROR",
            GitlessError::PartialFailure { .. } => "PARTIAL_FAILURE",
            GitlessError::TreesTruncated => "TREES_TRUNCATED",
            GitlessError::BrokenPipe => "BROKEN_PIPE",
        };
        let mut s = String::new();
        crate::text::push_str(&mut s, code);
        s
    }

    /// The `message` of the stderr payload.
    pub fn message(&self) -> (m: String)
        ensures
            m@ == spec_error_message(*self),
    {
        let mut s = String::new();
        match self {
            GitlessError::Config(m) => {
                crate::text::push_str(&mut s, "Configuration error: ");
                crate::text::push_str(&mut s, m.as_str());
            },
            GitlessError::Io(m) => {
                crate::text::push_str(&mut s, "I/O error: ");
                crate::text::push_str(&mut s, m.as_str());
            },
            GitlessError::AuthFailed => crate::text::push_str(&mut s, "Authentication failed (gh: Bad credentials)"),
            GitlessError::RateLimitExceeded { .. } => crate::text::push_str(&mut s, "GitHub API rate limit exceeded"),
            GitlessError::Http(m) => {
                crate::text::push_str(&mut s, "GitHub API error: ");
                crate::text::push_str(&mut s, m.as_str());
            },
            GitlessError::PartialFailure { failed_count } => {
                crate::text::push_str(&mut s, "Partial failure: ");
                crate::text::push_decimal(&mut s, *failed_count);
                crate::text::push_str(&mut s, " file(s) failed");
            },
            GitlessError::TreesTruncated => crate::text::push_str(&mut s, "Trees API response truncated"),
            GitlessError::BrokenPipe => crate::text::push_str(&mut s, "Broken pipe"),
        }
        s
    }
}

} // verus!

