//! Interpreting one status query: the outcome of the console call is
//! turned into a status snapshot or a distinct error. A transport
//! failure — and nothing else — reads as "the server is offline"; a
//! response that does not match the active grammar is a parse error,
//! and a protocol rejection is surfaced as such.

use vstd::prelude::*;

verus! {

use crate::session::SessionError;
use crate::status::{unstructured_parse_ok, parse_unstructured, trim_spec, spec_parse_unstructured,
    ServerStatus};
use crate::structured::{parse_structured, spec_parse_structured};

/// A failed status query that is not "offline".
#[derive(Clone, Copy, PartialEq, Eq, Structural, Debug)]
pub enum QueryError {
    /// The console answered, but the structured payload did not parse.
    StructuredParse,
    /// The console answered, but the line did not match the
    /// unstructured grammar.
    UnstructuredParse,
    /// The console rejected the query itself (bad credential, command
    /// too long).
    Rejected(SessionError),
}

/// The operator-facing text of a failed query, kept distinct from the
/// "offline" rendering.
pub open spec fn spec_message(e: QueryError) -> Seq<char> {
    match e {
        QueryError::StructuredParse => "Deserialization error (this is a bug)"@,
        QueryError::UnstructuredParse => "Regex error (this is a bug)"@,
        QueryError::Rejected(se) => crate::session::session_error_text(se),
    }
}

impl QueryError {
    /// The operator-facing text of this error, kept distinct from the
    /// "offline" rendering.
    pub fn message(&self) -> (r: String)
        ensures
            r@ == spec_message(*self),
    {
        match self {
            QueryError::StructuredParse => "Deserialization error (this is a bug)".to_owned(),
            QueryError::UnstructuredParse => "Regex error (this is a bug)".to_owned(),
            QueryError::Rejected(SessionError::Auth) => "Invalid authentication (check bot config).".to_owned(),
            QueryError::Rejected(SessionError::CommandTooLong) => "Command too long.".to_owned(),
            QueryError::Rejected(SessionError::Transport) => "The server is closed.".to_owned(),
        }
    }
}

/// Interprets the outcome of the status query.
///
/// A transport failure of the session — and only that — yields
/// `Offline`. A protocol rejection is surfaced as `Rejected`, and a
/// response that does not match the grammar selected by
/// `uses_structured_list` is a parse error: neither is ever conflated
/// with "offline".
pub fn get_server_status(exec_result: &Result<String, SessionError>, uses_structured_list: bool)
    -> (r: Result<ServerStatus, QueryError>)
    ensures
        r == Ok::<ServerStatus, QueryError>(ServerStatus::Offline) <==> *exec_result == Err::<
            String,
            SessionError,
        >(SessionError::Transport),
        match *exec_result {
            Err(e) => e != SessionError::Transport ==> r == Err::<ServerStatus, QueryError>(
                QueryError::Rejected(e),
            ),
            Ok(text) => match r {
                Ok(st) => st matches ServerStatus::Online(o) && (if uses_structured_list {
                    spec_parse_structured(text@) == Some(o@)
                } else {
                    unstructured_parse_ok(text@, o@)
                }),
                Err(qe) => if uses_structured_list {
                    qe == QueryError::StructuredParse && spec_parse_structured(text@) is None
                } else {
                    qe == QueryError::UnstructuredParse
                },
            },
        },
{
    match exec_result {
        Err(e) => {
            if matches!(e, SessionError::Transport) {
                Ok(ServerStatus::Offline)
            } else {
                Err(QueryError::Rejected(*e))
            }
        },
        Ok(text) => {
            if uses_structured_list {
                match parse_structured(text.as_str()) {
                    Some(st) => Ok(ServerStatus::Online(st)),
                    None => Err(QueryError::StructuredParse),
                }
            } else {
                match parse_unstructured(text.as_str()) {
                    Some(st) => Ok(ServerStatus::Online(st)),
                    None => Err(QueryError::UnstructuredParse),
                }
            }
        },
    }
}

} // verus!
