//! Errors of the query server.

use vstd::prelude::*;
use vstd::std_specs::convert::FromSpecImpl;

verus! {

/// Errors that can occur while processing incoming requests.
#[derive(Clone, Debug, PartialEq, Eq)]
pub enum GraphQLServerError {
    /// The query was canceled before it was answered.
    Canceled,
    /// The request was at fault; the text says how.
    ClientError(String),
    /// The query failed; the text is the query error's message.
    QueryError(String),
    /// The server was at fault; the text says how.
    InternalError(String),
}

impl GraphQLServerError {
    /// The text that the error shows.
    pub open spec fn text(&self) -> Seq<char> {
        match self {
            GraphQLServerError::Canceled => "Query was canceled"@,
            GraphQLServerError::ClientError(s) => s@,
            GraphQLServerError::QueryError(e) => e@,
            GraphQLServerError::InternalError(s) => s@,
        }
    }

    /// The text that the error shows.
    pub fn message(&self) -> (message: String)
        ensures
            message@ == self.text(),
    {
        match self {
            GraphQLServerError::Canceled => "Query was canceled".to_owned(),
            GraphQLServerError::ClientError(s) => s.clone(),
            GraphQLServerError::QueryError(e) => e.clone(),
            GraphQLServerError::InternalError(s) => s.clone(),
        }
    }

    /// The internal error with the message `message`.
    pub fn internal(message: &str) -> (error: GraphQLServerError)
        ensures
            error is InternalError,
            error.text() == message@,
    {
        GraphQLServerError::InternalError(message.to_owned())
    }

    /// What every error of the server is, in words.
    pub fn description(&self) -> (description: &'static str)
        ensures
            description@ == "Failed to process the GraphQL request"@,
    {
        "Failed to process the GraphQL request"
    }

    /// Whether another error lies behind this one: the cancellation, or the
    /// query error.
    pub fn has_cause(&self) -> (caused: bool)
        ensures
            caused == (self is Canceled || self is QueryError),
    {
        match self {
            GraphQLServerError::Canceled => true,
            GraphQLServerError::ClientError(_) => false,
            GraphQLServerError::QueryError(_) => true,
            GraphQLServerError::InternalError(_) => false,
        }
    }

    /// Whether the error is written out as the query error itself rather
    /// than as a map with its message.
    pub fn serializes_as_query_error(&self) -> (as_query: bool)
        ensures
            as_query == (self is QueryError),
    {
        match self {
            GraphQLServerError::QueryError(_) => true,
            _ => false,
        }
    }
}

impl From<String> for GraphQLServerError {
    fn from(s: String) -> (error: GraphQLServerError) {
        GraphQLServerError::InternalError(s)
    }
}

impl FromSpecImpl<String> for GraphQLServerError {
    open spec fn obeys_from_spec() -> bool {
        true
    }

    open spec fn from_spec(s: String) -> GraphQLServerError {
        GraphQLServerError::InternalError(s)
    }
}

} // verus!
