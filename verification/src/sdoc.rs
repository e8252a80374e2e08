//! Comments on structured documents.

use vstd::prelude::*;
use crate::text::opt_string_or_empty;

verus! {

/// A comment as the API returns it.
#[derive(Debug, Clone, PartialEq, Eq)]
pub struct CommentResponse {
    pub id: i32,
    pub content: String,
    pub resolved: Option<bool>,
    pub created_at: i64,
    /// The author's address; empty when the author is gone.
    pub user_email: String,
}

/// The API view of a stored comment, given its author's address if the
/// author still exists.
pub fn comment_response(id: i32, content: String, resolved: Option<bool>, created_at: i64, author_email: Option<String>) -> (c: CommentResponse)
    ensures
        c.id == id,
        c.content == content,
        c.resolved == resolved,
        c.created_at == created_at,
        c.user_email@ == match author_email {
            Some(e) => e@,
            None => Seq::empty(),
        },
{
    CommentResponse {
        id,
        content,
        resolved,
        created_at,
        user_email: opt_string_or_empty(&author_email),
    }
}

} // verus!
