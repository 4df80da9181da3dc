use crate::text::{lowercase, to_lowercase, trim_end, trim_end_matches, trim_start, trim_start_matches};
use crate::types::principal::{principal_text, PrincipalId};
use vstd::prelude::*;
use vstd::string::*;

verus! {

/// The identity under which a member of the event log is known on the chat
/// platform. Its textual form is a wire contract: the front end derives the
/// same text from the same three values.
#[derive(Debug, PartialEq, Eq)]
pub struct MatrixUserID {
    pub principal: PrincipalId,
    pub username: String,
    pub matrix_base_url: String,
}

impl MatrixUserID {
    /// The host part of an identity, from the address of the home server:
    /// without the leading `https://matrix.` or `https://`, and without
    /// trailing slashes.
    pub open spec fn host(url: Seq<char>) -> Seq<char> {
        trim_end(trim_start(trim_start(url, "https://matrix."@), "https://"@), '/')
    }

    /// The identity as text: `@`, the principal, `/`, the user name in lower
    /// case, `:`, and the host.
    pub open spec fn text(principal: Seq<u8>, username: Seq<char>, url: Seq<char>) -> Seq<char> {
        "@"@ + principal_text(principal) + "/"@ + lowercase(username) + ":"@ + Self::host(url)
    }

    /// The text of this identity.
    pub open spec fn identity(&self) -> Seq<char> {
        Self::text(self.principal@, self.username@, self.matrix_base_url@)
    }

    /// The identity of a member, from the principal and the user name that
    /// the event log knows, and the address of the home server.
    pub fn new(principal: PrincipalId, username: String, matrix_base_url: String) -> (out: Self)
        ensures
            out.principal == principal,
            out.username == username,
            out.matrix_base_url == matrix_base_url,
    {
        Self { principal, username, matrix_base_url }
    }

    /// Writes the identity out, from the textual form of the principal and
    /// the lowercase form of the user name.
    pub fn compose(principal: &str, username: &str, url: &str) -> (out: String)
        ensures
            out@ == "@"@ + principal@ + "/"@ + username@ + ":"@ + Self::host(url@),
    {
        let host = trim_end_matches(
            trim_start_matches(trim_start_matches(url, "https://matrix."), "https://"),
            '/',
        );
        let mut out = String::from_str("@");
        out.append(principal);
        out.append("/");
        out.append(username);
        out.append(":");
        out.append(host);
        out
    }

    /// The identity as text.
    pub fn to_string(&self) -> (out: String)
        ensures
            out@ == self.identity(),
    {
        let principal = self.principal.to_text();
        let username = to_lowercase(self.username.as_str());
        Self::compose(principal.as_str(), username.as_str(), self.matrix_base_url.as_str())
    }
}

} // verus!
