//! The decisions of the two ends of the page's connection, and of the
//! server's file route.
use vstd::prelude::*;
use crate::text::{append_str, chars_of, string_of};

verus! {

/// What came in on a connection.
pub enum Incoming<T> {
    /// The connection closed.
    Closed,
    /// Reading failed.
    Failed,
    /// A message arrived; `None` where it could not be decoded.
    Text(Option<T>),
}

/// What to do with it.
pub enum SessionStep<T> {
    /// End the session.
    Stop,
    /// Wait for the next message.
    Skip,
    /// Hand the message to the handlers.
    Dispatch(T),
}

/// A closed connection ends the session; a failed read or a message that
/// cannot be decoded is passed over; a message is handled.
pub fn on_incoming<T>(i: Incoming<T>) -> (s: SessionStep<T>)
    ensures
        match i {
            Incoming::Closed => s is Stop,
            Incoming::Failed => s is Skip,
            Incoming::Text(None) => s is Skip,
            Incoming::Text(Some(m)) => s matches SessionStep::Dispatch(x) && x == m,
        },
{
    match i {
        Incoming::Closed => SessionStep::Stop,
        Incoming::Failed => SessionStep::Skip,
        Incoming::Text(None) => SessionStep::Skip,
        Incoming::Text(Some(m)) => SessionStep::Dispatch(m),
    }
}

/// The file that a request path asks for: the path, or the index page
/// for the empty path.
pub open spec fn asset_path(path: Seq<char>) -> Seq<char> {
    if path.len() == 0 {
        "index.html"@
    } else {
        path
    }
}

/// The file to try where [`asset_path`] names none: the index page of
/// the directory that the path names.
pub open spec fn nested_index(path: Seq<char>) -> Seq<char> {
    asset_path(path) + "/index.html"@
}

/// The media type that `mime_guess` gives a file name by its extension,
/// as text (`application/octet-stream` where it knows none).
pub uninterp spec fn mime_of(name: Seq<char>) -> Seq<char>;

/// `mime_guess::from_path(name).first_or_octet_stream()`, as text: the
/// media type that the extension of `name` suggests. It reads no file,
/// and depends on the name alone.
#[verifier::external_body]
fn guess_mime(name: &str) -> (m: String)
    ensures
        m@ == mime_of(name@),
{
    mime_guess::from_path(name).first_or_octet_stream().essence_str().to_string()
}

/// The media type of the file served for a request path: that of
/// [`asset_path`], or with `nested`, that of [`nested_index`].
pub fn asset_type(path: &str, nested: bool) -> (m: String)
    ensures
        m@ == mime_of(
            if nested {
                nested_index(path@)
            } else {
                asset_path(path@)
            },
        ),
{
    let name = if nested {
        nested_index_exec(path)
    } else {
        asset_path_exec(path)
    };
    guess_mime(name.as_str())
}

/// The address of the server's connection for pages, from the page's
/// own location: its protocol, host name and port.
pub open spec fn ws_url(protocol: Seq<char>, hostname: Seq<char>, port: Seq<char>) -> Seq<char> {
    protocol + "//"@ + hostname + ":"@ + port + "/ws"@
}

/// Builds the address of the server's connection for pages.
pub fn ws_url_exec(protocol: &str, hostname: &str, port: &str) -> (r: String)
    ensures
        r@ == ws_url(protocol@, hostname@, port@),
{
    let mut v = chars_of(protocol);
    append_str(&mut v, "//");
    append_str(&mut v, hostname);
    append_str(&mut v, ":");
    append_str(&mut v, port);
    append_str(&mut v, "/ws");
    string_of(&v)
}

/// The file that a request path asks for.
pub fn asset_path_exec(path: &str) -> (r: String)
    ensures
        r@ == asset_path(path@),
{
    if path.is_empty() {
        string_of(&chars_of("index.html"))
    } else {
        string_of(&chars_of(path))
    }
}

/// The file to try where the first one is missing.
pub fn nested_index_exec(path: &str) -> (r: String)
    ensures
        r@ == nested_index(path@),
{
    let first = asset_path_exec(path);
    let mut v = chars_of(first.as_str());
    append_str(&mut v, "/index.html");
    string_of(&v)
}

} // verus!
