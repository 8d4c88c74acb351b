use vstd::prelude::*;
use vstd::string::StringExecFns;

verus! {

/// What decoding the given bytes as UTF-8 with replacement yields: every
/// invalid sequence becomes the Unicode replacement character. The result
/// depends on the bytes alone.
pub uninterp spec fn utf8_lossy_of(bytes: Seq<u8>) -> Seq<char>;

/// Relies on `String::from_utf8_lossy`: decodes the bytes as UTF-8,
/// replacing invalid sequences with the Unicode replacement character; the
/// result is a function of the bytes alone, and no bytes decode to no text.
#[verifier::external_body]
pub(crate) fn utf8_lossy(bytes: &[u8]) -> (r: String)
    ensures
        r@ == utf8_lossy_of(bytes@),
        bytes@.len() == 0 ==> r@.len() == 0,
{
    String::from_utf8_lossy(bytes).into_owned()
}

/// The banner every registered channel sees when `user` opens a session.
pub open spec fn connected_banner_spec(user: Seq<char>) -> Seq<char> {
    user + " connected to the server.\r\n"@
}

/// The banner every other connection sees when `user` asks to leave.
pub open spec fn disconnected_banner_spec(user: Seq<char>) -> Seq<char> {
    user + " disconnected from the server.\r\n"@
}

/// The line every registered channel sees when `user` sends `payload`:
/// the sender's name in brackets, then the payload decoded as UTF-8 with
/// replacement, ended by carriage return and line feed.
pub open spec fn chat_line_spec(user: Seq<char>, payload: Seq<u8>) -> Seq<char> {
    "["@ + user + "]: "@ + utf8_lossy_of(payload) + "\r\n"@
}

/// The fixed greeting carried by every forwarded channel.
pub open spec fn forward_greeting_spec() -> Seq<char> {
    "Hello from a forwarded port"@
}

/// Builds the connection banner for `user`.
pub fn connected_banner(user: &str) -> (r: String)
    ensures
        r@ == connected_banner_spec(user@),
{
    let mut s = user.to_owned();
    s.append(" connected to the server.\r\n");
    s
}

/// Builds the disconnection banner for `user`.
pub fn disconnected_banner(user: &str) -> (r: String)
    ensures
        r@ == disconnected_banner_spec(user@),
{
    let mut s = user.to_owned();
    s.append(" disconnected from the server.\r\n");
    s
}

/// Builds the chat line that relays `payload` from `user`.
pub fn chat_line(user: &str, payload: &[u8]) -> (r: String)
    ensures
        r@ == chat_line_spec(user@, payload@),
{
    let decoded = utf8_lossy(payload);
    let mut s = "[".to_owned();
    s.append(user);
    s.append("]: ");
    s.append(decoded.as_str());
    s.append("\r\n");
    s
}

/// Builds the fixed greeting carried by every forwarded channel.
pub fn forward_greeting() -> (r: String)
    ensures
        r@ == forward_greeting_spec(),
{
    "Hello from a forwarded port".to_owned()
}

} // verus!
