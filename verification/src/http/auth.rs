//! Basic authentication: the `Authorization` header of a request against
//! a user name and a password.

use super::request::Request;
use crate::text::equal;
use vstd::prelude::*;
use vstd::string::StringExecFns;
use vstd::utf8::encode_utf8;

verus! {

/// The name of the header that carries the credentials of a request.
pub const AUTHORIZATION: &'static str = "Authorization";

/// The base64 text of `input` in the standard alphabet, with padding.
pub uninterp spec fn base64_standard(input: Seq<u8>) -> Seq<char>;

/// `base64::Engine::encode` on `base64::engine::general_purpose::STANDARD`.
/// The result is taken to depend on the bytes alone and goes by the name
/// `base64_standard`. The call panics where the length of the text does not
/// fit in `usize`, so such inputs are left out.
#[verifier::external_body]
fn base64_encode(input: &[u8]) -> (text: String)
    requires
        input@.len() / 3 * 4 + 4 <= usize::MAX,
    ensures
        text@ == base64_standard(input@),
{
    base64::Engine::encode(&base64::engine::general_purpose::STANDARD, input)
}

/// The credentials as they are encoded: user name, colon, password.
pub open spec fn credentials(username: Seq<char>, password: Seq<char>) -> Seq<char> {
    username + seq![':'] + password
}

/// Whether the base64 text of the credentials has a length that fits in
/// `usize`. Credentials for which it does not fit match no request.
pub open spec fn encodable(credentials: Seq<char>) -> bool {
    encode_utf8(credentials).len() / 3 * 4 + 4 <= usize::MAX
}

/// The value of the `Authorization` header that offers credentials whose
/// base64 text is `encoded`.
pub open spec fn basic_value(encoded: Seq<char>) -> Seq<char> {
    "Basic "@ + encoded
}

/// Whether the headers offer credentials whose base64 text is `encoded`.
pub open spec fn offers(headers: Map<Seq<char>, Seq<char>>, encoded: Seq<char>) -> bool {
    headers.contains_key(AUTHORIZATION@) && headers[AUTHORIZATION@] == basic_value(encoded)
}

/// Whether the headers offer exactly the given user name and password.
pub open spec fn authorized(
    headers: Map<Seq<char>, Seq<char>>,
    username: Seq<char>,
    password: Seq<char>,
) -> bool {
    let plain = credentials(username, password);
    encodable(plain) && offers(headers, base64_standard(encode_utf8(plain)))
}

/// Credentials whose base64 text fits in memory are offered exactly by the
/// `Authorization` header that holds `Basic`, a space, and that text: where
/// the header is missing or differs in one character, they are not.
pub proof fn lemma_authorized(
    headers: Map<Seq<char>, Seq<char>>,
    username: Seq<char>,
    password: Seq<char>,
)
    requires
        encodable(credentials(username, password)),
    ensures
        authorized(headers, username, password) <==> headers.contains_key(AUTHORIZATION@)
            && headers[AUTHORIZATION@] == "Basic "@ + base64_standard(
            encode_utf8(username + seq![':'] + password),
        ),
{
}

/// Whether the request offers credentials whose base64 text is `encoded`:
/// its `Authorization` header is `Basic`, a space, and that text.
pub fn credentials_match(request: &Request, encoded: &str) -> (valid: bool)
    ensures
        valid == offers(request@.headers(), encoded@),
{
    let mut expected = "Basic ".to_owned();
    expected.append(encoded);
    match request.get_header(AUTHORIZATION) {
        Some(offered) => equal(offered.as_str(), expected.as_str()),
        None => false,
    }
}

/// Whether the request offers exactly the given user name and password.
pub fn basic_auth_validate(request: &Request, username: &String, password: &String) -> (valid:
    bool)
    ensures
        valid == authorized(request@.headers(), username@, password@),
{
    let mut plain = username.clone();
    plain.append(":");
    plain.append(password.as_str());
    proof {
        reveal_strlit(":");
        assert(plain@ == credentials(username@, password@));
    }
    let bytes = plain.as_str().as_bytes();
    if bytes.len() / 3 > (usize::MAX - 4) / 4 {
        return false;
    }
    let encoded = base64_encode(bytes);
    credentials_match(request, encoded.as_str())
}

} // verus!
