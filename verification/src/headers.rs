//! The headers of a request.
use vstd::prelude::*;

use crate::base64;
use crate::text;

verus! {

/// A name and its password.
pub struct BasicCredential {
    pub username: String,
    pub password: String,
}

/// A key and the header that it goes into.
pub struct ApiKey {
    pub header_name: String,
    pub key: String,
}

/// How a sender shows who it is.
pub enum AuthMethod {
    Anonymous,
    BearerToken(String),
    BasicAuth(BasicCredential),
    ApiKey(ApiKey),
}

/// Headers by name and value, in the order in which they are set.
pub open spec fn header_views(headers: Seq<(String, String)>) -> Seq<(Seq<char>, Seq<char>)> {
    Seq::new(headers.len(), |i: int| (headers[i].0@, headers[i].1@))
}

/// The header that shows who the sender is, where it does.
pub open spec fn auth_header(auth: AuthMethod) -> Seq<(Seq<char>, Seq<char>)> {
    match auth {
        AuthMethod::Anonymous => Seq::empty(),
        AuthMethod::BearerToken(token) => seq![("authorization"@, "Bearer "@ + token@)],
        AuthMethod::BasicAuth(cred) => seq![
            (
                "authorization"@,
                "Basic "@ + base64::encoded(
                    vstd::utf8::encode_utf8(cred.username@ + ":"@ + cred.password@),
                ),
            ),
        ],
        AuthMethod::ApiKey(api) => seq![(api.header_name@, api.key@)],
    }
}

/// The headers of a request, in the order in which they are set.
pub open spec fn request_headers(
    auth: AuthMethod,
    extra: Seq<(String, String)>,
    body_len: nat,
) -> Seq<(Seq<char>, Seq<char>)> {
    seq![
        ("content-type"@, "application/octet-stream"@),
        ("content-length"@, text::decimal(body_len)),
    ] + auth_header(auth) + header_views(extra)
}

fn set_header(headers: &mut Vec<(String, String)>, name: &str, value: &str)
    ensures
        header_views(final(headers)@) == header_views(old(headers)@).push((name@, value@)),
{
    headers.push((name.to_string(), value.to_string()));
    assert(header_views(headers@) =~= header_views(old(headers)@).push((name@, value@)));
}

/// The headers of a request with a body of `body_len` bytes, in the order in
/// which they are set.
pub fn build_headers(auth: &AuthMethod, extra: &Vec<(String, String)>, body_len: usize) -> (res:
    Vec<(String, String)>)
    ensures
        header_views(res@) == request_headers(*auth, extra@, body_len as nat),
{
    let mut headers: Vec<(String, String)> = Vec::new();
    assert(header_views(headers@) =~= Seq::empty());
    set_header(&mut headers, "content-type", "application/octet-stream");
    set_header(&mut headers, "content-length", text::decimal_text(body_len as u128).as_str());
    let ghost fixed = header_views(headers@);
    assert(fixed + Seq::<(Seq<char>, Seq<char>)>::empty() =~= fixed);
    match auth {
        AuthMethod::Anonymous => {},
        AuthMethod::BearerToken(token) => {
            let mut value = "Bearer ".to_string();
            value.append(token.as_str());
            set_header(&mut headers, "authorization", value.as_str());
        },
        AuthMethod::BasicAuth(cred) => {
            let mut pair = cred.username.clone();
            pair.append(":");
            pair.append(cred.password.as_str());
            let mut value = "Basic ".to_string();
            value.append(base64::base64_encode(pair.as_str().as_bytes()).as_str());
            set_header(&mut headers, "authorization", value.as_str());
        },
        AuthMethod::ApiKey(api) => {
            set_header(&mut headers, api.header_name.as_str(), api.key.as_str());
        },
    }
    let ghost shown = fixed + auth_header(*auth);
    assert(header_views(headers@) =~= shown);
    let ghost given = header_views(extra@);
    let mut i: usize = 0;
    assert(shown + given.subrange(0, 0) =~= shown);
    while i < extra.len()
        invariant
            i <= extra@.len(),
            given == header_views(extra@),
            header_views(headers@) == shown + given.subrange(0, i as int),
        decreases extra@.len() - i,
    {
        set_header(&mut headers, extra[i].0.as_str(), extra[i].1.as_str());
        i += 1;
        assert(header_views(headers@) =~= shown + given.subrange(0, i as int));
    }
    assert(given.subrange(0, i as int) =~= given);
    headers
}

/// Whatever a sender shows, a request has all the extra headers of the
/// configuration at its end, in their order; its type and its length, in decimal
/// notation, stand first; and between them stands the header that shows who the
/// sender is, and nothing where it shows nothing.
pub proof fn law_headers_of_a_request(
    auth: AuthMethod,
    extra: Seq<(String, String)>,
    body_len: nat,
)
    ensures
        ({
            let all = request_headers(auth, extra, body_len);
            let shown: int = if auth is Anonymous {
                0
            } else {
                1
            };
            &&& all.len() == 2 + shown + extra.len()
            &&& all[0] == ("content-type"@, "application/octet-stream"@)
            &&& all[1].0 == "content-length"@
            &&& text::number_of(all[1].1) == body_len
            &&& forall|i: int|
                0 <= i < extra.len() ==> #[trigger] all[2 + shown + i] == (
                    extra[i].0@,
                    extra[i].1@,
                )
        }),
{
    text::law_decimal_reads_back(body_len);
    let all = request_headers(auth, extra, body_len);
    let shown = auth_header(auth).len() as int;
    assert forall|i: int| 0 <= i < extra.len() implies #[trigger] all[2 + shown + i] == (
        extra[i].0@,
        extra[i].1@,
    ) by {
        assert(all[2 + shown + i] == header_views(extra)[i]);
    }
}

/// A token goes behind `Bearer`, a name and its password in Base64 behind `Basic`,
/// from which they can be read again, and a key into the header that it names.
pub proof fn law_sender_is_shown(auth: AuthMethod, extra: Seq<(String, String)>, body_len: nat)
    ensures
        ({
            let header = request_headers(auth, extra, body_len)[2];
            match auth {
                AuthMethod::Anonymous => extra.len() > 0 ==> header == (extra[0].0@, extra[0].1@),
                AuthMethod::BearerToken(token) => header == (
                    "authorization"@,
                    "Bearer "@ + token@,
                ),
                AuthMethod::BasicAuth(cred) => header.0 == "authorization"@ && text::begins_with(
                    header.1,
                    "Basic "@,
                ) && base64::decoded(header.1.skip("Basic "@.len() as int))
                    == vstd::utf8::encode_utf8(cred.username@ + ":"@ + cred.password@),
                AuthMethod::ApiKey(api) => header == (api.header_name@, api.key@),
            }
        }),
{
    match auth {
        AuthMethod::BasicAuth(cred) => {
            let pair = vstd::utf8::encode_utf8(cred.username@ + ":"@ + cred.password@);
            let code = base64::encoded(pair);
            base64::law_decodes_back(pair);
            text::law_begins_with_what_is_before("Basic "@ + code, "Basic "@, code);
            assert(("Basic "@ + code).skip("Basic "@.len() as int) =~= code);
        },
        _ => {},
    }
}

/// The headers that are built hold, whatever the sender shows, all the extra headers
/// at their end, in their order, and none of them is lost or changed.
pub proof fn law_extra_headers_are_built(
    auth: AuthMethod,
    extra: Vec<(String, String)>,
    body_len: usize,
    res: Vec<(String, String)>,
)
    requires
        call_ensures(build_headers, (&auth, &extra, body_len), res),
    ensures
        res@.len() >= 2 + extra@.len(),
        auth is Anonymous <==> res@.len() == 2 + extra@.len(),
        forall|i: int|
            0 <= i < extra@.len() ==> (#[trigger] res@[res@.len() - extra@.len() + i]).0@
                == extra@[i].0@ && res@[res@.len() - extra@.len() + i].1@ == extra@[i].1@,
        res@[0].0@ == "content-type"@ && res@[0].1@ == "application/octet-stream"@,
        res@[1].0@ == "content-length"@ && text::number_of(res@[1].1@) == body_len,
{
    law_headers_of_a_request(auth, extra@, body_len as nat);
    let all = request_headers(auth, extra@, body_len as nat);
    let shown = res@.len() - 2 - extra@.len();
    assert(header_views(res@) == all);
    assert(all.len() == res@.len());
    assert forall|i: int| 0 <= i < extra@.len() implies (#[trigger] res@[res@.len() - extra@.len()
        + i]).0@ == extra@[i].0@ && res@[res@.len() - extra@.len() + i].1@ == extra@[i].1@ by {
        assert(header_views(res@)[2 + shown + i] == all[2 + shown + i]);
    }
    assert(header_views(res@)[0] == all[0]);
    assert(header_views(res@)[1] == all[1]);
}

} // verus!
