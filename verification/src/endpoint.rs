//! Endpoints: the parts of a URL that a request is made of.
use vstd::prelude::*;

use crate::config;
use crate::entry::PluginError;
use crate::text;

verus! {

/// How an endpoint is reached.
#[derive(Clone, Copy, Debug, PartialEq, Eq, Structural)]
pub enum Scheme {
    Http,
    Https,
}

/// How the URL of an endpoint begins.
pub open spec fn prefix_of(scheme: Scheme) -> Seq<char> {
    match scheme {
        Scheme::Http => "http://"@,
        Scheme::Https => "https://"@,
    }
}

/// The scheme of an endpoint, where it has one that is known.
pub open spec fn scheme_of(endpoint: Seq<char>) -> Option<Scheme> {
    if text::begins_with(endpoint, "https://"@) {
        Some(Scheme::Https)
    } else if text::begins_with(endpoint, "http://"@) {
        Some(Scheme::Http)
    } else {
        None
    }
}

/// How many characters stand before the first slash.
pub open spec fn before_slash(s: Seq<char>) -> nat
    decreases s.len(),
{
    if s.len() == 0 || s[0] == '/' {
        0
    } else {
        1 + before_slash(s.drop_first())
    }
}

/// What stands behind the scheme of an endpoint.
pub open spec fn behind_scheme(endpoint: Seq<char>, scheme: Scheme) -> Seq<char> {
    endpoint.skip(prefix_of(scheme).len() as int)
}

/// The authority of an endpoint: what stands before the first slash.
pub open spec fn authority_of(rest: Seq<char>) -> Seq<char> {
    rest.take(before_slash(rest) as int)
}

/// The path of an endpoint: all from the first slash on, or just a slash.
pub open spec fn path_of(rest: Seq<char>) -> Seq<char> {
    if before_slash(rest) < rest.len() {
        rest.skip(before_slash(rest) as int)
    } else {
        "/"@
    }
}

proof fn lemma_before_slash(s: Seq<char>, at: int)
    requires
        0 <= at <= s.len(),
        forall|i: int| 0 <= i < at ==> s[i] != '/',
        at < s.len() ==> s[at] == '/',
    ensures
        before_slash(s) == at,
    decreases s.len(),
{
    if at > 0 {
        lemma_before_slash(s.drop_first(), at - 1);
    }
}

/// Takes an endpoint apart into its scheme, its authority and its path.
pub fn parse_endpoint(endpoint: &str) -> (res: Result<(Scheme, String, String), PluginError>)
    ensures
        match scheme_of(endpoint@) {
            Some(scheme) => res matches Ok(parts) && parts.0 == scheme && parts.1@ == authority_of(
                behind_scheme(endpoint@, scheme),
            ) && parts.2@ == path_of(behind_scheme(endpoint@, scheme)),
            None => res matches Err(PluginError::ConfigError(t)) && t@
                == "unsupported scheme in endpoint: "@ + endpoint@,
        },
{
    let (scheme, skipped): (Scheme, usize) = if text::starts_with(endpoint, "https://") {
        (Scheme::Https, "https://".unicode_len())
    } else if text::starts_with(endpoint, "http://") {
        (Scheme::Http, "http://".unicode_len())
    } else {
        let mut e = "unsupported scheme in endpoint: ".to_string();
        e.append(endpoint);
        return Err(PluginError::ConfigError(e));
    };
    let chars = text::chars_of(endpoint);
    let ghost rest = behind_scheme(endpoint@, scheme);
    let mut at: usize = skipped;
    while at < chars.len() && chars[at] != '/'
        invariant
            skipped <= at <= chars@.len(),
            rest == chars@.skip(skipped as int),
            forall|i: int| 0 <= i < at - skipped ==> rest[i] != '/',
        decreases chars@.len() - at,
    {
        at += 1;
    }
    proof {
        lemma_before_slash(rest, at - skipped);
        assert(chars@.subrange(skipped as int, at as int) =~= authority_of(rest));
        assert(at < chars@.len() ==> chars@.subrange(at as int, chars@.len() as int) =~= path_of(
            rest,
        ));
    }
    let authority = text::text_of(&chars, skipped, at);
    let path = if at < chars.len() {
        text::text_of(&chars, at, chars.len())
    } else {
        "/".to_string()
    };
    Ok((scheme, authority, path))
}

proof fn lemma_slash_found(s: Seq<char>)
    ensures
        before_slash(s) <= s.len(),
        before_slash(s) < s.len() ==> s[before_slash(s) as int] == '/',
        forall|i: int| 0 <= i < before_slash(s) ==> s[i] != '/',
    decreases s.len(),
{
    if s.len() > 0 && s[0] != '/' {
        lemma_slash_found(s.drop_first());
        assert forall|i: int| 0 <= i < before_slash(s) implies s[i] != '/' by {
            if i > 0 {
                assert(s[i] == s.drop_first()[i - 1]);
            }
        }
    }
}

/// The parts of an endpoint, put together, are the endpoint, with a slash at its
/// end where it has no path. The authority has no slash, and the path begins
/// with one.
pub proof fn law_parts_make_endpoint(endpoint: Seq<char>)
    requires
        scheme_of(endpoint) is Some,
    ensures
        ({
            let scheme = scheme_of(endpoint).unwrap();
            let rest = behind_scheme(endpoint, scheme);
            let whole = prefix_of(scheme) + authority_of(rest) + path_of(rest);
            &&& whole == endpoint || whole == endpoint + "/"@
            &&& !authority_of(rest).contains('/')
            &&& text::begins_with(path_of(rest), "/"@)
        }),
{
    let scheme = scheme_of(endpoint).unwrap();
    let rest = behind_scheme(endpoint, scheme);
    let prefix = prefix_of(scheme);
    lemma_slash_found(rest);
    assert(endpoint =~= prefix + rest);
    reveal_strlit("/");
    if before_slash(rest) < rest.len() {
        assert(authority_of(rest) + path_of(rest) =~= rest);
        assert(prefix + authority_of(rest) + path_of(rest) =~= endpoint);
    } else {
        assert(authority_of(rest) =~= rest);
        assert(prefix + authority_of(rest) + path_of(rest) =~= endpoint + "/"@);
    }
    assert(path_of(rest).subrange(0, 1) =~= "/"@);
}

/// An endpoint that the settings accept is one that can be taken apart, and
/// the other way round.
pub proof fn law_sound_endpoint_is_parsed(endpoint: Seq<char>)
    ensures
        config::is_http_url(endpoint) <==> scheme_of(endpoint) is Some,
{
}

/// An endpoint put together of a scheme, an authority without a slash and a path
/// that begins with one, or no path, is taken apart into these again.
pub proof fn law_endpoint_is_taken_apart(scheme: Scheme, authority: Seq<char>, path: Seq<char>)
    requires
        !authority.contains('/'),
        path.len() > 0 ==> path[0] == '/',
    ensures
        ({
            let prefix = match scheme {
                Scheme::Http => "http://"@,
                Scheme::Https => "https://"@,
            };
            let endpoint = prefix + authority + path;
            let rest = behind_scheme(endpoint, scheme);
            &&& scheme_of(endpoint) == Some(scheme)
            &&& authority_of(rest) == authority
            &&& path.len() > 0 ==> path_of(rest) == path
            &&& path.len() == 0 ==> path_of(rest) == "/"@
        }),
{
    reveal_strlit("http://");
    reveal_strlit("https://");
    let prefix = match scheme {
        Scheme::Http => "http://"@,
        Scheme::Https => "https://"@,
    };
    let endpoint = prefix + authority + path;
    let rest = behind_scheme(endpoint, scheme);
    assert(endpoint =~= prefix + (authority + path));
    text::law_begins_with_what_is_before(endpoint, prefix, authority + path);
    if scheme is Http {
        assert(endpoint[4] == ':');
        assert(!text::begins_with(endpoint, "https://"@)) by {
            if text::begins_with(endpoint, "https://"@) {
                assert(endpoint.subrange(0, 8)[4] == 's');
            }
        }
    }
    assert(rest =~= authority + path);
    assert forall|i: int| 0 <= i < authority.len() implies rest[i] != '/' by {
        assert(rest[i] == authority[i]);
        assert(authority.contains(authority[i]));
    }
    lemma_before_slash(rest, authority.len() as int);
    assert(authority_of(rest) =~= authority);
    if path.len() > 0 {
        assert(path_of(rest) =~= path);
    }
}

/// An endpoint has a scheme only where it begins with the name of that scheme.
pub proof fn law_scheme_is_written_out(endpoint: Seq<char>)
    ensures
        scheme_of(endpoint) == Some(Scheme::Http) <==> exists|rest: Seq<char>|
            endpoint == #[trigger] ("http://"@ + rest),
        scheme_of(endpoint) == Some(Scheme::Https) <==> exists|rest: Seq<char>|
            endpoint == #[trigger] ("https://"@ + rest),
{
    reveal_strlit("http://");
    reveal_strlit("https://");
    let (http, https) = ("http://"@, "https://"@);
    text::law_begins_with_what_is_before(endpoint, http, Seq::empty());
    text::law_begins_with_what_is_before(endpoint, https, Seq::empty());
    if text::begins_with(endpoint, https) {
        assert(endpoint == https + endpoint.skip(8));
        assert(endpoint[4] == 's');
        assert forall|rest: Seq<char>| endpoint != #[trigger] (http + rest) by {
            assert((http + rest)[4] == ':');
        }
    } else {
        assert forall|rest: Seq<char>| endpoint != #[trigger] (https + rest) by {
            text::law_begins_with_what_is_before(endpoint, https, rest);
        }
        if text::begins_with(endpoint, http) {
            assert(endpoint == http + endpoint.skip(7));
        } else {
            assert forall|rest: Seq<char>| endpoint != #[trigger] (http + rest) by {
                text::law_begins_with_what_is_before(endpoint, http, rest);
            }
        }
    }
}

/// An endpoint put together of a scheme, an authority without a slash and a path is
/// parsed into these, with a slash for no path.
pub proof fn law_parsed_parts(
    scheme: Scheme,
    authority: Seq<char>,
    path: Seq<char>,
    endpoint: &str,
    res: Result<(Scheme, String, String), PluginError>,
)
    requires
        !authority.contains('/'),
        path.len() > 0 ==> path[0] == '/',
        endpoint@ == (match scheme {
            Scheme::Http => "http://"@,
            Scheme::Https => "https://"@,
        }) + authority + path,
        call_ensures(parse_endpoint, (endpoint,), res),
    ensures
        res matches Ok(parts) && parts.0 == scheme && parts.1@ == authority && parts.2@ == (
        if path.len() == 0 {
            "/"@
        } else {
            path
        }),
{
    law_endpoint_is_taken_apart(scheme, authority, path);
}

} // verus!
