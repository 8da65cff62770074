//! What a provider can be made of, said of URLs and keys.

use vstd::prelude::*;

use crate::base_url::{self, UrlModel, UrlParts};
use crate::pricing;
use crate::provider::{self, NousProvider, ProviderModel};
use crate::wire;

verus! {

/// A code point with the property `White_Space`.
pub open spec fn is_blank_code(c: int) -> bool {
    ||| 9 <= c <= 13
    ||| c == 32
    ||| c == 0x85
    ||| c == 0xa0
    ||| c == 0x1680
    ||| 0x2000 <= c <= 0x200a
    ||| c == 0x2028
    ||| c == 0x2029
    ||| c == 0x202f
    ||| c == 0x205f
    ||| c == 0x3000
}

/// Of a parsed URL the policy asks for no user name and no password, and for
/// `https`, or `http` to exactly one of two hosts. What is no URL is not
/// permitted.
pub proof fn law_permitted_urls(u: UrlModel)
    ensures
        u.username.len() > 0 ==> !base_url::permitted(Some(u)),
        u.password is Some ==> !base_url::permitted(Some(u)),
        u.username.len() == 0 && u.password is None && u.scheme == "https"@
            ==> base_url::permitted(Some(u)),
        u.username.len() == 0 && u.password is None && u.scheme == "http"@ && u.host == Some(
            "localhost"@,
        ) ==> base_url::permitted(Some(u)),
        u.username.len() == 0 && u.password is None && u.scheme == "http"@ && u.host == Some(
            "127.0.0.1"@,
        ) ==> base_url::permitted(Some(u)),
        u.scheme != "https"@ && u.scheme != "http"@ ==> !base_url::permitted(Some(u)),
        u.scheme != "https"@ && u.host != Some("localhost"@) && u.host != Some("127.0.0.1"@)
            ==> !base_url::permitted(Some(u)),
        !base_url::permitted(None),
{
}

/// A provider is set up with exactly the URL and the key that are given, where
/// the URL is permitted and the key has a character that is no white space.
pub proof fn law_setup_succeeds(api_key: Seq<char>, i: int, url: Seq<char>)
    requires
        base_url::permitted(base_url::url_parts(url)),
        0 <= i < api_key.len(),
        !is_blank_code(api_key[i] as int),
    ensures
        provider::setup(api_key, url) matches Ok(p) && p.base_url == url && p.api_key == api_key,
{
    assert(!provider::is_white_space(api_key[i]));
}

/// A URL that is not permitted is reported first, by its own text.
pub proof fn law_setup_refuses_urls(api_key: Seq<char>, url: Seq<char>)
    requires
        !base_url::permitted(base_url::url_parts(url)),
    ensures
        provider::setup(api_key, url) == Err::<ProviderModel, Seq<char>>(
            "base_url '"@ + url
                + "' is not permitted: must be https://, or http://localhost / http://127.0.0.1 for tests"@,
        ),
        base_url::rejection(url) == "base_url '"@ + url
            + "' is not permitted: must be https://, or http://localhost / http://127.0.0.1 for tests"@,
{
}

/// A key of white space alone is refused.
pub proof fn law_setup_refuses_blank_keys(api_key: Seq<char>, url: Seq<char>)
    requires
        base_url::permitted(base_url::url_parts(url)),
        forall|i: int| 0 <= i < api_key.len() ==> is_blank_code(#[trigger] api_key[i] as int),
    ensures
        provider::setup(api_key, url) == Err::<ProviderModel, Seq<char>>(
            "Nous API key must not be empty"@,
        ),
{
    assert forall|i: int| 0 <= i < api_key.len() implies provider::is_white_space(
        #[trigger] api_key[i],
    ) by {
        assert(is_blank_code(api_key[i] as int));
    }
}

/// A text is blank where every character of it is white space, and only there.
pub proof fn law_blank_texts(s: Seq<char>)
    ensures
        provider::is_blank(s) <==> forall|i: int|
            0 <= i < s.len() ==> is_blank_code(#[trigger] s[i] as int),
{
    assert forall|c: char| #[trigger] provider::is_white_space(c) == is_blank_code(c as int) by {}
    if provider::is_blank(s) {
        assert forall|i: int| 0 <= i < s.len() implies is_blank_code(#[trigger] s[i] as int) by {
            assert(provider::is_white_space(s[i]));
        }
    }
    if forall|i: int| 0 <= i < s.len() ==> is_blank_code(#[trigger] s[i] as int) {
        assert forall|i: int| 0 <= i < s.len() implies provider::is_white_space(#[trigger] s[i]) by {
            assert(is_blank_code(s[i] as int));
        }
    }
}

/// The environment gives the key for the hosted endpoint; without it there is no
/// provider.
pub proof fn law_setup_from_the_environment(key: Seq<char>)
    ensures
        provider::setup_from_env(Some(key)) == provider::setup(
            key,
            "https://inference-api.nousresearch.com/v1"@,
        ),
        provider::setup_from_env(None) == Err::<ProviderModel, Seq<char>>(
            "environment variable "@ + "NOUS_API_KEY"@ + " is not set"@,
        ),
{
}

/// What a provider may be made of.
pub proof fn law_acceptable_providers(p: ProviderModel)
    ensures
        provider::acceptable(p) <==> base_url::permitted(base_url::url_parts(p.base_url))
            && exists|i: int|
            0 <= i < p.api_key.len() && !is_blank_code(#[trigger] p.api_key[i] as int),
{
    law_blank_texts(p.api_key);
}

/// The fixed quantities.
pub proof fn law_constants()
    ensures
        provider::NOUS_BASE_URL@ == "https://inference-api.nousresearch.com/v1"@,
        provider::API_KEY_ENV@ == "NOUS_API_KEY"@,
        provider::MAX_RESPONSE_BYTES == 8 * 1024 * 1024,
        provider::REQUEST_TIMEOUT_SECS == 30,
        wire::MAX_TOKENS_CEILING == 32_000,
        pricing::TOKENS_PER_PRICE == 1_000_000,
{
}

/// What the outcome of a setup stands for.
pub proof fn law_setups_stand_for_all_they_hold(p: NousProvider, message: String)
    ensures
        provider::setup_view(Ok(p)) == Ok::<ProviderModel, Seq<char>>(p@),
        provider::setup_view(Err(message)) == Err::<ProviderModel, Seq<char>>(message@),
{
}

/// What the parts of a URL stand for.
pub proof fn law_urls_stand_for_all_they_hold(parts: UrlParts, s: String)
    ensures
        parts@.scheme == parts.scheme@,
        parts@.username == parts.username@,
        parts.password == Some(s) ==> parts@.password == Some(s@),
        parts.password is None ==> parts@.password is None,
        parts.host == Some(s) ==> parts@.host == Some(s@),
        parts.host is None ==> parts@.host is None,
        base_url::parts_view(Some(parts)) == Some(parts@),
        base_url::parts_view(None) is None,
        base_url::text_view(Some(s)) == Some(s@),
        base_url::text_view(None) is None,
{
}

} // verus!
