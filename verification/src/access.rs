//! Which requests the connector listens to at all: those for its own address,
//! from web origins that it knows.

use crate::text::{
    chars_of, control, ends_with, is_control, is_whitespace, lowercase, same_text, strip_prefix,
    to_ascii_lowercase, trim, trimmed, whitespace,
};
use vstd::prelude::*;

verus! {

/// The origins of local development and of the desktop application.
pub open spec fn local_origin(origin: Seq<char>) -> bool {
    ||| origin == "http://127.0.0.1:5174"@
    ||| origin == "http://localhost:5174"@
    ||| origin == "tauri://localhost"@
    ||| origin == "https://tauri.localhost"@
}

/// The characters that a host may have: those that neither end the host of an
/// origin nor put something before it, and that are no white space and no
/// control characters.
pub open spec fn host_char(c: char) -> bool {
    &&& c != '/' && c != '?' && c != '#' && c != '\\' && c != '@' && c != ':'
    &&& !whitespace(c)
    &&& !control(c)
}

/// The host names below `marketstate.ai`.
pub open spec fn below_marketstate(host: Seq<char>) -> bool {
    &&& ".marketstate.ai"@.is_suffix_of(host)
    &&& forall|i: int| 0 <= i < host.len() ==> host_char(#[trigger] host[i])
}

/// The origins of MarketState: its site, and the hosts below it over HTTPS.
pub open spec fn marketstate_origin(origin: Seq<char>) -> bool {
    ||| origin == "https://marketstate.ai"@
    ||| origin == "https://www.marketstate.ai"@
    ||| "https://"@.is_prefix_of(origin) && below_marketstate(
        origin.skip("https://"@.len() as int),
    )
}

/// The origins that the connector knows.
pub open spec fn approved_origin(origin: Seq<char>) -> bool {
    local_origin(origin) || marketstate_origin(origin)
}

/// Whether a text has only characters that a host may have.
fn is_host(host: &[char]) -> (r: bool)
    ensures
        r == forall|i: int| 0 <= i < host@.len() ==> host_char(#[trigger] host@[i]),
{
    for i in 0..host.len()
        invariant
            forall|j: int| 0 <= j < i ==> host_char(#[trigger] host@[j]),
    {
        let c = host[i];
        if c == '/' || c == '?' || c == '#' || c == '\\' || c == '@' || c == ':' || is_whitespace(
            c,
        ) || is_control(c) {
            assert(!host_char(host@[i as int]));
            return false;
        }
    }
    true
}

/// Whether an origin is that of a host below `marketstate.ai`, over HTTPS.
fn is_below_marketstate(origin: &str) -> (r: bool)
    ensures
        r == ("https://"@.is_prefix_of(origin@) && below_marketstate(
            origin@.skip("https://"@.len() as int),
        )),
{
    let chars = chars_of(origin);
    let scheme = chars_of("https://");
    let domain = chars_of(".marketstate.ai");
    match strip_prefix(chars.as_slice(), scheme.as_slice()) {
        Some(host) => ends_with(host, domain.as_slice()) && is_host(host),
        None => false,
    }
}

/// The origin of a request without the white space at its ends, where the
/// connector knows it.
pub fn allowed_origin(origin: Option<&str>) -> (allowed: Option<String>)
    ensures
        match origin {
            Some(origin) => if approved_origin(trimmed(origin@)) {
                allowed matches Some(text) && text@ == trimmed(origin@)
            } else {
                allowed is None
            },
            None => allowed is None,
        },
{
    let origin = match origin {
        Some(origin) => trim(origin),
        None => {
            return None;
        },
    };
    let local = same_text(origin, "http://127.0.0.1:5174") || same_text(
        origin,
        "http://localhost:5174",
    ) || same_text(origin, "tauri://localhost") || same_text(origin, "https://tauri.localhost");
    let marketstate = same_text(origin, "https://marketstate.ai") || same_text(
        origin,
        "https://www.marketstate.ai",
    ) || is_below_marketstate(origin);
    if local || marketstate {
        Some(origin.to_string())
    } else {
        None
    }
}

/// What follows `https://` in an origin of MarketState is its host and nothing
/// else: it is `marketstate.ai` or ends with `.marketstate.ai`, and has none of
/// the characters that would end the host or put something before it.
pub proof fn marketstate_origins_name_their_host(origin: Seq<char>)
    requires
        marketstate_origin(origin),
    ensures
        ({
            let host = origin.skip("https://"@.len() as int);
            &&& "https://"@.is_prefix_of(origin)
            &&& host == "marketstate.ai"@ || ".marketstate.ai"@.is_suffix_of(host)
            &&& forall|i: int|
                0 <= i < host.len() ==> !(seq!['/', '?', '#', '\\', '@', ':'].contains(
                    #[trigger] host[i],
                ))
        }),
{
    reveal_strlit("https://");
    reveal_strlit("https://marketstate.ai");
    reveal_strlit("https://www.marketstate.ai");
    reveal_strlit("marketstate.ai");
    reveal_strlit(".marketstate.ai");
    let host = origin.skip("https://"@.len() as int);
    if origin == "https://marketstate.ai"@ {
        assert(origin.subrange(0, 8) =~= "https://"@);
        assert(host =~= "marketstate.ai"@);
    } else if origin == "https://www.marketstate.ai"@ {
        assert(origin.subrange(0, 8) =~= "https://"@);
        assert(host.subrange(3, host.len() as int) =~= ".marketstate.ai"@);
    } else {
        assert forall|i: int| 0 <= i < host.len() implies !(seq![
            '/',
            '?',
            '#',
            '\\',
            '@',
            ':',
        ].contains(#[trigger] host[i])) by {
            assert(host_char(host[i]));
        }
    }
}

/// An origin that the connector knows has no control characters, so that it
/// stays on the line of a header.
pub proof fn approved_origins_are_plain(origin: Seq<char>)
    requires
        approved_origin(origin),
    ensures
        forall|i: int| 0 <= i < origin.len() ==> !control(#[trigger] origin[i]),
{
    reveal_strlit("http://127.0.0.1:5174");
    reveal_strlit("http://localhost:5174");
    reveal_strlit("tauri://localhost");
    reveal_strlit("https://tauri.localhost");
    reveal_strlit("https://marketstate.ai");
    reveal_strlit("https://www.marketstate.ai");
    reveal_strlit("https://");
    if !local_origin(origin) && origin != "https://marketstate.ai"@ && origin
        != "https://www.marketstate.ai"@ {
        let host = origin.skip(8);
        assert forall|i: int| 0 <= i < origin.len() implies !control(#[trigger] origin[i]) by {
            if i < 8 {
                assert(origin.subrange(0, 8)[i] == origin[i]);
            } else {
                assert(host[i - 8] == origin[i]);
            }
        }
    }
}

/// The hosts by which the connector is addressed.
pub open spec fn loopback_host(host: Seq<char>) -> bool {
    let host = lowercase(host);
    ||| host == "127.0.0.1:8765"@
    ||| host == "localhost:8765"@
    ||| host == "[::1]:8765"@
}

/// Whether a request is addressed to the connector.
pub fn valid_host(value: Option<&str>) -> (valid: bool)
    ensures
        valid == match value {
            Some(host) => loopback_host(host@),
            None => false,
        },
{
    match value {
        Some(host) => {
            let host = to_ascii_lowercase(host);
            let host = host.as_str();
            same_text(host, "127.0.0.1:8765") || same_text(host, "localhost:8765") || same_text(
                host,
                "[::1]:8765",
            )
        },
        None => false,
    }
}

/// Every host below `marketstate.ai` is known over HTTPS, whatever its name and
/// however long it is, as long as the name is that of one host.
pub proof fn hosts_below_marketstate_are_known(label: Seq<char>)
    requires
        forall|i: int|
            0 <= i < label.len() ==> !(seq!['/', '?', '#', '\\', '@', ':'].contains(
                #[trigger] label[i],
            )) && !whitespace(label[i]) && !control(label[i]),
    ensures
        approved_origin("https://"@ + label + ".marketstate.ai"@),
{
    reveal_strlit("https://");
    reveal_strlit(".marketstate.ai");
    let origin = "https://"@ + label + ".marketstate.ai"@;
    let host = origin.skip(8);
    assert(origin.subrange(0, 8) =~= "https://"@);
    assert(host =~= label + ".marketstate.ai"@);
    assert(host.subrange(label.len() as int, host.len() as int) =~= ".marketstate.ai"@);
    assert forall|i: int| 0 <= i < host.len() implies host_char(#[trigger] host[i]) by {
        if i < label.len() {
            let marks = seq!['/', '?', '#', '\\', '@', ':'];
            assert(host[i] == label[i]);
            assert(!marks.contains(label[i]));
            assert(marks[0] == '/' && marks[1] == '?' && marks[2] == '#');
            assert(marks[3] == '\\' && marks[4] == '@' && marks[5] == ':');
        } else {
            assert(host[i] == ".marketstate.ai"@[i - label.len()]);
        }
    }
}

/// The origins of development, of the desktop application and of the site are
/// known.
pub proof fn named_origins_are_known()
    ensures
        approved_origin("http://127.0.0.1:5174"@),
        approved_origin("http://localhost:5174"@),
        approved_origin("tauri://localhost"@),
        approved_origin("https://tauri.localhost"@),
        approved_origin("https://marketstate.ai"@),
        approved_origin("https://www.marketstate.ai"@),
{
}

/// No other origin is known: one that is none of these texts and no HTTPS origin
/// of a host below `marketstate.ai`.
pub proof fn other_origins_are_unknown(origin: Seq<char>)
    requires
        origin != "http://127.0.0.1:5174"@,
        origin != "http://localhost:5174"@,
        origin != "tauri://localhost"@,
        origin != "https://tauri.localhost"@,
        origin != "https://marketstate.ai"@,
        !"https://"@.is_prefix_of(origin) || !".marketstate.ai"@.is_suffix_of(
            origin.skip("https://"@.len() as int),
        ),
    ensures
        !approved_origin(origin),
{
    if origin == "https://www.marketstate.ai"@ {
        reveal_strlit("https://");
        reveal_strlit("https://www.marketstate.ai");
        reveal_strlit(".marketstate.ai");
        let host = origin.skip(8);
        assert(origin.subrange(0, 8) =~= "https://"@);
        assert(host.subrange(3, host.len() as int) =~= ".marketstate.ai"@);
    }
}

/// A host is that of the connector where it is one of three texts but for
/// capitals, and only there.
pub proof fn hosts_are_judged(host: Seq<char>)
    ensures
        loopback_host(host) <==> (lowercase(host) == "127.0.0.1:8765"@ || lowercase(host)
            == "localhost:8765"@ || lowercase(host) == "[::1]:8765"@),
{
}

} // verus!
