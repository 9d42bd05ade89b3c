//! Origin normalization per RFC 6454, shared by the CORS and CSRF
//! filters so that origin matching is consistent across all security
//! filters.

use vstd::prelude::*;

use crate::text::{concat, push_char, strip_prefix, strip_suffix};

verus! {

/// ASCII lowercasing of one character; other characters are kept.
pub open spec fn lower_char(c: char) -> char {
    if 'A' <= c && c <= 'Z' {
        ((c as u32) + 32) as char
    } else {
        c
    }
}

/// ASCII lowercasing of a whole string.
pub open spec fn lower_ascii(s: Seq<char>) -> Seq<char> {
    Seq::new(s.len(), |i: int| lower_char(s[i]))
}

/// The `wss://` scheme prefix.
pub open spec fn scheme_wss() -> Seq<char> {
    seq!['w', 's', 's', ':', '/', '/']
}

/// The `ws://` scheme prefix.
pub open spec fn scheme_ws() -> Seq<char> {
    seq!['w', 's', ':', '/', '/']
}

/// The `https://` scheme prefix.
pub open spec fn scheme_https() -> Seq<char> {
    seq!['h', 't', 't', 'p', 's', ':', '/', '/']
}

/// The `http://` scheme prefix.
pub open spec fn scheme_http() -> Seq<char> {
    seq!['h', 't', 't', 'p', ':', '/', '/']
}

/// The default https port suffix, `:443`.
pub open spec fn port_https() -> Seq<char> {
    seq![':', '4', '4', '3']
}

/// The default http port suffix, `:80`.
pub open spec fn port_http() -> Seq<char> {
    seq![':', '8', '0']
}

/// WebSocket schemes mapped to their HTTP equivalents.
pub open spec fn map_websocket_scheme(s: Seq<char>) -> Seq<char> {
    if scheme_wss().is_prefix_of(s) {
        scheme_https() + s.skip(6)
    } else if scheme_ws().is_prefix_of(s) {
        scheme_http() + s.skip(5)
    } else {
        s
    }
}

/// One default port (`:443` for https, `:80` for http) removed from the end.
pub open spec fn strip_default_port(s: Seq<char>) -> Seq<char> {
    if scheme_https().is_prefix_of(s) && port_https().is_suffix_of(s.skip(8)) {
        s.take(s.len() - 4)
    } else if scheme_http().is_prefix_of(s) && port_http().is_suffix_of(s.skip(7)) {
        s.take(s.len() - 3)
    } else {
        s
    }
}

/// The normalized form of an origin: lowercased, WebSocket scheme mapped,
/// default port stripped.
pub open spec fn normalized_origin(origin: Seq<char>) -> Seq<char> {
    strip_default_port(map_websocket_scheme(lower_ascii(origin)))
}

fn lower_ascii_char(c: char) -> (r: char)
    ensures
        r == lower_char(c),
{
    if 'A' <= c && c <= 'Z' {
        let b = (c as u8) + 32;
        b as char
    } else {
        c
    }
}

fn to_ascii_lowercase(s: &str) -> (r: String)
    ensures
        r@ == lower_ascii(s@),
{
    let n = s.unicode_len();
    let mut r = String::new();
    let mut i: usize = 0;
    while i < n
        invariant
            n == s@.len(),
            i <= n,
            r@ =~= lower_ascii(s@).take(i as int),
        decreases n - i,
    {
        let c = s.get_char(i);
        push_char(&mut r, lower_ascii_char(c));
        i = i + 1;
    }
    r
}

/// Normalize an origin for comparison per RFC 6454.
///
/// Lowercases scheme and host (RFC 6454 section 6.1), maps WebSocket
/// schemes to their HTTP equivalents (`ws://` to `http://`, `wss://` to
/// `https://`), and strips the default port for the scheme so that
/// `https://example.com:443` and `https://example.com` compare equal
/// (RFC 6454 section 4).
pub fn normalize_origin(origin: &str) -> (r: String)
    ensures
        r@ == normalized_origin(origin@),
{
    proof {
        reveal_strlit("wss://");
        reveal_strlit("ws://");
        reveal_strlit("https://");
        reveal_strlit("http://");
        reveal_strlit(":443");
        reveal_strlit(":80");
    }
    assert("wss://"@ =~= scheme_wss());
    assert("ws://"@ =~= scheme_ws());
    assert("https://"@ =~= scheme_https());
    assert("http://"@ =~= scheme_http());
    assert(":443"@ =~= port_https());
    assert(":80"@ =~= port_http());
    let lowered = to_ascii_lowercase(origin);
    let ghost low = lowered@;
    let normalized = if let Some(rest) = strip_prefix(lowered.as_str(), "wss://") {
        assert(rest@ =~= low.skip(6));
        concat("https://", rest)
    } else if let Some(rest) = strip_prefix(lowered.as_str(), "ws://") {
        assert(rest@ =~= low.skip(5));
        concat("http://", rest)
    } else {
        lowered
    };
    let ghost norm = normalized@;
    assert(norm == map_websocket_scheme(low));
    if let Some(stripped) = strip_prefix(normalized.as_str(), "https://") {
        assert(stripped@ =~= norm.skip(8));
        if let Some(without_port) = strip_suffix(stripped, ":443") {
            let r = concat("https://", without_port);
            assert(r@ =~= norm.take(norm.len() - 4));
            return r;
        }
    }
    if let Some(stripped) = strip_prefix(normalized.as_str(), "http://") {
        assert(stripped@ =~= norm.skip(7));
        if let Some(without_port) = strip_suffix(stripped, ":80") {
            let r = concat("http://", without_port);
            assert(r@ =~= norm.take(norm.len() - 3));
            proof {
                assert(!(scheme_https().is_prefix_of(norm) && port_https().is_suffix_of(norm.skip(8))));
            }
            return r;
        }
    }
    normalized
}

/// No ASCII uppercase letter occurs in `s`.
pub open spec fn has_no_ascii_uppercase(s: Seq<char>) -> bool {
    forall|i: int| 0 <= i < s.len() ==> !('A' <= #[trigger] s[i] && s[i] <= 'Z')
}

/// `s` begins with a WebSocket scheme (`ws://` or `wss://`).
pub open spec fn has_websocket_scheme(s: Seq<char>) -> bool {
    scheme_ws().is_prefix_of(s) || scheme_wss().is_prefix_of(s)
}

proof fn lemma_lower_ascii_concat(a: Seq<char>, b: Seq<char>)
    ensures
        lower_ascii(a + b) == lower_ascii(a) + lower_ascii(b),
{
    assert(lower_ascii(a + b) =~= lower_ascii(a) + lower_ascii(b));
}

proof fn lemma_lower_ascii_has_no_uppercase(s: Seq<char>)
    ensures
        has_no_ascii_uppercase(lower_ascii(s)),
{
    assert forall|i: int| 0 <= i < lower_ascii(s).len() implies !('A' <= #[trigger] lower_ascii(
        s,
    )[i] && lower_ascii(s)[i] <= 'Z') by {
        let c = s[i];
        if 'A' <= c && c <= 'Z' {
            assert((c as u32) + 32 >= 'a' as u32);
        }
    }
}

/// The normalized origin holds no ASCII uppercase letter: scheme and
/// host are always compared in lowercase.
pub proof fn normalized_origin_is_lowercase(origin: Seq<char>)
    ensures
        has_no_ascii_uppercase(normalized_origin(origin)),
{
    let l = lower_ascii(origin);
    lemma_lower_ascii_has_no_uppercase(origin);
    let m = map_websocket_scheme(l);
    assert(has_no_ascii_uppercase(scheme_https()));
    assert(has_no_ascii_uppercase(scheme_http()));
    assert(has_no_ascii_uppercase(m)) by {
        if scheme_wss().is_prefix_of(l) {
            assert forall|i: int| 0 <= i < m.len() implies !('A' <= #[trigger] m[i] && m[i] <= 'Z') by {
                if i >= 8 {
                    assert(m[i] == l[i - 8 + 6]);
                }
            }
        } else if scheme_ws().is_prefix_of(l) {
            assert forall|i: int| 0 <= i < m.len() implies !('A' <= #[trigger] m[i] && m[i] <= 'Z') by {
                if i >= 7 {
                    assert(m[i] == l[i - 7 + 5]);
                }
            }
        }
    }
    let r = normalized_origin(origin);
    assert forall|i: int| 0 <= i < r.len() implies !('A' <= #[trigger] r[i] && r[i] <= 'Z') by {
        assert(r[i] == m[i]);
    }
}

/// The normalized origin never carries a WebSocket scheme: `ws://` and
/// `wss://` are always mapped to `http://` and `https://`.
pub proof fn normalized_origin_has_no_websocket_scheme(origin: Seq<char>)
    ensures
        !has_websocket_scheme(normalized_origin(origin)),
{
    let l = lower_ascii(origin);
    let m = map_websocket_scheme(l);
    let r = normalized_origin(origin);
    assert(!has_websocket_scheme(m)) by {
        if scheme_wss().is_prefix_of(l) {
            assert(m[1] == 't');
        } else if scheme_ws().is_prefix_of(l) {
            assert(m[1] == 't');
        } else {
            assert(m == l);
        }
    }
    if r != m {
        if scheme_https().is_prefix_of(m) && port_https().is_suffix_of(m.skip(8)) {
            assert(r[1] == m[1]);
            assert(r[1] == 't');
        } else {
            assert(r[1] == m[1]);
            assert(r[1] == 't');
        }
    }
}

/// Normalizing twice is the same as normalizing once and then stripping
/// one more default port: the second pass changes nothing else.
pub proof fn normalize_twice_only_strips_port(origin: Seq<char>)
    ensures
        normalized_origin(normalized_origin(origin)) == strip_default_port(normalized_origin(origin)),
{
    let n = normalized_origin(origin);
    normalized_origin_is_lowercase(origin);
    normalized_origin_has_no_websocket_scheme(origin);
    assert(lower_ascii(n) =~= n);
    assert(map_websocket_scheme(n) == n);
}

/// Normalization is idempotent on every origin whose normalized form does
/// not itself end in the default port of its scheme.
pub proof fn normalize_origin_idempotent(origin: Seq<char>)
    requires
        strip_default_port(normalized_origin(origin)) == normalized_origin(origin),
    ensures
        normalized_origin(normalized_origin(origin)) == normalized_origin(origin),
{
    normalize_twice_only_strips_port(origin);
}

/// An https (or wss) origin and the same origin with an explicit `:443`
/// normalize to the same value, unless the origin already ends in `:443`.
pub proof fn https_default_port_is_equivalent(origin: Seq<char>)
    requires
        scheme_https().is_prefix_of(map_websocket_scheme(lower_ascii(origin))),
        !port_https().is_suffix_of(map_websocket_scheme(lower_ascii(origin)).skip(8)),
    ensures
        normalized_origin(origin + port_https()) == normalized_origin(origin),
{
    let l = lower_ascii(origin);
    let m = map_websocket_scheme(l);
    lemma_lower_ascii_concat(origin, port_https());
    assert(lower_ascii(port_https()) =~= port_https());
    let l2 = lower_ascii(origin + port_https());
    assert(l2 == l + port_https());
    assert(l.len() >= 6) by {
        if !scheme_wss().is_prefix_of(l) && !scheme_ws().is_prefix_of(l) {
            assert(m == l);
        }
    }
    let m2 = map_websocket_scheme(l2);
    assert(m2 =~= m + port_https()) by {
        if scheme_wss().is_prefix_of(l) {
            assert(scheme_wss().is_prefix_of(l2)) by {
                assert(l2.subrange(0, 6) =~= l.subrange(0, 6));
            }
        } else {
            assert(!scheme_wss().is_prefix_of(l2)) by {
                assert(l2.subrange(0, 6) =~= l.subrange(0, 6));
            }
            if scheme_ws().is_prefix_of(l) {
                assert(scheme_ws().is_prefix_of(l2)) by {
                    assert(l2.subrange(0, 5) =~= l.subrange(0, 5));
                }
            } else {
                assert(!scheme_ws().is_prefix_of(l2)) by {
                    assert(l2.subrange(0, 5) =~= l.subrange(0, 5));
                }
            }
        }
    }
    assert(scheme_https().is_prefix_of(m2)) by {
        assert(m2.subrange(0, 8) =~= m.subrange(0, 8));
    }
    assert(port_https().is_suffix_of(m2.skip(8))) by {
        let t = m2.skip(8);
        assert(t.subrange(t.len() - 4, t.len() as int) =~= port_https());
    }
    assert(normalized_origin(origin + port_https()) =~= m);
    assert(normalized_origin(origin) == m);
}

/// An http (or ws) origin and the same origin with an explicit `:80`
/// normalize to the same value, unless the origin already ends in `:80`.
pub proof fn http_default_port_is_equivalent(origin: Seq<char>)
    requires
        scheme_http().is_prefix_of(map_websocket_scheme(lower_ascii(origin))),
        !port_http().is_suffix_of(map_websocket_scheme(lower_ascii(origin)).skip(7)),
    ensures
        normalized_origin(origin + port_http()) == normalized_origin(origin),
{
    let l = lower_ascii(origin);
    let m = map_websocket_scheme(l);
    lemma_lower_ascii_concat(origin, port_http());
    assert(lower_ascii(port_http()) =~= port_http());
    let l2 = lower_ascii(origin + port_http());
    assert(l2 == l + port_http());
    let m2 = map_websocket_scheme(l2);
    assert(m2 =~= m + port_http()) by {
        if scheme_wss().is_prefix_of(l) {
            assert(scheme_wss().is_prefix_of(l2)) by {
                assert(l2.subrange(0, 6) =~= l.subrange(0, 6));
            }
        } else if scheme_ws().is_prefix_of(l) {
            assert(scheme_ws().is_prefix_of(l2)) by {
                assert(l2.subrange(0, 5) =~= l.subrange(0, 5));
            }
            assert(l2[2] == ':');
        } else {
            assert(m == l);
            assert(!scheme_wss().is_prefix_of(l2)) by {
                assert(l2.subrange(0, 6) =~= l.subrange(0, 6));
            }
            assert(!scheme_ws().is_prefix_of(l2)) by {
                assert(l2.subrange(0, 5) =~= l.subrange(0, 5));
            }
        }
    }
    assert(scheme_http().is_prefix_of(m2)) by {
        assert(m2.subrange(0, 7) =~= m.subrange(0, 7));
    }
    assert(!scheme_https().is_prefix_of(m2)) by {
        assert(m2[4] == m[4]);
        assert(m[4] == ':');
    }
    assert(port_http().is_suffix_of(m2.skip(7))) by {
        let t = m2.skip(7);
        assert(t.subrange(t.len() - 3, t.len() as int) =~= port_http());
    }
    assert(!scheme_https().is_prefix_of(m)) by {
        assert(m[4] == ':');
    }
    assert(normalized_origin(origin + port_http()) =~= m);
    assert(normalized_origin(origin) == m);
}

/// Lowercasing touches ASCII capitals only: a character from `A` to `Z`
/// becomes the letter 32 code points later (`a` to `z`), and every other
/// character (digits, punctuation such as `[`, `]`, `:`, non-ASCII) is kept.
pub proof fn lowercasing_changes_only_ascii_capitals(s: Seq<char>)
    ensures
        lower_ascii(s).len() == s.len(),
        forall|i: int|
            0 <= i < s.len() && 'A' <= #[trigger] s[i] && s[i] <= 'Z' ==> lower_ascii(s)[i] as u32 == (s[i]
                as u32) + 32 && 'a' <= lower_ascii(s)[i] && lower_ascii(s)[i] <= 'z',
        forall|i: int|
            0 <= i < s.len() && !('A' <= #[trigger] s[i] && s[i] <= 'Z') ==> lower_ascii(s)[i] == s[i],
{
    assert forall|i: int| 0 <= i < s.len() && 'A' <= #[trigger] s[i] && s[i] <= 'Z' implies lower_ascii(s)[i]
        as u32 == (s[i] as u32) + 32 && 'a' <= lower_ascii(s)[i] && lower_ascii(s)[i] <= 'z' by {
        let c = s[i];
        assert(lower_ascii(s)[i] == lower_char(c));
        assert(((c as u32) + 32) as char as u32 == (c as u32) + 32);
    }
}

/// An origin whose normalization neither maps a WebSocket scheme nor
/// strips a default port (its length is unchanged) keeps every character
/// but ASCII capitals, which are lowercased: `http://[::1]:8080` stays as it
/// is, and `HTTP://Example.COM:8080` becomes `http://example.com:8080`.
pub proof fn normalization_only_lowercases_when_length_kept(origin: Seq<char>)
    requires
        normalized_origin(origin).len() == origin.len(),
    ensures
        normalized_origin(origin) == lower_ascii(origin),
        forall|i: int|
            0 <= i < origin.len() && !('A' <= #[trigger] origin[i] && origin[i] <= 'Z') ==> normalized_origin(
                origin,
            )[i] == origin[i],
{
    let l = lower_ascii(origin);
    let m = map_websocket_scheme(l);
    let r = normalized_origin(origin);
    assert(l.len() == origin.len());
    let strips = (scheme_https().is_prefix_of(m) && port_https().is_suffix_of(m.skip(8))) || (
    scheme_http().is_prefix_of(m) && port_http().is_suffix_of(m.skip(7)));
    if strips {
        if scheme_https().is_prefix_of(m) && port_https().is_suffix_of(m.skip(8)) {
            assert(r.len() == m.len() - 4);
        } else {
            assert(r.len() == m.len() - 3);
        }
        if scheme_wss().is_prefix_of(l) || scheme_ws().is_prefix_of(l) {
            assert(m.len() == l.len() + 2);
        } else {
            assert(m == l);
        }
        assert(false);
    }
    assert(r == m);
    if scheme_wss().is_prefix_of(l) || scheme_ws().is_prefix_of(l) {
        if scheme_wss().is_prefix_of(l) {
            assert(m.len() == l.len() + 2);
        } else {
            assert(m.len() == l.len() + 2);
        }
        assert(false);
    }
    assert(r == l);
    lowercasing_changes_only_ascii_capitals(origin);
}

} // verus!
