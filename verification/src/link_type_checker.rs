//! Classifies a link by where it points (its scope) and how it is reached
//! (its protocol).
//!
//! The classification is a small grammar over the characters of a link. Each
//! shape below is stated as a spec function; the executable matchers are
//! proved to recognise exactly those shapes.
use vstd::prelude::*;

use crate::responses::uri_protocol::UriProtocol;
use crate::responses::uri_scope::UriScope;
use crate::text::chars_eq;
use crate::text::chars_of;
use crate::text::concat;
use crate::text::has_prefix;
use crate::text::no_newline;
use crate::text::occurs_at;
use crate::text::occurs_at_exec;
use crate::text::replace_all;
use crate::text::replace_all_exec;
use crate::text::skip_chars;
use crate::text::starts_with;
use crate::text::string_of;

verus! {

/// The host as it is compared against links: every `-` stands as `"`.
pub open spec fn domain_pattern(host: Seq<char>) -> Seq<char> {
    replace_all(host, "-"@, "\""@)
}

/// `/?#…`: a link to a fragment of the current page.
pub open spec fn is_anchor(s: Seq<char>) -> bool {
    has_prefix(s, "#"@) || has_prefix(s, "/#"@)
}

/// In `t` (a link after its leading `//`), position `i` splits a non-empty
/// subdomain part from `.<domain>`, and no line feed occurs outside the domain.
pub open spec fn subdomain_split_at(t: Seq<char>, d: Seq<char>, i: int) -> bool {
    &&& 1 <= i < t.len()
    &&& t[i] == '.'
    &&& occurs_at(t, d, i + 1)
    &&& no_newline(t.take(i))
    &&& no_newline(t.skip(i + 1 + d.len()))
}

/// `//<something>.<domain><anything>`: a protocol-relative link to a subdomain.
pub open spec fn is_different_subdomain(d: Seq<char>, s: Seq<char>) -> bool {
    has_prefix(s, "//"@) && exists|i: int| #[trigger] subdomain_split_at(s.skip(2), d, i)
}

/// `//<anything not starting with the domain>`: a protocol-relative link elsewhere.
pub open spec fn is_external(d: Seq<char>, s: Seq<char>) -> bool {
    has_prefix(s, "//"@) && !has_prefix(s.skip(2), d) && no_newline(s.skip(2))
}

/// `http://…` or `https://…`.
pub open spec fn is_external_with_protocol(s: Seq<char>) -> bool {
    has_prefix(s, "http://"@) || has_prefix(s, "https://"@)
}

/// The length of the `http://` or `https://` prefix of `s` (0 without one).
pub open spec fn scheme_prefix_len(s: Seq<char>) -> int {
    if has_prefix(s, "http://"@) {
        7
    } else if has_prefix(s, "https://"@) {
        8
    } else {
        0
    }
}

/// A character that may not occur in the host part before the domain.
pub open spec fn is_host_stop(c: char) -> bool {
    c == '/' || c == '=' || c == '?'
}

/// In `t` (a link after its scheme), position `i` ends a host part free of
/// `/`, `=` and `?`, followed by `.<domain>` and a rest without line feeds.
pub open spec fn host_subdomain_split_at(t: Seq<char>, d: Seq<char>, i: int) -> bool {
    &&& 0 <= i < t.len()
    &&& (forall|j: int| 0 <= j < i ==> !is_host_stop(#[trigger] t[j]))
    &&& t[i] == '.'
    &&& occurs_at(t, d, i + 1)
    &&& no_newline(t.skip(i + 1 + d.len()))
}

/// `http(s)://<host part>.<domain><anything>`: a link to a subdomain.
pub open spec fn is_different_subdomain_with_protocol(d: Seq<char>, s: Seq<char>) -> bool {
    is_external_with_protocol(s) && exists|i: int|
        #[trigger] host_subdomain_split_at(s.skip(scheme_prefix_len(s)), d, i)
}

/// `http(s)://<domain>…`: a link to the crawled domain.
pub open spec fn is_same_domain_with_protocol(d: Seq<char>, s: Seq<char>) -> bool {
    has_prefix(s, "http://"@ + d) || has_prefix(s, "https://"@ + d)
}

/// An ASCII letter.
pub open spec fn is_ascii_alpha(c: char) -> bool {
    ('a' <= c && c <= 'z') || ('A' <= c && c <= 'Z')
}

/// An ASCII letter or digit.
pub open spec fn is_ascii_alnum(c: char) -> bool {
    is_ascii_alpha(c) || ('0' <= c && c <= '9')
}

/// The number of ASCII letters `s` starts with.
pub open spec fn leading_alpha(s: Seq<char>) -> int
    decreases s.len(),
{
    if s.len() > 0 && is_ascii_alpha(s[0]) {
        1 + leading_alpha(s.drop_first())
    } else {
        0
    }
}

/// The number of ASCII letters and digits `s` starts with.
pub open spec fn leading_alnum(s: Seq<char>) -> int
    decreases s.len(),
{
    if s.len() > 0 && is_ascii_alnum(s[0]) {
        1 + leading_alnum(s.drop_first())
    } else {
        0
    }
}

/// `<letters>://…`: the link names a scheme.
pub open spec fn has_alpha_scheme(s: Seq<char>) -> bool {
    leading_alpha(s) >= 1 && has_prefix(s.skip(leading_alpha(s)), "://"@)
}

/// A relative link of at least two characters, not a fragment, without
/// line feeds after its first character (after `/` and one character when it
/// starts with `/`).
pub open spec fn is_same_domain(s: Seq<char>) -> bool {
    !has_alpha_scheme(s) && ((s.len() >= 3 && s[0] == '/' && s[1] != '#' && no_newline(s.skip(2)))
        || (s.len() >= 2 && s[0] != '#' && no_newline(s.skip(1))))
}

/// `<letters and digits>:…` not starting with `http`: some other scheme.
pub open spec fn is_unknown_prefix(s: Seq<char>) -> bool {
    !has_prefix(s, "http"@) && leading_alnum(s) >= 1 && leading_alnum(s) < s.len() && s[leading_alnum(
        s,
    )] == ':'
}

/// The link is one of the spellings of the root of `host`.
pub open spec fn is_root_of(host: Seq<char>, uri: Seq<char>) -> bool {
    ||| uri == "/"@
    ||| uri == host
    ||| uri == host + "/"@
    ||| uri == "http://"@ + host
    ||| uri == "http://"@ + host + "/"@
    ||| uri == "https://"@ + host
    ||| uri == "https://"@ + host + "/"@
}

/// The scope of `uri` found on a page of `host`, for a checker made for
/// `domain`: the first shape that matches, in this order.
pub open spec fn uri_scope_of(domain: Seq<char>, host: Seq<char>, uri: Seq<char>) -> Option<
    UriScope,
> {
    let d = domain_pattern(domain);
    if is_root_of(host, uri) {
        Some(UriScope::Root)
    } else if has_prefix(uri, "mailto:"@) {
        Some(UriScope::Mailto)
    } else if has_prefix(uri, "data:image/"@) {
        Some(UriScope::EmbeddedImage)
    } else if has_prefix(uri, "javascript:"@) {
        Some(UriScope::Code)
    } else if is_unknown_prefix(uri) {
        Some(UriScope::UnknownPrefix)
    } else if is_anchor(uri) {
        Some(UriScope::Anchor)
    } else if is_different_subdomain(d, uri) {
        Some(UriScope::DifferentSubDomain)
    } else if is_external(d, uri) {
        Some(UriScope::External)
    } else if is_same_domain(uri) {
        Some(UriScope::SameDomain)
    } else if is_same_domain_with_protocol(d, uri) {
        Some(UriScope::SameDomain)
    } else if is_different_subdomain_with_protocol(d, uri) {
        Some(UriScope::DifferentSubDomain)
    } else if is_external_with_protocol(uri) {
        Some(UriScope::External)
    } else {
        None
    }
}

/// A link `<scheme>://<host part>.<domain><rest>` to a subdomain of the
/// checker's domain is a different subdomain whether the scheme is `http` or
/// `https`: the host part is non-empty and free of `/`, `=` and `?`, the rest
/// has no line feed, and the link is neither a spelling of the page's root nor
/// a link straight to the domain. (The domain is compared in its pattern form,
/// `domain_pattern`, which is the domain itself when it has no `-`.)
pub proof fn law_subdomain_links_with_either_scheme(
    domain: Seq<char>,
    host: Seq<char>,
    scheme: Seq<char>,
    part: Seq<char>,
    rest: Seq<char>,
)
    requires
        scheme == "http"@ || scheme == "https"@,
        part.len() > 0,
        forall|j: int| 0 <= j < part.len() ==> #[trigger] part[j] != '/' && part[j] != '=' && part[j] != '?',
        no_newline(rest),
        !is_root_of(host, scheme + "://"@ + part + "."@ + domain_pattern(domain) + rest),
        !has_prefix(part + "."@ + domain_pattern(domain) + rest, domain_pattern(domain)),
    ensures
        uri_scope_of(domain, host, scheme + "://"@ + part + "."@ + domain_pattern(domain) + rest)
            == Some(UriScope::DifferentSubDomain),
{
    reveal_strlit("http");
    reveal_strlit("https");
    reveal_strlit("://");
    reveal_strlit(".");
    reveal_strlit("http://");
    reveal_strlit("https://");
    reveal_strlit("mailto:");
    reveal_strlit("data:image/");
    reveal_strlit("javascript:");
    reveal_strlit("#");
    reveal_strlit("/#");
    reveal_strlit("//");
    let d = domain_pattern(domain);
    let t = part + "."@ + d + rest;
    let u = scheme + "://"@ + part + "."@ + d + rest;
    let n = scheme.len() as int;
    assert(u =~= scheme + ("://"@ + t));
    assert(u[0] == 'h' && u[1] == 't' && u[2] == 't' && u[3] == 'p');
    assert(u[n] == ':' && u[n + 1] == '/' && u[n + 2] == '/');
    if scheme == "https"@ {
        assert(u[4] == 's');
    }
    assert(u.subrange(0, 4) =~= "http"@);
    assert(has_prefix(u, "http"@));
    assert(!has_prefix(u, "mailto:"@)) by {
        assert(u.subrange(0, 7)[0] != "mailto:"@[0]);
    }
    assert(!has_prefix(u, "data:image/"@)) by {
        if u.len() >= 11 {
            assert(u.subrange(0, 11)[0] != "data:image/"@[0]);
        }
    }
    assert(!has_prefix(u, "javascript:"@)) by {
        if u.len() >= 11 {
            assert(u.subrange(0, 11)[0] != "javascript:"@[0]);
        }
    }
    assert(!is_anchor(u)) by {
        assert(u.subrange(0, 1)[0] != "#"@[0]);
        assert(u.subrange(0, 2)[0] != "/#"@[0]);
    }
    assert(!has_prefix(u, "//"@)) by {
        assert(u.subrange(0, 2)[0] != "//"@[0]);
    }
    // the link names a scheme, so it is no relative link
    assert(leading_alpha(u) == n) by {
        let s1 = u.drop_first();
        let s2 = s1.drop_first();
        let s3 = s2.drop_first();
        let s4 = s3.drop_first();
        assert(s1[0] == u[1] && s2[0] == u[2] && s3[0] == u[3] && s4[0] == u[4]);
        assert(is_ascii_alpha(u[0]) && is_ascii_alpha(s1[0]) && is_ascii_alpha(s2[0]) && is_ascii_alpha(s3[0]));
        if n == 4 {
            assert(!is_ascii_alpha(s4[0]));
            assert(leading_alpha(s4) == 0);
        } else {
            let s5 = s4.drop_first();
            assert(s5[0] == u[5]);
            assert(is_ascii_alpha(s4[0]));
            assert(!is_ascii_alpha(s5[0]));
            assert(leading_alpha(s5) == 0);
            assert(leading_alpha(s4) == 1);
        }
        assert(leading_alpha(s3) == leading_alpha(s4) + 1);
        assert(leading_alpha(s2) == leading_alpha(s3) + 1);
        assert(leading_alpha(s1) == leading_alpha(s2) + 1);
    }
    assert(u.skip(n).subrange(0, 3) =~= "://"@);
    assert(has_alpha_scheme(u));
    assert(!is_same_domain(u));
    // the scheme is followed by the host part
    assert(u.skip(n + 3) =~= t);
    if n == 4 {
        assert(u.subrange(0, 7) =~= "http://"@);
        assert(scheme_prefix_len(u) == 7);
        if has_prefix(u, "http://"@ + d) {
            let q = "http://"@ + d;
            assert(u.subrange(0, q.len() as int) == q);
            assert forall|k: int| 0 <= k < d.len() implies t[k] == d[k] by {
                assert(u[7 + k] == u.subrange(0, q.len() as int)[7 + k]);
                assert(q[7 + k] == d[k]);
            }
            assert(t.subrange(0, d.len() as int) =~= d);
            assert(false);
        }
        assert(!has_prefix(u, "https://"@ + d)) by {
            if has_prefix(u, "https://"@ + d) {
                assert(u.subrange(0, 8 + d.len() as int)[4] == 's');
            }
        }
    } else {
        assert(u.subrange(0, 8) =~= "https://"@);
        assert(!has_prefix(u, "http://"@)) by {
            assert(u.subrange(0, 7)[4] != "http://"@[4]);
        }
        assert(scheme_prefix_len(u) == 8);
        assert(!has_prefix(u, "http://"@ + d)) by {
            if has_prefix(u, "http://"@ + d) {
                assert(u.subrange(0, 7 + d.len() as int)[4] == ':');
            }
        }
        if has_prefix(u, "https://"@ + d) {
            let q = "https://"@ + d;
            assert(u.subrange(0, q.len() as int) == q);
            assert forall|k: int| 0 <= k < d.len() implies t[k] == d[k] by {
                assert(u[8 + k] == u.subrange(0, q.len() as int)[8 + k]);
                assert(q[8 + k] == d[k]);
            }
            assert(t.subrange(0, d.len() as int) =~= d);
            assert(false);
        }
    }
    assert(!is_same_domain_with_protocol(d, u));
    assert(is_external_with_protocol(u));
    let i = part.len() as int;
    assert(u.skip(scheme_prefix_len(u)) =~= t);
    assert forall|j: int| 0 <= j < i implies !is_host_stop(#[trigger] t[j]) by {
        assert(t[j] == part[j]);
    }
    assert(t[i] == '.');
    assert(t.subrange(i + 1, i + 1 + d.len()) =~= d);
    assert(t.skip(i + 1 + d.len()) =~= rest);
    assert(host_subdomain_split_at(t, d, i));
    assert(is_different_subdomain_with_protocol(d, u));
}

/// The protocol a link states by itself: `Some(answer)` when the link decides
/// it, `None` when the page's protocol has to be consulted.
pub open spec fn stated_protocol(uri: Seq<char>) -> Option<Option<UriProtocol>> {
    if has_prefix(uri, "https"@) {
        Some(Some(UriProtocol::HTTPS))
    } else if has_prefix(uri, "http"@) {
        Some(Some(UriProtocol::HTTP))
    } else if has_prefix(uri, "data:"@) {
        Some(None)
    } else if has_prefix(uri, "mailto:"@) {
        Some(None)
    } else if is_unknown_prefix(uri) {
        Some(None)
    } else if uri.len() == 0 {
        Some(None)
    } else if has_prefix(uri, "//"@) {
        Some(Some(UriProtocol::IMPLICIT))
    } else {
        None
    }
}

/// The protocol of `uri` found on a page reached by `parent_protocol`: what
/// the link states, else what the page's protocol states, else none.
pub open spec fn uri_protocol_of(parent_protocol: Seq<char>, uri: Seq<char>) -> Option<UriProtocol> {
    match stated_protocol(uri) {
        Some(p) => p,
        None => match stated_protocol(parent_protocol) {
            Some(p) => p,
            None => None,
        },
    }
}

/// The name of a protocol as it stands before `://` (`IMPLICIT` is read as https).
pub open spec fn protocol_name(protocol: UriProtocol) -> Seq<char> {
    match protocol {
        UriProtocol::HTTP => "http"@,
        _ => "https"@,
    }
}

/// The name `get_uri_protocol_as_str` gives HTTP or HTTPS, put before `://`,
/// is read back as that protocol by `get_uri_protocol`, whatever follows.
pub proof fn law_protocol_name_reads_back(protocol: UriProtocol, rest: Seq<char>)
    requires
        !(protocol is IMPLICIT),
    ensures
        uri_protocol_of(""@, protocol_name(protocol) + "://"@ + rest) == Some(protocol),
{
    reveal_strlit("https");
    reveal_strlit("http");
    reveal_strlit("://");
    let u = protocol_name(protocol) + "://"@ + rest;
    match protocol {
        UriProtocol::HTTPS => {
            assert(u.subrange(0, 5) =~= "https"@);
        },
        UriProtocol::HTTP => {
            assert(u[4] == ':');
            assert(u.subrange(0, 5)[4] == ':');
            assert(u.subrange(0, 5) != "https"@);
            assert(u.subrange(0, 4) =~= "http"@);
        },
        UriProtocol::IMPLICIT => {},
    }
}

/// Classifies links found on pages of one domain.
pub struct LinkTypeChecker {
    domain: String,
}

impl LinkTypeChecker {
    /// The host this checker compares links against.
    pub closed spec fn domain(&self) -> Seq<char> {
        self.domain@
    }

    /// A checker for links found while crawling `host`.
    pub fn new(host: &str) -> (r: LinkTypeChecker)
        ensures
            r.domain() == host@,
    {
        LinkTypeChecker { domain: string_of(&chars_of(host)) }
    }

    /// The scope of `uri` as found on a page of `host`.
    pub fn get_uri_scope(&self, host: &str, uri: &str) -> (r: Option<UriScope>)
        ensures
            r == uri_scope_of(self.domain(), host@, uri@),
    {
        let u = chars_of(uri);
        let h = chars_of(host);
        let d = domain_pattern_exec(&chars_of(self.domain.as_str()));
        if is_root_of_exec(&h, &u) {
            Some(UriScope::Root)
        } else if starts_with(&u, &chars_of("mailto:")) {
            Some(UriScope::Mailto)
        } else if starts_with(&u, &chars_of("data:image/")) {
            Some(UriScope::EmbeddedImage)
        } else if starts_with(&u, &chars_of("javascript:")) {
            Some(UriScope::Code)
        } else if is_unknown_prefix_exec(&u) {
            Some(UriScope::UnknownPrefix)
        } else if is_anchor_exec(&u) {
            Some(UriScope::Anchor)
        } else if is_different_subdomain_exec(&d, &u) {
            Some(UriScope::DifferentSubDomain)
        } else if is_external_exec(&d, &u) {
            Some(UriScope::External)
        } else if is_same_domain_exec(&u) {
            Some(UriScope::SameDomain)
        } else if is_same_domain_with_protocol_exec(&d, &u) {
            Some(UriScope::SameDomain)
        } else if is_different_subdomain_with_protocol_exec(&d, &u) {
            Some(UriScope::DifferentSubDomain)
        } else if is_external_with_protocol_exec(&u) {
            Some(UriScope::External)
        } else {
            None
        }
    }

    /// The protocol of `uri` as found on a page reached by `parent_protocol`.
    pub fn get_uri_protocol(&self, parent_protocol: &str, uri: &str) -> (r: Option<UriProtocol>)
        ensures
            r == uri_protocol_of(parent_protocol@, uri@),
    {
        let u = chars_of(uri);
        match stated_protocol_exec(&u) {
            Some(p) => p,
            None => {
                let pp = chars_of(parent_protocol);
                match stated_protocol_exec(&pp) {
                    Some(p) => p,
                    None => None,
                }
            },
        }
    }

    /// The name of a protocol: `http` for HTTP, `https` otherwise.
    pub fn get_uri_protocol_as_str(protocol: &UriProtocol) -> (r: &'static str)
        ensures
            r@ == protocol_name(*protocol),
    {
        match protocol {
            UriProtocol::HTTP => "http",
            _ => "https",
        }
    }
}

/// The host as it is compared against links.
pub fn domain_pattern_exec(host: &Vec<char>) -> (r: Vec<char>)
    ensures
        r@ == domain_pattern(host@),
{
    proof {
        reveal_strlit("-");
    }
    replace_all_exec(host, &chars_of("-"), &chars_of("\""))
}

fn is_root_of_exec(host: &Vec<char>, uri: &Vec<char>) -> (r: bool)
    ensures
        r == is_root_of(host@, uri@),
{
    let slash = chars_of("/");
    let http = chars_of("http://");
    let https = chars_of("https://");
    let host_slash = concat(host, &slash);
    chars_eq(uri, &slash) || chars_eq(uri, host) || chars_eq(uri, &host_slash) || chars_eq(
        uri,
        &concat(&http, host),
    ) || chars_eq(uri, &concat(&concat(&http, host), &slash)) || chars_eq(
        uri,
        &concat(&https, host),
    ) || chars_eq(uri, &concat(&concat(&https, host), &slash))
}

fn is_anchor_exec(s: &Vec<char>) -> (r: bool)
    ensures
        r == is_anchor(s@),
{
    starts_with(s, &chars_of("#")) || starts_with(s, &chars_of("/#"))
}

/// No line feed occurs in `s` between `from` and `to`.
fn no_newline_between(s: &Vec<char>, from: usize, to: usize) -> (r: bool)
    requires
        from <= to <= s.len(),
    ensures
        r == no_newline(s@.subrange(from as int, to as int)),
{
    let mut i: usize = from;
    while i < to
        invariant
            from <= i <= to <= s.len(),
            no_newline(s@.subrange(from as int, i as int)),
        decreases to - i,
    {
        if s[i] == '\n' {
            assert(s@.subrange(from as int, to as int)[i - from] == '\n');
            return false;
        }
        i = i + 1;
        assert forall|j: int| 0 <= j < i - from implies s@.subrange(from as int, i as int)[j]
            != '\n' by {
            if j < i - 1 - from {
                assert(s@.subrange(from as int, i as int)[j] == s@.subrange(
                    from as int,
                    i - 1,
                )[j]);
            }
        }
    }
    true
}

fn is_different_subdomain_exec(d: &Vec<char>, s: &Vec<char>) -> (r: bool)
    ensures
        r == is_different_subdomain(d@, s@),
{
    proof {
        reveal_strlit("//");
    }
    if !starts_with(s, &chars_of("//")) {
        return false;
    }
    let t = skip_chars(s, 2);
    let mut i: usize = 1;
    while i < t.len()
        invariant
            1 <= i,
            has_prefix(s@, "//"@),
            t@ == s@.skip(2),
            forall|j: int| 1 <= j < i ==> !subdomain_split_at(t@, d@, j),
        decreases t.len() - i,
    {
        if t[i] == '.' && occurs_at_exec(&t, d, i + 1) && no_newline_between(&t, 0, i)
            && no_newline_between(&t, i + 1 + d.len(), t.len()) {
            assert(t@.take(i as int) =~= t@.subrange(0, i as int));
            assert(t@.skip(i + 1 + d.len()) =~= t@.subrange(i + 1 + d.len(), t.len() as int));
            assert(subdomain_split_at(t@, d@, i as int));
            assert(subdomain_split_at(s@.skip(2), d@, i as int));
            return true;
        }
        proof {
            if subdomain_split_at(t@, d@, i as int) {
                assert(t@.take(i as int) =~= t@.subrange(0, i as int));
                assert(t@.skip(i + 1 + d.len()) =~= t@.subrange(
                    i + 1 + d.len(),
                    t.len() as int,
                ));
            }
        }
        i = i + 1;
    }
    false
}

fn is_external_exec(d: &Vec<char>, s: &Vec<char>) -> (r: bool)
    ensures
        r == is_external(d@, s@),
{
    proof {
        reveal_strlit("//");
    }
    if !starts_with(s, &chars_of("//")) {
        return false;
    }
    let t = skip_chars(s, 2);
    let nl = no_newline_between(&t, 0, t.len());
    assert(t@.subrange(0, t.len() as int) =~= t@);
    !starts_with(&t, d) && nl
}

fn is_external_with_protocol_exec(s: &Vec<char>) -> (r: bool)
    ensures
        r == is_external_with_protocol(s@),
{
    starts_with(s, &chars_of("http://")) || starts_with(s, &chars_of("https://"))
}

fn is_same_domain_with_protocol_exec(d: &Vec<char>, s: &Vec<char>) -> (r: bool)
    ensures
        r == is_same_domain_with_protocol(d@, s@),
{
    starts_with(s, &concat(&chars_of("http://"), d)) || starts_with(
        s,
        &concat(&chars_of("https://"), d),
    )
}

fn is_different_subdomain_with_protocol_exec(d: &Vec<char>, s: &Vec<char>) -> (r: bool)
    ensures
        r == is_different_subdomain_with_protocol(d@, s@),
{
    proof {
        reveal_strlit("http://");
        reveal_strlit("https://");
    }
    let skip: usize = if starts_with(s, &chars_of("http://")) {
        7
    } else if starts_with(s, &chars_of("https://")) {
        8
    } else {
        return false;
    };
    let t = skip_chars(s, skip);
    let mut i: usize = 0;
    while i < t.len()
        invariant
            t@ == s@.skip(scheme_prefix_len(s@)),
            is_external_with_protocol(s@),
            i <= t.len(),
            forall|j: int| 0 <= j < i ==> !is_host_stop(#[trigger] t@[j]),
            forall|j: int| 0 <= j < i ==> !host_subdomain_split_at(t@, d@, j),
        decreases t.len() - i,
    {
        if t[i] == '.' && occurs_at_exec(&t, d, i + 1) && no_newline_between(
            &t,
            i + 1 + d.len(),
            t.len(),
        ) {
            assert(t@.skip(i + 1 + d.len()) =~= t@.subrange(i + 1 + d.len(), t.len() as int));
            assert(host_subdomain_split_at(t@, d@, i as int));
            assert(host_subdomain_split_at(s@.skip(scheme_prefix_len(s@)), d@, i as int));
            return true;
        }
        proof {
            if host_subdomain_split_at(t@, d@, i as int) {
                assert(t@.skip(i + 1 + d.len()) =~= t@.subrange(
                    i + 1 + d.len(),
                    t.len() as int,
                ));
            }
        }
        if t[i] == '/' || t[i] == '=' || t[i] == '?' {
            assert forall|j: int| 0 <= j implies !host_subdomain_split_at(t@, d@, j) by {
                if j > i {
                    assert(is_host_stop(t@[i as int]));
                }
            }
            return false;
        }
        i = i + 1;
    }
    false
}

proof fn lemma_leading_alpha_bounds(s: Seq<char>)
    ensures
        0 <= leading_alpha(s) <= s.len(),
    decreases s.len(),
{
    if s.len() > 0 && is_ascii_alpha(s[0]) {
        lemma_leading_alpha_bounds(s.drop_first());
    }
}

fn leading_alpha_exec(s: &Vec<char>) -> (r: usize)
    ensures
        r == leading_alpha(s@),
{
    let mut i: usize = 0;
    assert(s@.skip(0) =~= s@);
    while i < s.len() && (('a' <= s[i] && s[i] <= 'z') || ('A' <= s[i] && s[i] <= 'Z'))
        invariant
            i <= s.len(),
            leading_alpha(s@) == i + leading_alpha(s@.skip(i as int)),
        decreases s.len() - i,
    {
        assert(s@.skip(i as int).drop_first() =~= s@.skip(i + 1));
        i = i + 1;
    }
    i
}

fn leading_alnum_exec(s: &Vec<char>) -> (r: usize)
    ensures
        r == leading_alnum(s@),
{
    let mut i: usize = 0;
    assert(s@.skip(0) =~= s@);
    while i < s.len() && (('a' <= s[i] && s[i] <= 'z') || ('A' <= s[i] && s[i] <= 'Z') || ('0'
        <= s[i] && s[i] <= '9'))
        invariant
            i <= s.len(),
            leading_alnum(s@) == i + leading_alnum(s@.skip(i as int)),
        decreases s.len() - i,
    {
        assert(s@.skip(i as int).drop_first() =~= s@.skip(i + 1));
        i = i + 1;
    }
    i
}

fn is_same_domain_exec(s: &Vec<char>) -> (r: bool)
    ensures
        r == is_same_domain(s@),
{
    let k = leading_alpha_exec(s);
    proof {
        lemma_leading_alpha_bounds(s@);
    }
    if k >= 1 {
        let rest = skip_chars(s, k);
        if starts_with(&rest, &chars_of("://")) {
            return false;
        }
    }
    let n = s.len();
    if n >= 3 && s[0] == '/' && s[1] != '#' && no_newline_between(s, 2, n) {
        assert(s@.skip(2) =~= s@.subrange(2, n as int));
        return true;
    }
    if n >= 2 && s[0] != '#' && no_newline_between(s, 1, n) {
        assert(s@.skip(1) =~= s@.subrange(1, n as int));
        return true;
    }
    assert(s@.skip(2) =~= s@.subrange(2, n as int));
    assert(s@.skip(1) =~= s@.subrange(1, n as int));
    false
}

fn is_unknown_prefix_exec(s: &Vec<char>) -> (r: bool)
    ensures
        r == is_unknown_prefix(s@),
{
    if starts_with(s, &chars_of("http")) {
        return false;
    }
    let k = leading_alnum_exec(s);
    k >= 1 && k < s.len() && s[k] == ':'
}

fn stated_protocol_exec(u: &Vec<char>) -> (r: Option<Option<UriProtocol>>)
    ensures
        r == stated_protocol(u@),
{
    if starts_with(u, &chars_of("https")) {
        Some(Some(UriProtocol::HTTPS))
    } else if starts_with(u, &chars_of("http")) {
        Some(Some(UriProtocol::HTTP))
    } else if starts_with(u, &chars_of("data:")) {
        Some(None)
    } else if starts_with(u, &chars_of("mailto:")) {
        Some(None)
    } else if is_unknown_prefix_exec(u) {
        Some(None)
    } else if u.len() == 0 {
        Some(None)
    } else if starts_with(u, &chars_of("//")) {
        Some(Some(UriProtocol::IMPLICIT))
    } else {
        None
    }
}

} // verus!
