//! Turns a link found on a page into the full URL to request.
use std::sync::Arc;

use vstd::prelude::*;

use crate::link_type_checker::uri_protocol_of;
use crate::link_type_checker::uri_scope_of;
use crate::link_type_checker::LinkTypeChecker;
use crate::percent::percent_encode;
use crate::percent::url_encode;
use crate::responses::uri_protocol::UriProtocol;
use crate::responses::uri_scope::UriScope;
use crate::text::chars_of;
use crate::text::collapse_double_slashes;
use crate::text::collapse_double_slashes_exec;
use crate::text::concat;
use crate::text::contains;
use crate::text::contains_char;
use crate::text::contains_char_exec;
use crate::text::contains_seq;
use crate::text::double_slash;
use crate::text::ends_with;
use crate::text::first_index_of;
use crate::text::first_index_of_exec;
use crate::text::has_prefix;
use crate::text::has_suffix;
use crate::text::join_with;
use crate::text::join_with_exec;
use crate::text::lemma_collapse_has_no_double_slash;
use crate::text::lemma_first_index_of_bounds;
use crate::text::remove_char;
use crate::text::remove_char_exec;
use crate::text::replace_all;
use crate::text::replace_all_exec;
use crate::text::skip_chars;
use crate::text::split_on;
use crate::text::split_on_exec;
use crate::text::starts_with;
use crate::text::string_of;
use crate::text::take_chars;
use crate::text::views_of;
use crate::uri_parse::parse_uri;
use crate::uri_parse::parsed_uri;

verus! {

/// `uri` made absolute-looking: kept when it starts with `/`, `http://` or
/// `https://`, else `/` is put in front.
pub open spec fn prefixed_with_slash(uri: Seq<char>) -> Seq<char> {
    if has_prefix(uri, "/"@) || has_prefix(uri, "http://"@) || has_prefix(uri, "https://"@) {
        uri
    } else {
        "/"@ + uri
    }
}

/// The URL text for `link` on `host`: the link itself when it starts with
/// `http`, else `<protocol>://<host><link>`.
pub open spec fn uri_string(protocol: Seq<char>, host: Seq<char>, link: Seq<char>) -> Seq<char> {
    if has_prefix(link, "http"@) {
        link
    } else {
        protocol + "://"@ + host + link
    }
}

/// The scheme prefix a pre-cleaned link keeps (`http://`, `https://`, `//` or
/// nothing) and the rest of the link with that prefix removed everywhere.
pub open spec fn split_scheme(c: Seq<char>) -> (Seq<char>, Seq<char>) {
    if has_prefix(c, "http://"@) {
        ("http://"@, replace_all(c, "http://"@, Seq::empty()))
    } else if has_prefix(c, "https://"@) {
        ("https://"@, replace_all(c, "https://"@, Seq::empty()))
    } else if has_prefix(c, "//"@) {
        ("//"@, replace_all(c, "//"@, Seq::empty()))
    } else {
        (Seq::empty(), c)
    }
}

/// The link with its query encoded: the part after the first `?`, without
/// further `?`, is percent-encoded with `%3D` turned back into `=`, and the
/// part before it is pre-cleaned on its own.
pub open spec fn with_encoded_query(host: Seq<char>, uri: Seq<char>) -> Seq<char>
    decreases uri.len(), 1int,
{
    if contains_char(uri, '?') {
        proof {
            lemma_first_index_of_bounds(uri, '?');
        }
        let k = first_index_of(uri, '?');
        pre_cleaned(host, uri.take(k)) + "?"@ + replace_all(
            percent_encode(remove_char(uri.skip(k + 1), '?')),
            "%3D"@,
            "="@,
        )
    } else {
        uri
    }
}

/// The scheme prefix and the cleaned rest of a link: doubled slashes collapsed,
/// and a leading `/` dropped when the host ends in `/` or the link is `//`-relative.
pub open spec fn pre_clean_parts(host: Seq<char>, uri: Seq<char>) -> (Seq<char>, Seq<char>)
    decreases uri.len(), 2int,
{
    let (proto, rest) = split_scheme(with_encoded_query(host, uri));
    let collapsed = collapse_double_slashes(rest);
    let body = if has_prefix(collapsed, "/"@) && (has_suffix(host, "/"@) || proto == "//"@) {
        collapsed.drop_first()
    } else {
        collapsed
    };
    (proto, body)
}

/// A link tidied before it is classified: its query encoded, its scheme kept,
/// doubled slashes collapsed.
pub open spec fn pre_cleaned(host: Seq<char>, uri: Seq<char>) -> Seq<char>
    decreases uri.len(), 3int,
{
    pre_clean_parts(host, uri).0 + pre_clean_parts(host, uri).1
}

/// `parts` with each `..` removing the piece before it (when there is one).
pub open spec fn resolve_parent_steps(parts: Seq<Seq<char>>) -> Seq<Seq<char>>
    decreases parts.len(),
{
    if parts.len() == 0 {
        Seq::empty()
    } else {
        let prev = resolve_parent_steps(parts.drop_last());
        if parts.last() == ".."@ {
            if prev.len() > 0 {
                prev.drop_last()
            } else {
                prev
            }
        } else {
            prev.push(parts.last())
        }
    }
}

/// The directory a relative link is resolved against: the parent url with a
/// trailing `/`, or nothing.
pub open spec fn parent_base(parent: Option<Seq<char>>) -> Seq<char> {
    match parent {
        Some(p) => if has_suffix(p, "/"@) {
            p
        } else {
            p + "/"@
        },
        None => Seq::empty(),
    }
}

/// A link with `../` resolved against its parent: unchanged when it holds no
/// `../`, else the parent directory and the link split at `/`, each `..`
/// removing the piece before it, joined again with `/`.
pub open spec fn normalized(uri: Seq<char>, parent: Option<Seq<char>>) -> Seq<char> {
    if !contains_seq(uri, "../"@) {
        uri
    } else {
        join_with(resolve_parent_steps(split_on(parent_base(parent) + uri, '/')), "/"@)
    }
}

/// The repair tried on a text that does not parse: percent-encoded, with `:`
/// and `/` restored.
pub open spec fn autofixed(uri: Seq<char>) -> Seq<char> {
    replace_all(replace_all(percent_encode(uri), "%3A"@, ":"@), "%2F"@, "/"@)
}

/// The text to parse for a link, and whether the repair may be tried when it
/// does not parse. `domain` is the host the link checker was made for.
pub open spec fn full_url_plan(
    domain: Seq<char>,
    protocol: Seq<char>,
    uri: Seq<char>,
    host: Seq<char>,
    parent: Option<Seq<char>>,
) -> (Seq<char>, bool) {
    let pre = pre_cleaned(host, uri);
    match uri_scope_of(domain, host, pre) {
        Some(UriScope::Root) => (uri_string(protocol, host, "/"@), true),
        Some(UriScope::SameDomain) => (
            uri_string(protocol, host, prefixed_with_slash(normalized(pre, parent))),
            true,
        ),
        Some(UriScope::Anchor) => (
            uri_string(protocol, host, prefixed_with_slash(normalized(pre, parent))),
            true,
        ),
        Some(_) => if uri_protocol_of(protocol, pre) == Some(UriProtocol::IMPLICIT) {
            (protocol + ":"@ + pre, false)
        } else {
            (pre, true)
        },
        None => (pre, true),
    }
}

/// The URL text `hyper` gives for a plan: the parse of its text, else, where
/// the repair is allowed, the parse of the repaired text; `None` when neither parses.
pub open spec fn url_from_plan(plan: (Seq<char>, bool)) -> Option<Seq<char>> {
    match parsed_uri(plan.0) {
        Some(p) => Some(p.text),
        None => if plan.1 {
            match parsed_uri(autofixed(plan.0)) {
                Some(p) => Some(p.text),
                None => None,
            }
        } else {
            None
        },
    }
}

/// The repaired text's parse: what `hyper` makes of `autofixed(uri)`.
pub open spec fn autofix_result(uri: Seq<char>) -> Option<Seq<char>> {
    match parsed_uri(autofixed(uri)) {
        Some(p) => Some(p.text),
        None => None,
    }
}

/// An optional string as an optional character sequence.
pub open spec fn opt_string_view(s: Option<String>) -> Option<Seq<char>> {
    match s {
        Some(x) => Some(x@),
        None => None,
    }
}

/// Forms full URLs for the links found while crawling one domain.
pub struct UriService {
    link_type_checker: Arc<LinkTypeChecker>,
}

impl UriService {
    /// The host the service's link checker was made for.
    pub closed spec fn domain(&self) -> Seq<char> {
        self.link_type_checker.domain()
    }

    /// A service classifying links with `link_type_checker`.
    pub fn new(link_type_checker: Arc<LinkTypeChecker>) -> (r: UriService)
        ensures
            r.domain() == link_type_checker.domain(),
    {
        UriService { link_type_checker }
    }

    /// The text to parse for `uri` found on a page of `host` reached by
    /// `protocol`, with `parent_uri` the page's own url, and whether the repair
    /// may be tried when that text does not parse.
    pub fn full_url_plan(
        &self,
        protocol: &str,
        uri: &str,
        host: &str,
        parent_uri: &Option<String>,
    ) -> (r: (String, bool))
        ensures
            (r.0@, r.1) == full_url_plan(
                self.domain(),
                protocol@,
                uri@,
                host@,
                opt_string_view(*parent_uri),
            ),
    {
        let h = chars_of(host);
        let p = chars_of(protocol);
        let pre = pre_clean_uri(&h, &chars_of(uri));
        let pre_s = string_of(&pre);
        let checker: &LinkTypeChecker = &self.link_type_checker;
        match checker.get_uri_scope(host, pre_s.as_str()) {
            Some(UriScope::Root) => (string_of(&create_uri_string(&p, &h, &chars_of("/"))), true),
            Some(UriScope::SameDomain) | Some(UriScope::Anchor) => {
                let normalized_uri = normalize_url(&pre, parent_uri);
                let adjusted = prefix_uri_with_forward_slash(&normalized_uri);
                (string_of(&create_uri_string(&p, &h, &adjusted)), true)
            },
            Some(_) => {
                let proto = checker.get_uri_protocol(protocol, pre_s.as_str());
                if proto == Some(UriProtocol::IMPLICIT) {
                    (string_of(&concat(&concat(&p, &chars_of(":")), &pre)), false)
                } else {
                    (pre_s, true)
                }
            },
            None => (pre_s, true),
        }
    }

    /// The full URL for `uri`, or `None` where no URL can be formed from it
    /// (the plan's text and, where allowed, its repair do not parse).
    pub fn try_form_full_url(
        &self,
        protocol: &str,
        uri: &str,
        host: &str,
        parent_uri: &Option<String>,
    ) -> (r: Option<String>)
        ensures
            opt_string_view(r) == url_from_plan(
                full_url_plan(self.domain(), protocol@, uri@, host@, opt_string_view(*parent_uri)),
            ),
    {
        let (candidate, may_fix) = self.full_url_plan(protocol, uri, host, parent_uri);
        let parses = parse_uri(candidate.as_str()).is_some();
        if parses || (may_fix && try_autofix_invalid_url(candidate.as_str()).is_some()) {
            Some(self.form_full_url(protocol, uri, host, parent_uri))
        } else {
            None
        }
    }

    /// The full URL for `uri` found on a page of `host` reached by
    /// `protocol`, with `parent_uri` the page's own url.
    pub fn form_full_url(
        &self,
        protocol: &str,
        uri: &str,
        host: &str,
        parent_uri: &Option<String>,
    ) -> (r: String)
        requires
            url_from_plan(
                full_url_plan(self.domain(), protocol@, uri@, host@, opt_string_view(*parent_uri)),
            ) is Some,
        ensures
            r@ == url_from_plan(
                full_url_plan(self.domain(), protocol@, uri@, host@, opt_string_view(*parent_uri)),
            )->0,
    {
        let (candidate, may_fix) = self.full_url_plan(protocol, uri, host, parent_uri);
        match parse_uri(candidate.as_str()) {
            Some(parsed) => parsed.text,
            None => {
                let fixed = try_autofix_invalid_url(candidate.as_str());
                match fixed {
                    Some(text) => text,
                    None => {
                        assert(false);
                        String::new()
                    },
                }
            },
        }
    }
}

/// The URL `hyper` makes of the repaired text, or `None` when even that does not parse.
pub fn try_autofix_invalid_url(uri: &str) -> (r: Option<String>)
    ensures
        opt_string_view(r) == autofix_result(uri@),
{
    proof {
        reveal_strlit("%3A");
        reveal_strlit("%2F");
    }
    let encoded = chars_of(url_encode(uri).as_str());
    let colon = replace_all_exec(&encoded, &chars_of("%3A"), &chars_of(":"));
    let fixed = replace_all_exec(&colon, &chars_of("%2F"), &chars_of("/"));
    let fixed_s = string_of(&fixed);
    match parse_uri(fixed_s.as_str()) {
        Some(parsed) => Some(parsed.text),
        None => None,
    }
}

/// `uri` kept when it starts with `/`, `http://` or `https://`, else with `/` in front.
pub fn prefix_uri_with_forward_slash(uri: &Vec<char>) -> (r: Vec<char>)
    ensures
        r@ == prefixed_with_slash(uri@),
{
    if starts_with(uri, &chars_of("/")) || starts_with(uri, &chars_of("http://")) || starts_with(
        uri,
        &chars_of("https://"),
    ) {
        uri.clone()
    } else {
        concat(&chars_of("/"), uri)
    }
}

/// The URL text for `link`: the link when it starts with `http`, else
/// `<protocol>://<host><link>`.
pub fn create_uri_string(protocol: &Vec<char>, host: &Vec<char>, link: &Vec<char>) -> (r: Vec<
    char,
>)
    ensures
        r@ == uri_string(protocol@, host@, link@),
{
    if starts_with(link, &chars_of("http")) {
        link.clone()
    } else {
        concat(&concat(&concat(protocol, &chars_of("://")), host), link)
    }
}

/// The link with its scheme prefix split off and removed from the rest.
fn split_scheme_exec(c: &Vec<char>) -> (r: (Vec<char>, Vec<char>))
    ensures
        (r.0@, r.1@) == split_scheme(c@),
{
    proof {
        reveal_strlit("http://");
        reveal_strlit("https://");
        reveal_strlit("//");
    }
    let empty: Vec<char> = Vec::new();
    let http = chars_of("http://");
    let https = chars_of("https://");
    let dslash = chars_of("//");
    if starts_with(c, &http) {
        (http.clone(), replace_all_exec(c, &http, &empty))
    } else if starts_with(c, &https) {
        (https.clone(), replace_all_exec(c, &https, &empty))
    } else if starts_with(c, &dslash) {
        (dslash.clone(), replace_all_exec(c, &dslash, &empty))
    } else {
        (empty, c.clone())
    }
}

/// The link tidied before it is classified: its query encoded, its scheme
/// kept, doubled slashes collapsed.
pub fn pre_clean_uri(host: &Vec<char>, uri: &Vec<char>) -> (r: Vec<char>)
    ensures
        r@ == pre_cleaned(host@, uri@),
    decreases uri@.len(),
{
    let joined = if contains_char_exec(uri, '?') {
        proof {
            lemma_first_index_of_bounds(uri@, '?');
        }
        let k = first_index_of_exec(uri, '?');
        let front = pre_clean_uri(host, &take_chars(uri, k));
        let after = remove_char_exec(&skip_chars(uri, k + 1), '?');
        let encoded = chars_of(url_encode(string_of(&after).as_str()).as_str());
        proof {
            reveal_strlit("%3D");
        }
        let query = replace_all_exec(&encoded, &chars_of("%3D"), &chars_of("="));
        concat(&concat(&front, &chars_of("?")), &query)
    } else {
        uri.clone()
    };
    assert(joined@ == with_encoded_query(host@, uri@));
    proof {
        reveal_strlit("/");
    }
    let (proto, rest) = split_scheme_exec(&joined);
    let collapsed = collapse_double_slashes_exec(&rest);
    let body = if starts_with(&collapsed, &chars_of("/")) && (ends_with(host, &chars_of("/"))
        || chars_eq_lit(&proto, &chars_of("//"))) {
        skip_chars(&collapsed, 1)
    } else {
        collapsed
    };
    proof {
        reveal_strlit("/");
    }
    assert(body@ == pre_clean_parts(host@, uri@).1);
    concat(&proto, &body)
}

fn chars_eq_lit(a: &Vec<char>, b: &Vec<char>) -> (r: bool)
    ensures
        r == (a@ == b@),
{
    crate::text::chars_eq(a, b)
}

/// `parts` with each `..` removing the piece kept before it.
fn resolve_parent_steps_exec(parts: &Vec<Vec<char>>) -> (r: Vec<Vec<char>>)
    ensures
        views_of(r@) == resolve_parent_steps(views_of(parts@)),
{
    let dots = chars_of("..");
    let mut out: Vec<Vec<char>> = Vec::new();
    let mut i: usize = 0;
    assert(views_of(parts@).take(0) =~= Seq::<Seq<char>>::empty());
    while i < parts.len()
        invariant
            i <= parts.len(),
            dots@ == ".."@,
            views_of(out@) == resolve_parent_steps(views_of(parts@).take(i as int)),
        decreases parts.len() - i,
    {
        assert(views_of(parts@).take(i + 1).drop_last() =~= views_of(parts@).take(i as int));
        assert(views_of(parts@).take(i + 1).last() == parts@[i as int]@);
        if crate::text::chars_eq(&parts[i], &dots) {
            if out.len() > 0 {
                let ghost before = out@;
                out.pop();
                assert(views_of(out@) =~= views_of(before).drop_last());
            }
        } else {
            let ghost before = out@;
            out.push(parts[i].clone());
            assert(views_of(out@) =~= views_of(before).push(parts@[i as int]@));
        }
        i = i + 1;
    }
    assert(views_of(parts@).take(i as int) =~= views_of(parts@));
    out
}

/// The link with `../` resolved against `parent_uri`.
pub fn normalize_url(uri: &Vec<char>, parent_uri: &Option<String>) -> (r: Vec<char>)
    ensures
        r@ == normalized(uri@, opt_string_view(*parent_uri)),
{
    if !contains(uri, &chars_of("../")) {
        return uri.clone();
    }
    let base: Vec<char> = match parent_uri {
        Some(p) => {
            let pc = chars_of(p.as_str());
            if ends_with(&pc, &chars_of("/")) {
                pc
            } else {
                concat(&pc, &chars_of("/"))
            }
        },
        None => Vec::new(),
    };
    assert(base@ == parent_base(opt_string_view(*parent_uri)));
    let absolute = concat(&base, uri);
    let parts = split_on_exec(&absolute, '/');
    let kept = resolve_parent_steps_exec(&parts);
    join_with_exec(&kept, &chars_of("/"))
}

/// The pieces of a text split at `sep` hold no `sep`.
proof fn lemma_split_pieces_lack_separator(s: Seq<char>, sep: char)
    ensures
        forall|i: int| 0 <= i < split_on(s, sep).len() ==> !(#[trigger] split_on(s, sep)[i]).contains(sep),
    decreases s.len(),
{
    lemma_first_index_of_bounds(s, sep);
    let k = first_index_of(s, sep);
    if k >= s.len() {
        assert(split_on(s, sep) == seq![s]);
        assert forall|j: int| 0 <= j < s.len() implies s[j] != sep by {}
    } else {
        lemma_split_pieces_lack_separator(s.skip(k + 1), sep);
        let rest = split_on(s.skip(k + 1), sep);
        assert(split_on(s, sep) == seq![s.take(k)] + rest);
        assert forall|i: int| 0 <= i < split_on(s, sep).len() implies !(#[trigger] split_on(s, sep)[i]).contains(
            sep,
        ) by {
            if i == 0 {
                assert forall|j: int| 0 <= j < s.take(k).len() implies s.take(k)[j] != sep by {}
            } else {
                assert(split_on(s, sep)[i] == rest[i - 1]);
            }
        }
    }
}

/// Resolving parent steps keeps only pieces of the input, none of them `..`.
proof fn lemma_resolved_pieces(parts: Seq<Seq<char>>)
    ensures
        forall|j: int|
            0 <= j < resolve_parent_steps(parts).len() ==> (#[trigger] resolve_parent_steps(parts)[j])
                != ".."@ && parts.contains(resolve_parent_steps(parts)[j]),
    decreases parts.len(),
{
    if parts.len() > 0 {
        let prev = resolve_parent_steps(parts.drop_last());
        lemma_resolved_pieces(parts.drop_last());
        assert forall|j: int| 0 <= j < resolve_parent_steps(parts).len() implies (#[trigger] resolve_parent_steps(
            parts,
        )[j]) != ".."@ && parts.contains(resolve_parent_steps(parts)[j]) by {
            if j < prev.len() {
                assert(resolve_parent_steps(parts)[j] == prev[j]);
                let k = choose|k: int| 0 <= k < parts.drop_last().len() && parts.drop_last()[k] == prev[j];
                assert(parts[k] == prev[j]);
            } else {
                assert(resolve_parent_steps(parts)[j] == parts.last());
                assert(parts[parts.len() - 1] == parts.last());
            }
        }
    }
}

/// A link with `../` is resolved to `/`-joined pieces, none of which is `..`
/// or holds a `/`: no `..` step is left in the result. A link without `../` is
/// left as it is. A parent without a trailing `/` resolves as the same parent
/// with one.
pub proof fn law_normalized_has_no_parent_step(uri: Seq<char>, parent: Option<Seq<char>>)
    ensures
        parent is Some && !has_suffix(parent->0, "/"@) ==> normalized(uri, parent) == normalized(
            uri,
            Some(parent->0 + "/"@),
        ),
        !contains_seq(uri, "../"@) ==> normalized(uri, parent) == uri,
        contains_seq(uri, "../"@) ==> {
            let pieces = resolve_parent_steps(split_on(parent_base(parent) + uri, '/'));
            &&& normalized(uri, parent) == join_with(pieces, "/"@)
            &&& forall|j: int| 0 <= j < pieces.len() ==> #[trigger] pieces[j] != ".."@ && !pieces[j].contains('/')
        },
{
    if parent is Some && !has_suffix(parent->0, "/"@) {
        let p = parent->0;
        reveal_strlit("/");
        assert((p + "/"@).subrange((p + "/"@).len() - 1, (p + "/"@).len() as int) =~= "/"@);
        assert(has_suffix(p + "/"@, "/"@));
    }
    let parts = split_on(parent_base(parent) + uri, '/');
    lemma_split_pieces_lack_separator(parent_base(parent) + uri, '/');
    lemma_resolved_pieces(parts);
    let pieces = resolve_parent_steps(parts);
    assert forall|j: int| 0 <= j < pieces.len() implies #[trigger] pieces[j] != ".."@ && !pieces[j].contains('/') by {
        assert(parts.contains(pieces[j]));
        let k = choose|k: int| 0 <= k < parts.len() && parts[k] == pieces[j];
        assert(!parts[k].contains('/'));
    }
}

/// A link to the page's own site is formed on the page's protocol and host:
/// the root is `<protocol>://<host>/`, and a same-domain or anchor link that
/// is not already absolute becomes `<protocol>://<host>` followed by the link
/// (resolved and starting with `/`), whatever the protocol is.
pub proof fn law_site_links_keep_the_page_protocol(
    domain: Seq<char>,
    protocol: Seq<char>,
    uri: Seq<char>,
    host: Seq<char>,
    parent: Option<Seq<char>>,
)
    ensures
        ({
            let pre = pre_cleaned(host, uri);
            let scope = uri_scope_of(domain, host, pre);
            let link = prefixed_with_slash(normalized(pre, parent));
            let plan = full_url_plan(domain, protocol, uri, host, parent);
            &&& scope == Some(UriScope::Root) ==> plan.0 == protocol + "://"@ + host + "/"@
            &&& (scope == Some(UriScope::SameDomain) || scope == Some(UriScope::Anchor)) && !has_prefix(
                link,
                "http"@,
            ) ==> plan.0 == protocol + "://"@ + host + link
            &&& (scope == Some(UriScope::Root) || scope == Some(UriScope::SameDomain) || scope == Some(
                UriScope::Anchor,
            )) ==> plan.1
        }),
{
    reveal_strlit("/");
    reveal_strlit("http");
    assert(!has_prefix("/"@, "http"@));
}

/// No doubled slash remains in a pre-cleaned link after its scheme prefix, and
/// that prefix is `http://`, `https://`, `//` or nothing.
pub proof fn law_pre_clean_leaves_no_double_slash(host: Seq<char>, uri: Seq<char>)
    ensures
        !contains_seq(pre_clean_parts(host, uri).1, double_slash()),
        pre_cleaned(host, uri) == pre_clean_parts(host, uri).0 + pre_clean_parts(host, uri).1,
        pre_clean_parts(host, uri).0 == "http://"@ || pre_clean_parts(host, uri).0 == "https://"@
            || pre_clean_parts(host, uri).0 == "//"@ || pre_clean_parts(host, uri).0 == Seq::<
            char,
        >::empty(),
{
    let (proto, rest) = split_scheme(with_encoded_query(host, uri));
    let collapsed = collapse_double_slashes(rest);
    lemma_collapse_has_no_double_slash(rest);
    reveal_strlit("/");
    assert(double_slash().len() == 2);
    if has_prefix(collapsed, "/"@) && (has_suffix(host, "/"@) || proto == "//"@) {
        let body = collapsed.drop_first();
        assert forall|i: int| !crate::text::occurs_at(body, double_slash(), i) by {
            if crate::text::occurs_at(body, double_slash(), i) {
                assert(collapsed.subrange(i + 1, i + 3) =~= body.subrange(i, i + 2));
                assert(crate::text::occurs_at(collapsed, double_slash(), i + 1));
            }
        }
    }
}

} // verus!
