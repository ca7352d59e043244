//! What robots.txt allows a crawl to load.
use robotstxt_with_cache::DefaultCachingMatcher;
use robotstxt_with_cache::DefaultMatcher;

use vstd::prelude::*;

use crate::text::chars_of;
use crate::text::concat;
use crate::text::string_of;

verus! {

/// The rules read from robots.txt bodies, held in a `robotstxt_with_cache`
/// caching matcher (whose generic declaration Verus does not take).
#[verifier::external_body]
pub struct RobotsRules {
    matcher: DefaultCachingMatcher,
}

/// The robots.txt bodies a caching matcher has been given, in order.
pub uninterp spec fn parsed_robots_bodies(m: RobotsRules) -> Seq<Seq<char>>;

/// Whether `robotstxt_with_cache` lets `user_agent` load `url` under the rules
/// of the given robots.txt bodies (read one after the other).
pub uninterp spec fn robots_txt_allows(
    bodies: Seq<Seq<char>>,
    user_agent: Seq<char>,
    url: Seq<char>,
) -> bool;

/// `DefaultCachingMatcher::new(DefaultMatcher::default())`: a matcher that
/// has been given no robots.txt yet.
#[verifier::external_body]
fn new_robots_matcher() -> (m: RobotsRules)
    ensures
        parsed_robots_bodies(m) == Seq::<Seq<char>>::empty(),
{
    RobotsRules { matcher: DefaultCachingMatcher::new(DefaultMatcher::default()) }
}

/// A line end for the robots.txt parser: `\n` or `\r`.
pub open spec fn is_line_end(c: char) -> bool {
    c == '\n' || c == '\r'
}

/// The number of bytes of `c` in UTF-8.
pub open spec fn utf8_len(c: char) -> nat {
    if (c as u32) < 0x80 {
        1
    } else if (c as u32) < 0x800 {
        2
    } else if (c as u32) < 0x10000 {
        3
    } else {
        4
    }
}

/// The UTF-8 bytes on the line of position `i` before it.
pub open spec fn line_bytes_before(s: Seq<char>, i: int) -> nat
    decreases i,
{
    if i <= 0 {
        0
    } else if is_line_end(s[i - 1]) {
        0
    } else {
        line_bytes_before(s, i - 1) + utf8_len(s[i - 1])
    }
}

/// The number of bytes of a line the robots.txt parser keeps; what follows on
/// the line is skipped.
pub open spec fn robots_line_limit() -> nat {
    16663
}

/// The robots.txt parser can read `body`: every character past the part of
/// its line that the parser keeps is ASCII. (The parser skips such
/// characters counting one byte for each; a longer one would make it cut the
/// next line inside a character, and panic.)
pub open spec fn robots_body_parsable(body: Seq<char>) -> bool {
    forall|i: int|
        0 <= i < body.len() && line_bytes_before(body, i) >= robots_line_limit() ==> ((#[trigger] body[i])
            as u32) < 0x80
}

/// Whether the robots.txt parser can read `body` (see `robots_body_parsable`).
pub fn is_robots_body_parsable(body: &str) -> (r: bool)
    ensures
        r == robots_body_parsable(body@),
{
    let c = chars_of(body);
    let mut run: usize = 0;
    let mut i: usize = 0;
    while i < c.len()
        invariant
            i <= c.len(),
            c@ == body@,
            run as nat == if line_bytes_before(body@, i as int) < robots_line_limit() {
                line_bytes_before(body@, i as int)
            } else {
                robots_line_limit()
            },
            forall|j: int|
                0 <= j < i && line_bytes_before(body@, j) >= robots_line_limit() ==> ((#[trigger] body@[j])
                    as u32) < 0x80,
        decreases c.len() - i,
    {
        let ch = c[i];
        let code = ch as u32;
        if run >= 16663 && code >= 0x80 {
            return false;
        }
        if ch == '\n' || ch == '\r' {
            run = 0;
        } else {
            let width: usize = if code < 0x80 {
                1
            } else if code < 0x800 {
                2
            } else if code < 0x10000 {
                3
            } else {
                4
            };
            run = if run + width >= 16663 {
                16663
            } else {
                run + width
            };
        }
        i = i + 1;
    }
    true
}

/// `CachingRobotsMatcher::parse`: records the rules of `body` after those
/// already given (its parse handler appends to its list of rules). The parser
/// panics on some bodies with a non-ASCII character past its line limit, so
/// only bodies it can read are admitted.
#[verifier::external_body]
fn robots_matcher_parse(m: &mut RobotsRules, body: &str)
    requires
        robots_body_parsable(body@),
    ensures
        parsed_robots_bodies(*final(m)) == parsed_robots_bodies(*old(m)).push(body@),
{
    m.matcher.parse(body)
}

/// `CachingRobotsMatcher::one_agent_allowed_by_robots`: replays the recorded
/// rules from a reset state for `user_agent` and `url`, so the answer depends
/// on the bodies given, the agent and the url only; with no rules recorded
/// nothing is disallowed.
#[verifier::external_body]
fn robots_matcher_allows(m: &mut RobotsRules, user_agent: &str, url: &str) -> (r: bool)
    ensures
        r == robots_txt_allows(parsed_robots_bodies(*old(m)), user_agent@, url@),
        parsed_robots_bodies(*old(m)).len() == 0 ==> r,
        parsed_robots_bodies(*final(m)) == parsed_robots_bodies(*old(m)),
{
    m.matcher.one_agent_allowed_by_robots(user_agent, url)
}

/// What fetching robots.txt gave.
pub enum RobotsFetchOutcome {
    /// The request failed before a response arrived.
    ConnectionFailed,
    /// A response with this status; the body is read only for status 200.
    Response { status: u16, body: Option<String> },
}

/// Answers whether robots.txt lets the crawler load a url.
pub struct RobotsService {
    pub robot_file_parser: RobotsRules,
    pub uri: Option<String>,
    pub user_agent: String,
    /// Set when robots.txt was refused (401 or 403): nothing may be loaded.
    pub disallow_all: bool,
    /// Set when robots.txt is missing (another 4xx): everything may be loaded.
    pub allow_all: bool,
    pub is_initialized: bool,
}

impl RobotsService {
    /// The robots.txt bodies the service has read, in order.
    pub open spec fn bodies(&self) -> Seq<Seq<char>> {
        parsed_robots_bodies(self.robot_file_parser)
    }

    /// Whether the service lets its agent load `url`: never when everything
    /// is disallowed, always when everything is allowed, else as robots.txt says.
    pub open spec fn allows(&self, url: Seq<char>) -> bool {
        !self.disallow_all && (self.allow_all || robots_txt_allows(
            self.bodies(),
            self.user_agent@,
            url,
        ))
    }

    /// A service for `user_agent` that has read nothing yet.
    pub fn new(user_agent: String) -> (r: RobotsService)
        ensures
            r.bodies() == Seq::<Seq<char>>::empty(),
            r.uri is None,
            r.user_agent == user_agent,
            !r.disallow_all,
            !r.allow_all,
            !r.is_initialized,
    {
        RobotsService {
            robot_file_parser: new_robots_matcher(),
            uri: None,
            user_agent,
            disallow_all: false,
            allow_all: false,
            is_initialized: false,
        }
    }

    /// Reads the rules of a robots.txt body that the parser can read.
    pub fn parse(&mut self, robots_body: &str)
        requires
            robots_body_parsable(robots_body@),
        ensures
            final(self).bodies() == old(self).bodies().push(robots_body@),
            final(self).uri == old(self).uri,
            final(self).user_agent == old(self).user_agent,
            final(self).disallow_all == old(self).disallow_all,
            final(self).allow_all == old(self).allow_all,
            final(self).is_initialized == old(self).is_initialized,
    {
        robots_matcher_parse(&mut self.robot_file_parser, robots_body);
    }

    /// Takes in what fetching robots.txt from `uri` gave: a refusal (401, 403)
    /// disallows everything, another client error (400..=499) allows
    /// everything, a 200 has its body read, any other status changes nothing.
    /// The service counts as initialised afterwards, unless the connection
    /// failed or the 200's body could not be read or is one the parser cannot
    /// read: then nothing is taken in.
    pub fn init(&mut self, uri: String, outcome: RobotsFetchOutcome)
        requires
            !old(self).is_initialized,
        ensures
            final(self).uri == Some(uri),
            final(self).user_agent == old(self).user_agent,
            !outcome_taken(outcome) ==> !final(self).is_initialized,
            !outcome_taken(outcome) ==> final(self).disallow_all == old(self).disallow_all,
            !outcome_taken(outcome) ==> final(self).allow_all == old(self).allow_all,
            !outcome_taken(outcome) ==> final(self).bodies() == old(self).bodies(),
            outcome_taken(outcome) ==> final(self).is_initialized,
            outcome_taken(outcome) ==> final(self).disallow_all == (old(self).disallow_all
                || outcome->status == 401 || outcome->status == 403),
            outcome_taken(outcome) ==> final(self).allow_all == (old(self).allow_all || (
            outcome->status != 401 && outcome->status != 403 && 400 <= outcome->status <= 499)),
            outcome_taken(outcome) && outcome->status != 200 ==> final(self).bodies() == old(
                self,
            ).bodies(),
            outcome_taken(outcome) && outcome->status == 200 ==> final(self).bodies() == old(
                self,
            ).bodies().push(outcome->body->0@),
    {
        self.uri = Some(uri);
        match outcome {
            RobotsFetchOutcome::ConnectionFailed => {},
            RobotsFetchOutcome::Response { status, body } => {
                if status == 401 || status == 403 {
                    self.disallow_all = true;
                } else if 400 <= status && status <= 499 {
                    self.allow_all = true;
                } else if status == 200 {
                    match body {
                        Some(b) => {
                            if !is_robots_body_parsable(b.as_str()) {
                                return;
                            }
                            self.parse(b.as_str())
                        },
                        None => {
                            return;
                        },
                    }
                }
                self.is_initialized = true;
            },
        }
    }
}

/// The service takes in what fetching robots.txt gave: a response, unless it
/// is a 200 whose body could not be read or is one the parser cannot read.
pub open spec fn outcome_taken(outcome: RobotsFetchOutcome) -> bool {
    match outcome {
        RobotsFetchOutcome::ConnectionFailed => false,
        RobotsFetchOutcome::Response { status, body } => !(status == 200 && match body {
            Some(b) => !robots_body_parsable(b@),
            None => true,
        }),
    }
}

/// A refused robots.txt disallows every url, even where everything was also
/// allowed.
pub proof fn law_disallow_all_precedes_allow_all(service: RobotsService, url: Seq<char>)
    requires
        service.disallow_all,
    ensures
        !service.allows(url),
{
}

/// A missing robots.txt allows every url, unless it was also refused.
pub proof fn law_allow_all_allows_every_url(service: RobotsService, url: Seq<char>)
    requires
        service.allow_all,
        !service.disallow_all,
    ensures
        service.allows(url),
{
}

/// Answers whether the crawler may load a url.
pub trait RobotsTxt {
    fn can_access(&mut self, item_uri: &str) -> bool;
}

impl RobotsTxt for RobotsService {
    /// Whether the service lets its agent load `item_uri`.
    fn can_access(&mut self, item_uri: &str) -> (r: bool)
        ensures
            r == old(self).allows(item_uri@),
            final(self).bodies() == old(self).bodies(),
            final(self).uri == old(self).uri,
            final(self).user_agent == old(self).user_agent,
            final(self).disallow_all == old(self).disallow_all,
            final(self).allow_all == old(self).allow_all,
            final(self).is_initialized == old(self).is_initialized,
    {
        if self.disallow_all {
            return false;
        }
        if self.allow_all {
            return true;
        }
        robots_matcher_allows(&mut self.robot_file_parser, self.user_agent.as_str(), item_uri)
    }
}

/// The address of a site's robots.txt: `<scheme>://<host>/robots.txt`.
pub fn robots_txt_url(scheme: &str, host: &str) -> (r: String)
    ensures
        r@ == scheme@ + "://"@ + host@ + "/robots.txt"@,
{
    string_of(
        &concat(
            &concat(&concat(&chars_of(scheme), &chars_of("://")), &chars_of(host)),
            &chars_of("/robots.txt"),
        ),
    )
}

} // verus!
