//! The values that the remote cache's API exchanges, and the decisions of
//! its client that need no network: which failures are worth another try,
//! and what a request carries.

use vstd::prelude::*;
use vstd::string::StringExecFns;
use crate::text::{chars_start_with, to_chars};

verus! {

/// How often a request is tried again before its failure is final.
pub const RETRY_MAX: u32 = 2;

/// The HTTP status "too many requests".
pub const TOO_MANY_REQUESTS: u16 = 429;

/// A user whose single sign-on token the server has verified.
#[derive(Debug, Clone)]
pub struct VerifiedSsoUser {
    pub token: String,
    pub team_id: Option<String>,
}

/// What the server answers to a request to verify a token.
#[derive(Debug, Clone)]
pub struct VerificationResponse {
    pub token: String,
    pub team_id: Option<String>,
}

/// Whether remote caching is available to a team.
#[derive(Debug, Clone, Copy, PartialEq, Eq, Structural)]
pub enum CachingStatus {
    Disabled,
    Enabled,
    OverLimit,
    Paused,
}

/// What the server answers to a request for the caching status.
#[derive(Debug, Clone)]
pub struct CachingStatusResponse {
    pub status: CachingStatus,
}

/// A cached artifact as the server hands it out.
#[derive(Debug, Clone)]
pub struct ArtifactResponse {
    pub duration: u64,
    pub expected_tag: Option<String>,
    pub body: Vec<u8>,
}

/// What a member of a team may do.
#[derive(Debug, Clone, Copy, PartialEq, Eq, Structural)]
pub enum Role {
    Member,
    Owner,
    Viewer,
    Developer,
    Billing,
}

/// Membership is the relationship between the logged-in user and a
/// particular team.
#[derive(Debug, Clone)]
pub struct Membership {
    role: Role,
}

impl Membership {
    /// The role that the membership grants.
    pub closed spec fn spec_role(&self) -> Role {
        self.role
    }

    /// The membership that grants `role`.
    pub fn new(role: Role) -> (membership: Self)
        ensures
            membership.spec_role() == role,
    {
        Self { role }
    }

    /// The role that the membership grants.
    #[verifier::when_used_as_spec(spec_role)]
    pub fn role(&self) -> (role: Role)
        ensures
            role == self.spec_role(),
    {
        self.role
    }
}

/// A team, and what the logged-in user is to it.
#[derive(Debug, Clone)]
pub struct Team {
    pub id: String,
    pub slug: String,
    pub name: String,
    pub created_at: u64,
    /// When the team was created, in milliseconds since the Unix epoch.
    pub created: i64,
    pub membership: Membership,
}

impl Team {
    /// Whether the logged-in user owns the team.
    pub fn is_owner(&self) -> (owner: bool)
        ensures
            owner == (self.membership.role() == Role::Owner),
    {
        match self.membership.role() {
            Role::Owner => true,
            _ => false,
        }
    }
}

/// What the server answers to a request for the user's teams.
#[derive(Debug, Clone)]
pub struct TeamsResponse {
    pub teams: Vec<Team>,
}

/// A user of the remote cache.
#[derive(Debug, Clone)]
pub struct User {
    pub id: String,
    pub username: String,
    pub email: String,
    pub name: Option<String>,
    pub created_at: Option<u64>,
}

/// What the server answers to a request for the logged-in user.
#[derive(Debug, Clone)]
pub struct UserResponse {
    pub user: User,
}

impl VerifiedSsoUser {
    /// The verified user that a verification response names.
    pub fn from_response(response: VerificationResponse) -> (user: VerifiedSsoUser)
        ensures
            user.token == response.token,
            user.team_id == response.team_id,
    {
        VerifiedSsoUser { token: response.token, team_id: response.team_id }
    }
}

/// Whether a request that failed is tried again, given the HTTP status of
/// the failure, if it had one: on "too many requests", and on every server
/// error but "not implemented".
pub fn should_retry_request(status: Option<u16>) -> (retry: bool)
    ensures
        retry == match status {
            Some(code) => code == TOO_MANY_REQUESTS || (code >= 500 && code != 501),
            None => false,
        },
{
    match status {
        Some(code) => code == TOO_MANY_REQUESTS || (code >= 500 && code != 501),
        None => false,
    }
}

/// What the client does after a request has failed.
#[derive(Debug, Clone, Copy, PartialEq, Eq, Structural)]
pub enum RetryStep {
    /// Send the request once more.
    Retry,
    /// Report the failure.
    GiveUp,
}

/// The step after the failure number `failures` of one request, counted
/// from 1, given the HTTP status of that failure: the request is sent again
/// while the failure is worth another try and no more than `RETRY_MAX`
/// attempts have failed.
pub fn after_failure(failures: u32, status: Option<u16>) -> (step: RetryStep)
    ensures
        step == if failures < RETRY_MAX && (match status {
            Some(code) => code == TOO_MANY_REQUESTS || (code >= 500 && code != 501),
            None => false,
        }) {
            RetryStep::Retry
        } else {
            RetryStep::GiveUp
        },
{
    if failures < RETRY_MAX && should_retry_request(status) {
        RetryStep::Retry
    } else {
        RetryStep::GiveUp
    }
}

/// The address of `endpoint` on the server at `base_url`.
pub fn make_url(base_url: &str, endpoint: &str) -> (url: String)
    ensures
        url@ == base_url@ + endpoint@,
{
    let mut url = base_url.to_owned();
    url.append(endpoint);
    url
}

/// The value of the `Authorization` header for `token`.
pub fn bearer(token: &str) -> (value: String)
    ensures
        value@ == "Bearer "@ + token@,
{
    let mut value = "Bearer ".to_owned();
    value.append(token);
    value
}

/// The name by which the client introduces itself: its version, the
/// version of the compiler that built it, and the platform it runs on.
pub fn user_agent(version: &str, compiler: &str, os: &str, arch: &str) -> (agent: String)
    ensures
        agent@ == "turbo "@ + version@ + " "@ + compiler@ + " "@ + os@ + " "@ + arch@,
{
    let mut agent = "turbo ".to_owned();
    agent.append(version);
    agent.append(" ");
    agent.append(compiler);
    agent.append(" ");
    agent.append(os);
    agent.append(" ");
    agent.append(arch);
    agent
}

/// Whether `team_id` has the form of a team's identifier.
pub open spec fn is_team_id(team_id: Seq<char>) -> bool {
    "team_"@.is_prefix_of(team_id)
}

/// The query of a caching-status request, as pairs of key and value: the
/// team's slug when one is given, then the team's identifier when it has
/// the form of one.
pub open spec fn caching_status_query_of(team_id: Seq<char>, team_slug: Option<Seq<char>>) -> Seq<
    (Seq<char>, Seq<char>),
> {
    let slug = match team_slug {
        Some(slug) => seq![("teamSlug"@, slug)],
        None => Seq::empty(),
    };
    let id = if is_team_id(team_id) {
        seq![("teamId"@, team_id)]
    } else {
        Seq::empty()
    };
    slug + id
}

/// The texts of the pairs of a query.
pub open spec fn query_view(query: Seq<(String, String)>) -> Seq<(Seq<char>, Seq<char>)> {
    Seq::new(query.len(), |i: int| (query[i].0@, query[i].1@))
}

/// The query of a caching-status request for the team `team_id`, known
/// by the slug `team_slug` if one is given.
pub fn caching_status_query(team_id: &str, team_slug: Option<&str>) -> (query: Vec<(String, String)>)
    ensures
        query_view(query@) == caching_status_query_of(
            team_id@,
            match team_slug {
                Some(slug) => Some(slug@),
                None => None,
            },
        ),
{
    let mut query: Vec<(String, String)> = Vec::new();
    if let Some(slug) = team_slug {
        query.push(("teamSlug".to_owned(), slug.to_owned()));
    }
    let id_chars = to_chars(team_id);
    let prefix = to_chars("team_");
    if chars_start_with(&id_chars, &prefix) {
        query.push(("teamId".to_owned(), team_id.to_owned()));
    }
    assert(query_view(query@) =~= caching_status_query_of(
        team_id@,
        match team_slug {
            Some(slug) => Some(slug@),
            None => None,
        },
    ));
    query
}

} // verus!
