//! The token cache: repository identity to installation, installation to
//! token-with-expiry, and the decision whether a cached token may be reused.

use std::collections::HashMap;

use vstd::prelude::*;
use vstd::string::StringExecFns;

use crate::parser::RepoInfo;
use crate::strutil::dec_string;
use crate::strutil::u64_to_string;

verus! {

broadcast use vstd::std_specs::hash::group_hash_axioms;

/// Number of seconds a token must still have before its expiry to be handed
/// out: a safety buffer against clock drift and in-flight request latency.
pub const SKEW_MARGIN_SECS: i64 = 300;

/// A scoped access token for one installation, with its expiry as seconds
/// since the Unix epoch.
#[derive(Debug)]
pub struct InstallationToken {
    pub token: String,
    pub expires_at: i64,
}

/// The platform-side binding between the application and one
/// organization/repository scope.
#[derive(Clone, Copy, Debug, PartialEq, Eq, Structural)]
pub struct RepositoryInstallation {
    pub id: u64,
}

impl Clone for InstallationToken {
    fn clone(&self) -> (r: InstallationToken)
        ensures
            r.token@ == self.token@,
            r.expires_at == self.expires_at,
    {
        InstallationToken { token: self.token.clone(), expires_at: self.expires_at }
    }
}

/// A token is usable at time `now` only while `now + SkewMargin < expires_at`.
pub open spec fn is_fresh(expires_at: int, now: int) -> bool {
    now + SKEW_MARGIN_SECS < expires_at
}

/// Whether a cached token for `expires_at` may still be handed out at `now`.
pub fn token_is_fresh(expires_at: i64, now: i64) -> (r: bool)
    ensures
        r == is_fresh(expires_at as int, now as int),
{
    (now as i128) + (SKEW_MARGIN_SECS as i128) < (expires_at as i128)
}

/// The cache key an installation entry stands under: the views of the
/// repository's organization and name.
pub open spec fn entry_key(e: (RepoInfo, u64)) -> (Seq<char>, Seq<char>) {
    (e.0.organization@, e.0.name@)
}

/// The mathematical map that a sequence of installation entries stands for;
/// a later entry overrides an earlier one with the same key.
pub open spec fn installs_view(entries: Seq<(RepoInfo, u64)>) -> Map<(Seq<char>, Seq<char>), u64>
    decreases entries.len(),
{
    if entries.len() == 0 {
        Map::empty()
    } else {
        installs_view(entries.drop_last()).insert(entry_key(entries.last()), entries.last().1)
    }
}

/// No two entries stand under the same key.
pub open spec fn unique_keys(entries: Seq<(RepoInfo, u64)>) -> bool {
    forall|p: int, q: int|
        0 <= p < q < entries.len() ==> entry_key(entries[p]) != entry_key(entries[q])
}

/// The entry at a position of a key-unique sequence decides what the map view
/// holds under that entry's key.
proof fn lemma_installs_view_at(entries: Seq<(RepoInfo, u64)>, p: int)
    requires
        unique_keys(entries),
        0 <= p < entries.len(),
    ensures
        installs_view(entries).contains_key(entry_key(entries[p])),
        installs_view(entries)[entry_key(entries[p])] == entries[p].1,
    decreases entries.len(),
{
    if p == entries.len() - 1 {
    } else {
        assert(entries.drop_last()[p] == entries[p]);
        lemma_installs_view_at(entries.drop_last(), p);
        assert(entry_key(entries[p]) != entry_key(entries.last()));
    }
}

/// A key under which no entry stands is absent from the map view.
proof fn lemma_installs_view_absent(entries: Seq<(RepoInfo, u64)>, k: (Seq<char>, Seq<char>))
    requires
        forall|q: int| 0 <= q < entries.len() ==> entry_key(entries[q]) != k,
    ensures
        !installs_view(entries).contains_key(k),
    decreases entries.len(),
{
    if entries.len() > 0 {
        assert(forall|q: int|
            0 <= q < entries.drop_last().len() ==> entries.drop_last()[q] == entries[q]);
        lemma_installs_view_absent(entries.drop_last(), k);
    }
}

/// Overwriting the entry that stands under a key changes the map view as an
/// insert under that key does.
proof fn lemma_installs_view_update(entries: Seq<(RepoInfo, u64)>, p: int, e: (RepoInfo, u64))
    requires
        unique_keys(entries),
        0 <= p < entries.len(),
        entry_key(entries[p]) == entry_key(e),
    ensures
        installs_view(entries.update(p, e)) == installs_view(entries).insert(entry_key(e), e.1),
        unique_keys(entries.update(p, e)),
    decreases entries.len(),
{
    let updated = entries.update(p, e);
    assert(unique_keys(updated)) by {
        assert(forall|a: int, b: int|
            0 <= a < b < updated.len() ==> entry_key(updated[a]) != entry_key(updated[b])) by {
            assert(forall|a: int|
                0 <= a < updated.len() && a != p ==> updated[a] == entries[a]);
        }
    }
    if p == entries.len() - 1 {
        assert(updated.drop_last() =~= entries.drop_last());
        assert(installs_view(updated) == installs_view(entries.drop_last()).insert(
            entry_key(e),
            e.1,
        ));
        assert(installs_view(entries.drop_last()).insert(entry_key(e), e.1) =~= installs_view(
            entries,
        ).insert(entry_key(e), e.1));
    } else {
        assert(updated.drop_last() =~= entries.drop_last().update(p, e));
        assert(entries.drop_last()[p] == entries[p]);
        lemma_installs_view_update(entries.drop_last(), p, e);
        assert(updated.last() == entries.last());
        assert(entry_key(entries.last()) != entry_key(e));
        assert(installs_view(entries.drop_last()).insert(entry_key(e), e.1).insert(
            entry_key(entries.last()),
            entries.last().1,
        ) =~= installs_view(entries.drop_last()).insert(
            entry_key(entries.last()),
            entries.last().1,
        ).insert(entry_key(e), e.1));
    }
}

/// What a token lookup decided: hand out a cached secret, resolve the
/// repository's installation first, or issue a new token for a known
/// installation.
#[derive(Debug, PartialEq, Eq)]
pub enum TokenQuery {
    /// A cached token is fresh; its secret can be returned without any remote
    /// call.
    Ready(String),
    /// The repository's installation is unknown; it must be resolved remotely,
    /// and a token issued for it.
    NeedInstallation,
    /// The installation is known but no fresh token is cached; a token must be
    /// issued remotely for this installation.
    NeedToken(u64),
}

/// What a cache lookup for the identity `(org, name)` at time `now` is allowed
/// to decide: `Ready` exactly when a fresh token is cached for the identity's
/// installation, and then only with that token's secret; `NeedToken` exactly
/// for the identity's installation when its token is missing or stale;
/// `NeedInstallation` exactly when the identity is unknown.
pub open spec fn query_matches(
    s: TokenService,
    org: Seq<char>,
    name: Seq<char>,
    now: int,
    r: TokenQuery,
) -> bool {
    match r {
        TokenQuery::Ready(secret) => {
            &&& s.installations_map().contains_key((org, name))
            &&& s.tokens_map().contains_key(s.installations_map()[(org, name)])
            &&& is_fresh(s.tokens_map()[s.installations_map()[(org, name)]].expires_at as int, now)
            &&& secret@ == s.tokens_map()[s.installations_map()[(org, name)]].token@
        },
        TokenQuery::NeedToken(id) => {
            &&& s.installations_map().contains_key((org, name))
            &&& s.installations_map()[(org, name)] == id
            &&& !(s.tokens_map().contains_key(id) && is_fresh(
                s.tokens_map()[id].expires_at as int,
                now,
            ))
        },
        TokenQuery::NeedInstallation => !s.installations_map().contains_key((org, name)),
    }
}

/// The token cache: the map from repository identity to installation and the
/// map from installation to its most recently issued token.
///
/// The remote exchanges themselves happen outside this library; the cache
/// decides through [`TokenService::check_cached`] whether one is needed, and
/// [`TokenService::record_resolution`] stores what an exchange returned.
pub struct TokenService {
    installations: Vec<(RepoInfo, u64)>,
    tokens: HashMap<u64, InstallationToken>,
}

impl TokenService {
    /// The map from repository identity (organization and name views) to
    /// installation identifier.
    pub closed spec fn installations_map(&self) -> Map<(Seq<char>, Seq<char>), u64> {
        installs_view(self.installations@)
    }

    /// The map from installation identifier to its cached token.
    pub closed spec fn tokens_map(&self) -> Map<u64, InstallationToken> {
        self.tokens@
    }

    /// Internal consistency: no repository identity is recorded twice.
    pub closed spec fn wf(&self) -> bool {
        unique_keys(self.installations@)
    }

    /// An empty cache: nothing resolved, nothing issued.
    pub fn new() -> (r: TokenService)
        ensures
            r.wf(),
            r.installations_map() == Map::<(Seq<char>, Seq<char>), u64>::empty(),
            r.tokens_map() == Map::<u64, InstallationToken>::empty(),
    {
        TokenService { installations: Vec::new(), tokens: HashMap::new() }
    }

    /// Position of the entry recorded for `repo`, if any.
    fn find_installation_index(entries: &Vec<(RepoInfo, u64)>, repo: &RepoInfo) -> (r: Option<
        usize,
    >)
        ensures
            match r {
                Some(p) => p < entries@.len() && entry_key(entries@[p as int]) == (
                    repo.organization@,
                    repo.name@,
                ),
                None => forall|q: int|
                    0 <= q < entries@.len() ==> entry_key(entries@[q]) != (
                        repo.organization@,
                        repo.name@,
                    ),
            },
    {
        let n = entries.len();
        let mut p: usize = 0;
        while p < n
            invariant
                p <= n,
                n == entries@.len(),
                forall|q: int|
                    0 <= q < p ==> entry_key(entries@[q]) != (repo.organization@, repo.name@),
            decreases n - p,
        {
            if entries[p].0 == *repo {
                return Some(p);
            }
            p = p + 1;
        }
        None
    }

    /// The installation recorded for `repo`, if any (step one of a lookup).
    pub fn lookup_installation(&self, repo: &RepoInfo) -> (r: Option<u64>)
        requires
            self.wf(),
        ensures
            match r {
                Some(id) => self.installations_map().contains_key((repo.organization@, repo.name@))
                    && self.installations_map()[(repo.organization@, repo.name@)] == id,
                None => !self.installations_map().contains_key((repo.organization@, repo.name@)),
            },
    {
        match Self::find_installation_index(&self.installations, repo) {
            Some(p) => {
                proof {
                    lemma_installs_view_at(self.installations@, p as int);
                }
                Some(self.installations[p].1)
            },
            None => {
                proof {
                    lemma_installs_view_absent(
                        self.installations@,
                        (repo.organization@, repo.name@),
                    );
                }
                None
            },
        }
    }

    /// Records that `repo` resolved to installation `id`, overwriting any
    /// earlier record for the same identity.
    fn set_installation(&mut self, repo: &RepoInfo, id: u64)
        requires
            old(self).wf(),
        ensures
            final(self).wf(),
            final(self).installations_map() == old(self).installations_map().insert(
                (repo.organization@, repo.name@),
                id,
            ),
            final(self).tokens_map() == old(self).tokens_map(),
    {
        let entry = (repo.clone(), id);
        match Self::find_installation_index(&self.installations, repo) {
            Some(p) => {
                proof {
                    lemma_installs_view_update(self.installations@, p as int, entry);
                }
                self.installations[p] = entry;
            },
            None => {
                proof {
                    let pushed = self.installations@.push(entry);
                    assert(pushed.drop_last() =~= self.installations@);
                    assert(forall|a: int, b: int|
                        0 <= a < b < pushed.len() ==> entry_key(pushed[a]) != entry_key(
                            pushed[b],
                        )) by {
                        assert(forall|a: int|
                            0 <= a < self.installations@.len() ==> pushed[a]
                                == self.installations@[a]);
                    }
                }
                self.installations.push(entry);
            },
        }
    }

    /// Decides, at time `now`, what a request for `repo` needs: a cached
    /// secret, an installation resolution, or a token issuance. Makes no
    /// remote call and changes nothing.
    pub fn check_cached(&self, repo: &RepoInfo, now: i64) -> (r: TokenQuery)
        requires
            self.wf(),
        ensures
            query_matches(*self, repo.organization@, repo.name@, now as int, r),
    {
        match self.lookup_installation(repo) {
            None => TokenQuery::NeedInstallation,
            Some(id) => match self.tokens.get(&id) {
                None => TokenQuery::NeedToken(id),
                Some(cached) => {
                    if token_is_fresh(cached.expires_at, now) {
                        TokenQuery::Ready(cached.token.clone())
                    } else {
                        TokenQuery::NeedToken(id)
                    }
                },
            },
        }
    }

    /// Records a successful remote resolution: `repo` resolved to `id` and a
    /// token was issued for `id`. Both maps are overwritten at their key, as
    /// on every successful resolution; nothing else changes. On a failed
    /// exchange nothing is recorded.
    pub fn record_resolution(&mut self, repo: &RepoInfo, id: u64, token: InstallationToken)
        requires
            old(self).wf(),
        ensures
            final(self).wf(),
            final(self).installations_map() == old(self).installations_map().insert(
                (repo.organization@, repo.name@),
                id,
            ),
            final(self).tokens_map() == old(self).tokens_map().insert(id, token),
    {
        self.set_installation(repo, id);
        self.tokens.insert(id, token);
    }
}

/// Why the identity provider could not complete a remote exchange.
#[derive(Clone, Copy, Debug, PartialEq, Eq, Structural)]
pub enum ProviderError {
    /// The platform knows no installation for the repository.
    NotFound,
    /// The exchange could not be carried out or returned nothing readable.
    TransportError,
    /// The platform rejected the application's credentials.
    Unauthorized,
}

/// A failure of token acquisition, surfaced to the requesting connection; the
/// cache is left unchanged by it.
#[derive(Clone, Copy, Debug, PartialEq, Eq, Structural)]
pub enum TokenError {
    TokenAcquisitionFailed(ProviderError),
}

/// The platform endpoint that resolves a repository to its installation.
pub fn installation_url(github_url: &str, repo: &RepoInfo) -> (r: String)
    ensures
        r@ == github_url@ + "/repos/"@ + repo.organization@ + "/"@ + repo.name@
            + "/installation"@,
{
    let mut s = github_url.to_owned();
    s.append("/repos/");
    s.append(repo.organization.as_str());
    s.append("/");
    s.append(repo.name.as_str());
    s.append("/installation");
    proof {
        assert(s@ =~= github_url@ + "/repos/"@ + repo.organization@ + "/"@ + repo.name@
            + "/installation"@);
    }
    s
}

/// The platform endpoint that issues an access token for an installation.
pub fn access_token_url(github_url: &str, installation_id: u64) -> (r: String)
    ensures
        r@ == github_url@ + "/app/installations/"@ + dec_string(installation_id as nat)
            + "/access_tokens"@,
{
    let mut s = github_url.to_owned();
    s.append("/app/installations/");
    let id = u64_to_string(installation_id);
    s.append(id.as_str());
    s.append("/access_tokens");
    proof {
        assert(s@ =~= github_url@ + "/app/installations/"@ + dec_string(installation_id as nat)
            + "/access_tokens"@);
    }
    s
}

/// The claims of the bearer JWT the application signs when talking to the
/// platform: issued-at backdated a minute against clock drift, expiry nine
/// minutes ahead, issuer the application identifier in decimal.
pub struct JwtClaims {
    pub iat: u64,
    pub exp: u64,
    pub iss: String,
}

/// Computes the JWT claims for the application at time `now` (seconds since
/// the Unix epoch).
pub fn jwt_claims(app_id: u64, now: u64) -> (r: JwtClaims)
    requires
        60 <= now,
        now + 9 * 60 <= u64::MAX,
    ensures
        r.iat == now - 60,
        r.exp == now + 9 * 60,
        r.iss@ == dec_string(app_id as nat),
{
    JwtClaims { iat: now - 60, exp: now + 9 * 60, iss: u64_to_string(app_id) }
}

/// Law: a recorded token is reused, not re-issued, for as long as it stays
/// fresh. After a resolution of `repo` to `id` with `token` is recorded
/// (taking the cache from `pre` to `post`), any cache lookup for `repo` at a
/// time at which `token` is still fresh must answer `Ready` with exactly
/// `token`'s secret — so no further remote issuance is asked for.
pub proof fn lemma_fresh_token_reused(
    pre: TokenService,
    post: TokenService,
    repo: RepoInfo,
    id: u64,
    token: InstallationToken,
    now: int,
    r: TokenQuery,
)
    requires
        post.installations_map() == pre.installations_map().insert(
            (repo.organization@, repo.name@),
            id,
        ),
        post.tokens_map() == pre.tokens_map().insert(id, token),
        is_fresh(token.expires_at as int, now),
        query_matches(post, repo.organization@, repo.name@, now, r),
    ensures
        r matches TokenQuery::Ready(secret) && secret@ == token.token@,
{
}

/// Law: once a recorded token's expiry less the skew margin has passed, the
/// next cache lookup for its repository demands exactly one new issuance for
/// the recorded installation, and recording the newly issued token is what the
/// cache afterwards reflects under that installation.
pub proof fn lemma_stale_token_refreshed(
    pre: TokenService,
    post: TokenService,
    refreshed: TokenService,
    repo: RepoInfo,
    id: u64,
    token: InstallationToken,
    fresh_token: InstallationToken,
    now: int,
    r: TokenQuery,
)
    requires
        post.installations_map() == pre.installations_map().insert(
            (repo.organization@, repo.name@),
            id,
        ),
        post.tokens_map() == pre.tokens_map().insert(id, token),
        !is_fresh(token.expires_at as int, now),
        query_matches(post, repo.organization@, repo.name@, now, r),
        refreshed.installations_map() == post.installations_map().insert(
            (repo.organization@, repo.name@),
            id,
        ),
        refreshed.tokens_map() == post.tokens_map().insert(id, fresh_token),
    ensures
        r matches TokenQuery::NeedToken(need) && need == id,
        refreshed.tokens_map().contains_key(id),
        refreshed.tokens_map()[id] == fresh_token,
{
}

/// Law: when two resolutions for the same identity race, either may be
/// recorded last, and whichever is decides the cache alone: after recording
/// `(id1, t1)` and then `(id2, t2)` for `repo`, a lookup at a time at which
/// `t2` is fresh answers `Ready` with exactly `t2`'s secret, whatever the
/// overwritten resolution held.
pub proof fn lemma_racing_resolutions_last_wins(
    s0: TokenService,
    s1: TokenService,
    s2: TokenService,
    repo: RepoInfo,
    id1: u64,
    id2: u64,
    t1: InstallationToken,
    t2: InstallationToken,
    now: int,
    r: TokenQuery,
)
    requires
        s1.installations_map() == s0.installations_map().insert(
            (repo.organization@, repo.name@),
            id1,
        ),
        s1.tokens_map() == s0.tokens_map().insert(id1, t1),
        s2.installations_map() == s1.installations_map().insert(
            (repo.organization@, repo.name@),
            id2,
        ),
        s2.tokens_map() == s1.tokens_map().insert(id2, t2),
        is_fresh(t2.expires_at as int, now),
        query_matches(s2, repo.organization@, repo.name@, now, r),
    ensures
        r matches TokenQuery::Ready(secret) && secret@ == t2.token@,
{
}

} // verus!
