use credential_agent::parser::RepoInfo;
use credential_agent::token::access_token_url;
use credential_agent::token::installation_url;
use credential_agent::token::jwt_claims;
use credential_agent::token::token_is_fresh;
use credential_agent::token::InstallationToken;
use credential_agent::token::RepositoryInstallation;
use credential_agent::token::TokenQuery;
use credential_agent::token::TokenService;
use credential_agent::token::SKEW_MARGIN_SECS;

fn repo(org: &str, name: &str) -> RepoInfo {
    RepoInfo { organization: org.to_string(), name: name.to_string() }
}

fn token(secret: &str, expires_at: i64) -> InstallationToken {
    InstallationToken { token: secret.to_string(), expires_at }
}

#[test]
fn unknown_repository_needs_installation() {
    let cache = TokenService::new();
    let q = cache.check_cached(&repo("acme", "widgets"), 1000);
    assert_eq!(q, TokenQuery::NeedInstallation);
}

#[test]
fn recorded_fresh_token_is_ready() {
    let mut cache = TokenService::new();
    let identity = repo("acme", "widgets");
    cache.record_resolution(&identity, 42, token("abc123", 5000));
    let q = cache.check_cached(&identity, 1000);
    assert_eq!(q, TokenQuery::Ready("abc123".to_string()));
}

#[test]
fn two_lookups_in_validity_window_reuse_the_token() {
    // Idempotence: once a token is recorded, lookups before expiry less the
    // skew margin keep answering Ready, so no further issuance is asked for.
    let mut cache = TokenService::new();
    let identity = repo("acme", "widgets");
    cache.record_resolution(&identity, 42, token("abc123", 5000));
    assert_eq!(cache.check_cached(&identity, 1000), TokenQuery::Ready("abc123".to_string()));
    assert_eq!(cache.check_cached(&identity, 2000), TokenQuery::Ready("abc123".to_string()));
}

#[test]
fn stale_token_needs_reissue_and_cache_reflects_refresh() {
    let mut cache = TokenService::new();
    let identity = repo("acme", "widgets");
    cache.record_resolution(&identity, 42, token("old", 5000));
    // 5000 - 300 has passed: the token may expire mid-flight.
    let q = cache.check_cached(&identity, 4700);
    assert_eq!(q, TokenQuery::NeedToken(42));
    cache.record_resolution(&identity, 42, token("new", 9000));
    assert_eq!(cache.check_cached(&identity, 4700), TokenQuery::Ready("new".to_string()));
}

#[test]
fn freshness_boundary_is_strict() {
    assert!(token_is_fresh(5000, 5000 - SKEW_MARGIN_SECS - 1));
    assert!(!token_is_fresh(5000, 5000 - SKEW_MARGIN_SECS));
    assert!(!token_is_fresh(5000, 5000));
}

#[test]
fn racing_resolutions_keep_the_last_token() {
    // Two lookups for the same unseen identity may both resolve remotely; the
    // cache keeps whichever result lands last, and hands exactly it out.
    let mut cache = TokenService::new();
    let identity = repo("acme", "widgets");
    cache.record_resolution(&identity, 42, token("first", 5000));
    cache.record_resolution(&identity, 42, token("second", 5000));
    assert_eq!(cache.check_cached(&identity, 1000), TokenQuery::Ready("second".to_string()));
}

#[test]
fn identities_are_cached_separately() {
    let mut cache = TokenService::new();
    cache.record_resolution(&repo("acme", "widgets"), 42, token("a", 5000));
    cache.record_resolution(&repo("acme", "gears"), 7, token("b", 5000));
    assert_eq!(cache.check_cached(&repo("acme", "widgets"), 0), TokenQuery::Ready("a".to_string()));
    assert_eq!(cache.check_cached(&repo("acme", "gears"), 0), TokenQuery::Ready("b".to_string()));
    assert_eq!(cache.check_cached(&repo("other", "widgets"), 0), TokenQuery::NeedInstallation);
}

#[test]
fn known_installation_without_token_needs_token() {
    let mut cache = TokenService::new();
    let identity = repo("acme", "widgets");
    cache.record_resolution(&identity, 42, token("abc", 5000));
    // A different identity resolving to the same installation reuses its
    // token; one resolving to another installation does not.
    let sibling = repo("acme", "gears");
    assert_eq!(cache.check_cached(&sibling, 1000), TokenQuery::NeedInstallation);
    assert_eq!(cache.lookup_installation(&identity), Some(42));
    assert_eq!(cache.lookup_installation(&sibling), None);
}

#[test]
fn installation_url_is_exact() {
    let url = installation_url("https://api.github.com", &repo("acme", "widgets"));
    assert_eq!(url, "https://api.github.com/repos/acme/widgets/installation");
}

#[test]
fn access_token_url_is_exact() {
    let url = access_token_url("https://api.github.com", 42);
    assert_eq!(url, "https://api.github.com/app/installations/42/access_tokens");
}

#[test]
fn access_token_url_formats_large_ids() {
    let url = access_token_url("http://localhost:8080", 1234567890123);
    assert_eq!(url, "http://localhost:8080/app/installations/1234567890123/access_tokens");
}

#[test]
fn access_token_url_formats_zero() {
    let url = access_token_url("u", 0);
    assert_eq!(url, "u/app/installations/0/access_tokens");
}

#[test]
fn jwt_claims_backdate_and_expiry() {
    let claims = jwt_claims(7, 10_000);
    assert_eq!(claims.iat, 9_940);
    assert_eq!(claims.exp, 10_540);
    assert_eq!(claims.iss, "7");
}

#[test]
fn repository_installation_holds_its_id() {
    let installation = RepositoryInstallation { id: 42 };
    assert_eq!(installation.id, 42);
}
