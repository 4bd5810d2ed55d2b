use credential_agent::parser::RepoInfo;
use credential_agent::server::conn_step;
use credential_agent::server::format_response;
use credential_agent::server::ConnAction;
use credential_agent::server::ConnEvent;
use credential_agent::server::ConnState;
use credential_agent::token::InstallationToken;
use credential_agent::token::ProviderError;
use credential_agent::token::TokenError;
use credential_agent::token::TokenQuery;
use credential_agent::token::TokenService;

fn lines(items: &[&str]) -> Vec<String> {
    items.iter().map(|s| s.to_string()).collect()
}

#[test]
fn format_response_is_exact() {
    let r = format_response("abc123");
    assert_eq!(r, "username=x-access-token\npassword=abc123\n");
}

#[test]
fn connection_runs_to_close_on_success() {
    // End to end at the logic level: a client asks for acme/widgets over
    // https, the provider resolves installation 42 and issues abc123 expiring
    // in an hour, and the connection answers exactly the two-line response.
    let now: i64 = 1_000_000;
    let (state, action) = conn_step(ConnState::Accepted, ConnEvent::Opened);
    assert!(matches!(state, ConnState::Parsing));
    assert!(matches!(action, ConnAction::ReadRequest));

    let request = lines(&["path=acme/widgets", "protocol=https", ""]);
    let (state, action) = conn_step(state, ConnEvent::RequestRead(request));
    assert!(matches!(&state, ConnState::Resolving(info)
        if info.organization == "acme" && info.name == "widgets"));
    let identity = match &action {
        ConnAction::ResolveToken(info) => {
            RepoInfo { organization: info.organization.clone(), name: info.name.clone() }
        }
        other => panic!("expected a token resolution, got {other:?}"),
    };

    let mut cache = TokenService::new();
    assert_eq!(cache.check_cached(&identity, now), TokenQuery::NeedInstallation);
    cache.record_resolution(
        &identity,
        42,
        InstallationToken { token: "abc123".to_string(), expires_at: now + 3600 },
    );
    let secret = match cache.check_cached(&identity, now) {
        TokenQuery::Ready(secret) => secret,
        other => panic!("expected a cached token, got {other:?}"),
    };

    let (state, action) = conn_step(state, ConnEvent::TokenResolved(secret));
    match &action {
        ConnAction::WriteResponse(response) => {
            assert_eq!(response, "username=x-access-token\npassword=abc123\n");
        }
        other => panic!("expected a response write, got {other:?}"),
    }
    assert!(matches!(&state, ConnState::Responding(r)
        if r == "username=x-access-token\npassword=abc123\n"));

    let (state, action) = conn_step(state, ConnEvent::ResponseWritten);
    assert!(matches!(state, ConnState::Closed));
    assert!(matches!(action, ConnAction::CloseConnection));
}

#[test]
fn bad_request_drops_connection_without_output() {
    // A request without a path and with a non-https protocol gets no response:
    // the connection fails straight from parsing.
    let (state, action) = conn_step(ConnState::Accepted, ConnEvent::Opened);
    assert!(matches!(action, ConnAction::ReadRequest));
    let (state, action) = conn_step(state, ConnEvent::RequestRead(lines(&["protocol=http", ""])));
    assert!(matches!(state, ConnState::Failed));
    assert!(matches!(action, ConnAction::DropConnection));
}

#[test]
fn denied_token_drops_connection() {
    let state = ConnState::Resolving(RepoInfo {
        organization: "acme".to_string(),
        name: "widgets".to_string(),
    });
    let denial = TokenError::TokenAcquisitionFailed(ProviderError::Unauthorized);
    let (state, action) = conn_step(state, ConnEvent::TokenDenied(denial));
    assert!(matches!(state, ConnState::Failed));
    assert!(matches!(action, ConnAction::DropConnection));
}

#[test]
fn unexpected_event_fails_the_connection() {
    let (state, action) = conn_step(ConnState::Accepted, ConnEvent::ResponseWritten);
    assert!(matches!(state, ConnState::Failed));
    assert!(matches!(action, ConnAction::DropConnection));
}
