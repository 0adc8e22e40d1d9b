use squads_cli::auth::AuthError;
use squads_cli::manager::{
    is_scope_name, Stage, TokenAction, TokenEvent, TokenManager, SCOPE_GRAPH, SCOPE_SPACES,
};
use squads_cli::token::{AccessToken, TokenStore, REFRESH_TOKEN_KEY, SKYPE_TOKEN_KEY};

const NOW: u64 = 1_700_000_000;

fn token(value: &str, expires: u64) -> AccessToken {
    AccessToken { value: value.to_string(), expires }
}

fn is_network(a: &TokenAction) -> bool {
    matches!(a, TokenAction::Renew(_) | TokenAction::Exchange(_, _) | TokenAction::Derive(_))
}

#[test]
fn empty_store_is_not_authenticated() {
    let manager = TokenManager::new(TokenStore::new());
    assert!(!manager.is_authenticated());
    let (req, action) = manager.get_token("graph".to_string(), NOW);
    assert!(!is_network(&action));
    match action {
        TokenAction::Finish(Err(e)) => assert_eq!(e, AuthError::NotAuthenticated),
        other => panic!("unexpected {:?}", other),
    }
    assert!(matches!(req.stage, Stage::Done(Err(AuthError::NotAuthenticated))));
    assert!(manager.store().is_empty());
}

#[test]
fn cached_token_served_without_network() {
    let mut store = TokenStore::new();
    store.insert(REFRESH_TOKEN_KEY.to_string(), token("refresh", NOW + 100));
    store.insert(SCOPE_GRAPH.to_string(), token("graph-token", NOW + 50));
    let manager = TokenManager::new(store);
    let (_, action) = manager.get_token(SCOPE_GRAPH.to_string(), NOW);
    match action {
        TokenAction::Finish(Ok(t)) => {
            assert_eq!(t.value, "graph-token");
            assert_eq!(t.expires, NOW + 50);
        }
        other => panic!("unexpected {:?}", other),
    }
}

#[test]
fn token_expiring_now_is_still_served() {
    let mut store = TokenStore::new();
    store.insert(REFRESH_TOKEN_KEY.to_string(), token("refresh", NOW));
    store.insert("graph".to_string(), token("g", NOW));
    let manager = TokenManager::new(store);
    let (_, action) = manager.get_token("graph".to_string(), NOW);
    assert!(matches!(action, TokenAction::Finish(Ok(ref t)) if t.value == "g"));
}

#[test]
fn expired_refresh_renews_then_exchanges() {
    let mut store = TokenStore::new();
    store.insert(REFRESH_TOKEN_KEY.to_string(), token("old-refresh", NOW - 10));
    let mut manager = TokenManager::new(store);
    let mut calls = 0;
    let (mut req, action) = manager.get_token("graph".to_string(), NOW);
    match &action {
        TokenAction::Renew(r) => assert_eq!(r.value, "old-refresh"),
        other => panic!("unexpected {:?}", other),
    }
    calls += 1;
    let action = manager.advance(&mut req, TokenEvent::Issued(Ok(token("new-refresh", NOW + 3600))), NOW);
    assert!(matches!(action, TokenAction::Flush));
    let action = manager.advance(&mut req, TokenEvent::Flushed(Ok(())), NOW);
    match &action {
        TokenAction::Exchange(r, scope) => {
            assert_eq!(r.value, "new-refresh");
            assert_eq!(scope, "graph");
        }
        other => panic!("unexpected {:?}", other),
    }
    calls += 1;
    let action = manager.advance(&mut req, TokenEvent::Issued(Ok(token("graph-token", NOW + 3600))), NOW);
    assert!(matches!(action, TokenAction::Flush));
    let action = manager.advance(&mut req, TokenEvent::Flushed(Ok(())), NOW);
    assert!(!is_network(&action));
    match action {
        TokenAction::Finish(Ok(t)) => assert_eq!(t.value, "graph-token"),
        other => panic!("unexpected {:?}", other),
    }
    assert_eq!(calls, 2);
    let store = manager.store();
    assert!(store.refresh_token().unwrap().expires > NOW);
    assert_eq!(store.refresh_token().unwrap().value, "new-refresh");
    assert!(store.get("graph").unwrap().expires > NOW);
}

#[test]
fn failed_exchange_leaves_store_unchanged() {
    let mut store = TokenStore::new();
    store.insert(REFRESH_TOKEN_KEY.to_string(), token("refresh", NOW + 100));
    let mut manager = TokenManager::new(store);
    let (mut req, action) = manager.get_token("graph".to_string(), NOW);
    assert!(matches!(action, TokenAction::Exchange(_, _)));
    let err = AuthError::TokenExchangeFailed("503".to_string());
    let action = manager.advance(&mut req, TokenEvent::Issued(Err(err.clone())), NOW);
    match action {
        TokenAction::Finish(Err(e)) => assert_eq!(e, err),
        other => panic!("unexpected {:?}", other),
    }
    assert!(manager.store().get("graph").is_none());
    assert_eq!(manager.store().to_pairs().len(), 1);
}

#[test]
fn failed_renewal_leaves_store_unchanged() {
    let mut store = TokenStore::new();
    store.insert(REFRESH_TOKEN_KEY.to_string(), token("refresh", NOW - 1));
    let mut manager = TokenManager::new(store);
    let (mut req, _) = manager.get_token("graph".to_string(), NOW);
    let action = manager.advance(
        &mut req,
        TokenEvent::Issued(Err(AuthError::MalformedResponse("{}".to_string()))),
        NOW,
    );
    assert!(matches!(action, TokenAction::Finish(Err(AuthError::MalformedResponse(_)))));
    assert_eq!(manager.store().refresh_token().unwrap().value, "refresh");
}

#[test]
fn cache_write_failure_surfaces() {
    let mut store = TokenStore::new();
    store.insert(REFRESH_TOKEN_KEY.to_string(), token("refresh", NOW + 100));
    let mut manager = TokenManager::new(store);
    let (mut req, _) = manager.get_token("graph".to_string(), NOW);
    manager.advance(&mut req, TokenEvent::Issued(Ok(token("g", NOW + 10))), NOW);
    let action = manager.advance(
        &mut req,
        TokenEvent::Flushed(Err(AuthError::CacheIo("disk full".to_string()))),
        NOW,
    );
    assert!(matches!(action, TokenAction::Finish(Err(AuthError::CacheIo(_)))));
}

#[test]
fn unexpected_event_repeats_pending_action() {
    let mut store = TokenStore::new();
    store.insert(REFRESH_TOKEN_KEY.to_string(), token("refresh", NOW - 5));
    let mut manager = TokenManager::new(store);
    let (mut req, _) = manager.get_token("graph".to_string(), NOW);
    let action = manager.advance(&mut req, TokenEvent::Flushed(Ok(())), NOW);
    assert!(matches!(action, TokenAction::Renew(ref r) if r.value == "refresh"));
}

#[test]
fn skype_token_derived_once_then_cached() {
    let mut store = TokenStore::new();
    store.insert(REFRESH_TOKEN_KEY.to_string(), token("refresh", NOW + 1000));
    store.insert(SCOPE_SPACES.to_string(), token("spaces", NOW + 1000));
    let mut manager = TokenManager::new(store);
    let (mut req, action) = manager.get_skype_token(NOW);
    let mut calls = 0;
    match &action {
        TokenAction::Derive(t) => assert_eq!(t.value, "spaces"),
        other => panic!("unexpected {:?}", other),
    }
    calls += 1;
    let action = manager.advance(&mut req, TokenEvent::Issued(Ok(token("skype", NOW + 600))), NOW);
    assert!(matches!(action, TokenAction::Flush));
    let action = manager.advance(&mut req, TokenEvent::Flushed(Ok(())), NOW);
    assert!(matches!(action, TokenAction::Finish(Ok(ref t)) if t.value == "skype"));
    assert_eq!(calls, 1);
    assert_eq!(manager.store().skype_token().unwrap().value, "skype");

    let (_, again) = manager.get_skype_token(NOW + 5);
    assert!(!is_network(&again));
    assert!(matches!(again, TokenAction::Finish(Ok(ref t)) if t.value == "skype"));
}

#[test]
fn skype_token_without_spaces_token_exchanges_first() {
    let mut store = TokenStore::new();
    store.insert(REFRESH_TOKEN_KEY.to_string(), token("refresh", NOW + 1000));
    let mut manager = TokenManager::new(store);
    let (mut req, action) = manager.get_skype_token(NOW);
    match &action {
        TokenAction::Exchange(_, scope) => assert_eq!(scope, SCOPE_SPACES),
        other => panic!("unexpected {:?}", other),
    }
    manager.advance(&mut req, TokenEvent::Issued(Ok(token("spaces", NOW + 60))), NOW);
    let action = manager.advance(&mut req, TokenEvent::Flushed(Ok(())), NOW);
    assert!(matches!(action, TokenAction::Derive(ref t) if t.value == "spaces"));
}

#[test]
fn store_and_clear() {
    let mut manager = TokenManager::new(TokenStore::new());
    manager.store_refresh_token(token("r", NOW));
    assert!(manager.is_authenticated());
    manager.clear_all();
    assert!(!manager.is_authenticated());
    assert!(manager.store().is_empty());
    manager.clear_all();
    assert!(manager.store().is_empty());
}

#[test]
fn token_store_keys_unique() {
    let mut store = TokenStore::new();
    store.insert("a".to_string(), token("1", 1));
    store.insert("a".to_string(), token("2", 2));
    store.insert(SKYPE_TOKEN_KEY.to_string(), token("s", 3));
    assert_eq!(store.get("a").unwrap().value, "2");
    assert_eq!(store.to_pairs().len(), 2);
    assert!(store.refresh_token().is_none());
    assert_eq!(store.skype_token().unwrap().expires, 3);
}

#[test]
fn token_store_pairs_round_trip() {
    let pairs = vec![
        ("x".to_string(), token("1", 10)),
        ("y".to_string(), token("2", 20)),
        ("x".to_string(), token("3", 30)),
    ];
    let store = TokenStore::from_pairs(pairs);
    assert_eq!(store.get("x").unwrap().value, "3");
    let back = TokenStore::from_pairs(store.to_pairs());
    assert_eq!(back.get("x").unwrap().expires, 30);
    assert_eq!(back.get("y").unwrap().value, "2");
    assert_eq!(back.to_pairs().len(), 2);
}

#[test]
fn reserved_names_are_not_scopes() {
    assert!(!is_scope_name(REFRESH_TOKEN_KEY));
    assert!(!is_scope_name(SKYPE_TOKEN_KEY));
    assert!(is_scope_name(SCOPE_GRAPH));
    assert!(is_scope_name("graph"));
}
