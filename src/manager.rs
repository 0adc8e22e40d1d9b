use vstd::prelude::*;

use crate::auth::AuthError;
use crate::token::{AccessToken, TokenStore, REFRESH_TOKEN_KEY, SKYPE_TOKEN_KEY};

verus! {

/// Scope of the messaging service.
pub const SCOPE_IC3: &'static str = "https://ic3.teams.office.com/.default";

/// Scope of the chat aggregation service.
pub const SCOPE_CHATSVCAGG: &'static str = "https://chatsvcagg.teams.microsoft.com/.default";

/// Scope of the directory, mail and calendar service.
pub const SCOPE_GRAPH: &'static str = "https://graph.microsoft.com/.default";

/// Scope whose token the skype token is derived from.
pub const SCOPE_SPACES: &'static str = "https://api.spaces.skype.com/Authorization.ReadWrite";

/// Client identifier sent with every exchange.
pub const TEAMS_CLIENT_ID: &'static str = "1fec8e78-bce4-4aaf-ab1b-5451cc387264";

/// Where a token request stands.
#[derive(Debug)]
pub enum Stage {
    /// Waiting for the renewal of this expired refresh token.
    Renewing(AccessToken),
    /// The renewed refresh token is stored; waiting for the cache to be written.
    SavingRenewal(AccessToken),
    /// Waiting for a scope token in exchange for this refresh token.
    Exchanging(AccessToken),
    /// The scope token is stored; waiting for the cache to be written.
    SavingScope(AccessToken),
    /// Waiting for a skype token derived from this scope token.
    Deriving(AccessToken),
    /// The skype token is stored; waiting for the cache to be written.
    SavingSkype(AccessToken),
    /// Finished with this result.
    Done(Result<AccessToken, AuthError>),
}

/// One request for a token, driven by [`TokenManager::advance`].
#[derive(Debug)]
pub struct TokenRequest {
    /// The scope whose token is wanted (the spaces scope when deriving the skype token).
    pub scope: String,
    /// Whether the skype token is wanted, derived from the scope token.
    pub derive_skype: bool,
    pub stage: Stage,
}

/// The outside work a request needs next.
#[derive(Debug)]
pub enum TokenAction {
    /// Renew this refresh token at the provider.
    Renew(AccessToken),
    /// Exchange this refresh token for a token of the given scope.
    Exchange(AccessToken, String),
    /// Derive the skype token from this scope token.
    Derive(AccessToken),
    /// Write the store to the cache.
    Flush,
    /// The request is over with this result.
    Finish(Result<AccessToken, AuthError>),
}

/// What came back from the outside work.
#[derive(Debug)]
pub enum TokenEvent {
    /// Result of a renewal, exchange or derivation.
    Issued(Result<AccessToken, AuthError>),
    /// Result of writing the cache.
    Flushed(Result<(), AuthError>),
}

/// A resource scope: any name but the two reserved for the refresh and skype tokens.
pub open spec fn is_scope(name: Seq<char>) -> bool {
    name != REFRESH_TOKEN_KEY@ && name != SKYPE_TOKEN_KEY@
}

/// Whether `name` can be asked for as a resource scope.
pub fn is_scope_name(name: &str) -> (r: bool)
    ensures
        r == is_scope(name@),
{
    !crate::text::same_text(name, REFRESH_TOKEN_KEY) && !crate::text::same_text(name, SKYPE_TOKEN_KEY)
}

/// Renewal, exchange and derivation are the calls that go to the network.
pub open spec fn is_network_call(a: TokenAction) -> bool {
    a is Renew || a is Exchange || a is Derive
}

/// How many of the actions go to the network.
pub open spec fn network_calls(actions: Seq<TokenAction>) -> nat
    decreases actions.len(),
{
    if actions.len() == 0 {
        0
    } else {
        network_calls(actions.drop_last()) + if is_network_call(actions.last()) {
            1nat
        } else {
            0nat
        }
    }
}

/// A request that ends with `result`.
pub open spec fn finished(result: Result<AccessToken, AuthError>) -> (Stage, TokenAction) {
    (Stage::Done(result), TokenAction::Finish(result))
}

/// Once a usable refresh token is known: the cached scope token if it is still usable,
/// else an exchange.
pub open spec fn with_refresh(
    m: Map<Seq<char>, AccessToken>,
    req: TokenRequest,
    refresh: AccessToken,
    now: u64,
) -> (Stage, TokenAction) {
    if m.contains_key(req.scope@) && m[req.scope@].usable_at(now) {
        if req.derive_skype {
            (Stage::Deriving(m[req.scope@]), TokenAction::Derive(m[req.scope@]))
        } else {
            finished(Ok(m[req.scope@]))
        }
    } else {
        (Stage::Exchanging(refresh), TokenAction::Exchange(refresh, req.scope))
    }
}

/// The first step of a request.
pub open spec fn begin(m: Map<Seq<char>, AccessToken>, req: TokenRequest, now: u64) -> (
    Stage,
    TokenAction,
) {
    if req.derive_skype && m.contains_key(SKYPE_TOKEN_KEY@) && m[SKYPE_TOKEN_KEY@].usable_at(now) {
        finished(Ok(m[SKYPE_TOKEN_KEY@]))
    } else if !m.contains_key(REFRESH_TOKEN_KEY@) {
        finished(Err(AuthError::NotAuthenticated))
    } else if m[REFRESH_TOKEN_KEY@].expires < now {
        (Stage::Renewing(m[REFRESH_TOKEN_KEY@]), TokenAction::Renew(m[REFRESH_TOKEN_KEY@]))
    } else {
        with_refresh(m, req, m[REFRESH_TOKEN_KEY@], now)
    }
}

/// The action a request repeats when it gets an event that does not fit its stage.
pub open spec fn pending_action(req: TokenRequest) -> TokenAction {
    match req.stage {
        Stage::Renewing(r) => TokenAction::Renew(r),
        Stage::Exchanging(r) => TokenAction::Exchange(r, req.scope),
        Stage::Deriving(t) => TokenAction::Derive(t),
        Stage::Done(res) => TokenAction::Finish(res),
        _ => TokenAction::Flush,
    }
}

/// One step of a request: the new store, the new stage and the next action.
pub open spec fn next(
    m: Map<Seq<char>, AccessToken>,
    req: TokenRequest,
    event: TokenEvent,
    now: u64,
) -> (Map<Seq<char>, AccessToken>, Stage, TokenAction) {
    match (req.stage, event) {
        (Stage::Renewing(_), TokenEvent::Issued(Ok(t))) => (
            m.insert(REFRESH_TOKEN_KEY@, t),
            Stage::SavingRenewal(t),
            TokenAction::Flush,
        ),
        (Stage::Exchanging(_), TokenEvent::Issued(Ok(t))) => (
            m.insert(req.scope@, t),
            Stage::SavingScope(t),
            TokenAction::Flush,
        ),
        (Stage::Deriving(_), TokenEvent::Issued(Ok(t))) => (
            m.insert(SKYPE_TOKEN_KEY@, t),
            Stage::SavingSkype(t),
            TokenAction::Flush,
        ),
        (Stage::Renewing(_), TokenEvent::Issued(Err(e))) => {
            let (s, a) = finished(Err(e));
            (m, s, a)
        },
        (Stage::Exchanging(_), TokenEvent::Issued(Err(e))) => {
            let (s, a) = finished(Err(e));
            (m, s, a)
        },
        (Stage::Deriving(_), TokenEvent::Issued(Err(e))) => {
            let (s, a) = finished(Err(e));
            (m, s, a)
        },
        (Stage::SavingRenewal(t), TokenEvent::Flushed(Ok(()))) => {
            let (s, a) = with_refresh(m, req, t, now);
            (m, s, a)
        },
        (Stage::SavingScope(t), TokenEvent::Flushed(Ok(()))) => {
            if req.derive_skype {
                (m, Stage::Deriving(t), TokenAction::Derive(t))
            } else {
                let (s, a) = finished(Ok(t));
                (m, s, a)
            }
        },
        (Stage::SavingSkype(t), TokenEvent::Flushed(Ok(()))) => {
            let (s, a) = finished(Ok(t));
            (m, s, a)
        },
        (Stage::SavingRenewal(_), TokenEvent::Flushed(Err(e))) => {
            let (s, a) = finished(Err(e));
            (m, s, a)
        },
        (Stage::SavingScope(_), TokenEvent::Flushed(Err(e))) => {
            let (s, a) = finished(Err(e));
            (m, s, a)
        },
        (Stage::SavingSkype(_), TokenEvent::Flushed(Err(e))) => {
            let (s, a) = finished(Err(e));
            (m, s, a)
        },
        _ => (m, req.stage, pending_action(req)),
    }
}

/// Feeds the events to a request in turn: the final store and stage, and every action
/// asked for after an event.
pub open spec fn run(
    m: Map<Seq<char>, AccessToken>,
    req: TokenRequest,
    events: Seq<TokenEvent>,
    now: u64,
) -> (Map<Seq<char>, AccessToken>, Stage, Seq<TokenAction>)
    decreases events.len(),
{
    if events.len() == 0 {
        (m, req.stage, Seq::empty())
    } else {
        let (m1, s1, a1) = next(m, req, events[0], now);
        let (m2, s2, rest) = run(
            m1,
            TokenRequest { scope: req.scope, derive_skype: req.derive_skype, stage: s1 },
            events.skip(1),
            now,
        );
        (m2, s2, seq![a1] + rest)
    }
}

/// Hands out tokens from a store, renewing and exchanging them as they expire.
pub struct TokenManager {
    store: TokenStore,
}

impl View for TokenManager {
    type V = Map<Seq<char>, AccessToken>;

    closed spec fn view(&self) -> Map<Seq<char>, AccessToken> {
        self.store@
    }
}

impl TokenManager {
    /// A manager over the tokens loaded from the cache.
    pub fn new(store: TokenStore) -> (r: Self)
        ensures
            r@ == store@,
    {
        TokenManager { store }
    }

    /// The tokens held, for writing to the cache.
    pub fn store(&self) -> (r: &TokenStore)
        ensures
            r@ == self@,
    {
        &self.store
    }

    /// Whether a refresh credential is held.
    pub fn is_authenticated(&self) -> (r: bool)
        ensures
            r == self@.contains_key(REFRESH_TOKEN_KEY@),
    {
        self.store.refresh_token().is_some()
    }

    /// Stores the refresh credential obtained by signing in.
    pub fn store_refresh_token(&mut self, token: AccessToken)
        ensures
            final(self)@ == old(self)@.insert(REFRESH_TOKEN_KEY@, token),
    {
        self.store.insert(REFRESH_TOKEN_KEY.to_string(), token);
    }

    /// Forgets every token (signing out).
    pub fn clear_all(&mut self)
        ensures
            final(self)@ == Map::<Seq<char>, AccessToken>::empty(),
    {
        self.store.clear();
    }

    /// The cached token under `key` if it is usable at `now`.
    fn usable(&self, key: &str, now: u64) -> (r: Option<AccessToken>)
        ensures
            match r {
                Some(t) => self@.contains_key(key@) && self@[key@].usable_at(now) && t
                    == self@[key@],
                None => !(self@.contains_key(key@) && self@[key@].usable_at(now)),
            },
    {
        match self.store.get(key) {
            Some(t) => {
                if t.expires >= now {
                    Some(t.clone())
                } else {
                    None
                }
            },
            None => None,
        }
    }

    fn exec_with_refresh(&self, req: &TokenRequest, refresh: AccessToken, now: u64) -> (r: (
        Stage,
        TokenAction,
    ))
        ensures
            r == with_refresh(self@, *req, refresh, now),
    {
        match self.usable(req.scope.as_str(), now) {
            Some(t) => {
                if req.derive_skype {
                    let t2 = t.clone();
                    (Stage::Deriving(t), TokenAction::Derive(t2))
                } else {
                    exec_finished(Ok(t))
                }
            },
            None => {
                let r2 = refresh.clone();
                (Stage::Exchanging(refresh), TokenAction::Exchange(r2, req.scope.clone()))
            },
        }
    }

    fn exec_begin(&self, req: &TokenRequest, now: u64) -> (r: (Stage, TokenAction))
        ensures
            r == begin(self@, *req, now),
    {
        if req.derive_skype {
            if let Some(t) = self.usable(SKYPE_TOKEN_KEY, now) {
                return exec_finished(Ok(t));
            }
        }
        match self.store.refresh_token() {
            None => exec_finished(Err(AuthError::NotAuthenticated)),
            Some(r) => {
                if r.expires < now {
                    (Stage::Renewing(r.clone()), TokenAction::Renew(r.clone()))
                } else {
                    let refresh = r.clone();
                    self.exec_with_refresh(req, refresh, now)
                }
            },
        }
    }

    /// Starts a request for a token of `scope`: the cached one when it is usable at `now`
    /// and the refresh credential has not expired, else the exchanges that renew it.
    pub fn get_token(&self, scope: String, now: u64) -> (r: (TokenRequest, TokenAction))
        requires
            is_scope(scope@),
        ensures
            r.0.scope == scope,
            !r.0.derive_skype,
            (r.0.stage, r.1) == begin(self@, r.0, now),
    {
        let req = TokenRequest { scope, derive_skype: false, stage: Stage::Done(Err(AuthError::NotAuthenticated)) };
        let (stage, action) = self.exec_begin(&req, now);
        (TokenRequest { stage, ..req }, action)
    }

    /// Starts a request for the skype token: the cached one when it is usable at `now`,
    /// else one derived from a token of the spaces scope.
    pub fn get_skype_token(&self, now: u64) -> (r: (TokenRequest, TokenAction))
        ensures
            r.0.scope@ == SCOPE_SPACES@,
            r.0.derive_skype,
            (r.0.stage, r.1) == begin(self@, r.0, now),
    {
        let req = TokenRequest {
            scope: SCOPE_SPACES.to_string(),
            derive_skype: true,
            stage: Stage::Done(Err(AuthError::NotAuthenticated)),
        };
        let (stage, action) = self.exec_begin(&req, now);
        (TokenRequest { stage, ..req }, action)
    }

    /// Takes the result of the outside work that `req` asked for and says what comes next.
    pub fn advance(&mut self, req: &mut TokenRequest, event: TokenEvent, now: u64) -> (r: TokenAction)
        ensures
            final(req).scope == old(req).scope,
            final(req).derive_skype == old(req).derive_skype,
            (final(self)@, final(req).stage, r) == next(old(self)@, *old(req), event, now),
    {
        let ghost m = self@;
        let mut stage = Stage::Done(Err(AuthError::NotAuthenticated));
        core::mem::swap(&mut stage, &mut req.stage);
        let (new_stage, action) = match (stage, event) {
            (Stage::Renewing(_), TokenEvent::Issued(Ok(t))) => {
                self.store.insert(REFRESH_TOKEN_KEY.to_string(), t.clone());
                (Stage::SavingRenewal(t), TokenAction::Flush)
            },
            (Stage::Exchanging(_), TokenEvent::Issued(Ok(t))) => {
                self.store.insert(req.scope.clone(), t.clone());
                (Stage::SavingScope(t), TokenAction::Flush)
            },
            (Stage::Deriving(_), TokenEvent::Issued(Ok(t))) => {
                self.store.insert(SKYPE_TOKEN_KEY.to_string(), t.clone());
                (Stage::SavingSkype(t), TokenAction::Flush)
            },
            (Stage::Renewing(_), TokenEvent::Issued(Err(e))) => exec_finished(Err(e)),
            (Stage::Exchanging(_), TokenEvent::Issued(Err(e))) => exec_finished(Err(e)),
            (Stage::Deriving(_), TokenEvent::Issued(Err(e))) => exec_finished(Err(e)),
            (Stage::SavingRenewal(t), TokenEvent::Flushed(Ok(()))) => {
                self.exec_with_refresh(req, t, now)
            },
            (Stage::SavingScope(t), TokenEvent::Flushed(Ok(()))) => {
                if req.derive_skype {
                    let t2 = t.clone();
                    (Stage::Deriving(t), TokenAction::Derive(t2))
                } else {
                    exec_finished(Ok(t))
                }
            },
            (Stage::SavingSkype(t), TokenEvent::Flushed(Ok(()))) => exec_finished(Ok(t)),
            (Stage::SavingRenewal(_), TokenEvent::Flushed(Err(e))) => exec_finished(Err(e)),
            (Stage::SavingScope(_), TokenEvent::Flushed(Err(e))) => exec_finished(Err(e)),
            (Stage::SavingSkype(_), TokenEvent::Flushed(Err(e))) => exec_finished(Err(e)),
            (stage, _) => {
                let action = match &stage {
                    Stage::Renewing(r) => TokenAction::Renew(r.clone()),
                    Stage::Exchanging(r) => TokenAction::Exchange(r.clone(), req.scope.clone()),
                    Stage::Deriving(t) => TokenAction::Derive(t.clone()),
                    Stage::Done(res) => TokenAction::Finish(clone_result(res)),
                    _ => TokenAction::Flush,
                };
                (stage, action)
            },
        };
        req.stage = new_stage;
        action
    }
}

fn clone_result(res: &Result<AccessToken, AuthError>) -> (r: Result<AccessToken, AuthError>)
    ensures
        r == *res,
{
    match res {
        Ok(t) => Ok(t.clone()),
        Err(e) => Err(e.clone()),
    }
}

fn exec_finished(result: Result<AccessToken, AuthError>) -> (r: (Stage, TokenAction))
    ensures
        r == finished(result),
{
    let copy = clone_result(&result);
    (Stage::Done(result), TokenAction::Finish(copy))
}

/// A scope whose cached token is still usable is answered from the cache, without any
/// network call and without touching the store, whenever the refresh credential has not
/// expired.
pub proof fn lemma_cached_token_served(m: Map<Seq<char>, AccessToken>, req: TokenRequest, now: u64)
    requires
        !req.derive_skype,
        m.contains_key(REFRESH_TOKEN_KEY@),
        m[REFRESH_TOKEN_KEY@].expires >= now,
        m.contains_key(req.scope@),
        m[req.scope@].usable_at(now),
    ensures
        begin(m, req, now) == finished(Ok(m[req.scope@])),
        !is_network_call(begin(m, req, now).1),
{
}

/// Without a refresh credential every scope request fails as not authenticated, without any
/// network call.
pub proof fn lemma_unauthenticated(m: Map<Seq<char>, AccessToken>, req: TokenRequest, now: u64)
    requires
        !req.derive_skype,
        !m.contains_key(REFRESH_TOKEN_KEY@),
    ensures
        begin(m, req, now) == finished(Err(AuthError::NotAuthenticated)),
        !is_network_call(begin(m, req, now).1),
{
}

/// With an expired refresh credential and no usable token for the scope, a request makes
/// exactly one renewal and then exactly one exchange; afterwards the store holds the renewed
/// credential and the new scope token, both unexpired.
pub proof fn lemma_expired_refresh_renewed(
    m: Map<Seq<char>, AccessToken>,
    req: TokenRequest,
    renewed: AccessToken,
    issued: AccessToken,
    now: u64,
)
    requires
        !req.derive_skype,
        is_scope(req.scope@),
        m.contains_key(REFRESH_TOKEN_KEY@),
        m[REFRESH_TOKEN_KEY@].expires < now,
        !(m.contains_key(req.scope@) && m[req.scope@].usable_at(now)),
        req.stage == begin(m, req, now).0,
        renewed.expires > now,
        issued.expires > now,
    ensures
        ({
            let events = seq![
                TokenEvent::Issued(Ok(renewed)),
                TokenEvent::Flushed(Ok(())),
                TokenEvent::Issued(Ok(issued)),
                TokenEvent::Flushed(Ok(())),
            ];
            let (m2, stage, actions) = run(m, req, events, now);
            let all = seq![begin(m, req, now).1] + actions;
            &&& all == seq![
                TokenAction::Renew(m[REFRESH_TOKEN_KEY@]),
                TokenAction::Flush,
                TokenAction::Exchange(renewed, req.scope),
                TokenAction::Flush,
                TokenAction::Finish(Ok(issued)),
            ]
            &&& network_calls(all) == 2
            &&& stage == Stage::Done(Ok(issued))
            &&& m2 == m.insert(REFRESH_TOKEN_KEY@, renewed).insert(req.scope@, issued)
            &&& m2[REFRESH_TOKEN_KEY@].expires > now
            &&& m2[req.scope@].expires > now
        }),
{
    let events = seq![
        TokenEvent::Issued(Ok(renewed)),
        TokenEvent::Flushed(Ok(())),
        TokenEvent::Issued(Ok(issued)),
        TokenEvent::Flushed(Ok(())),
    ];
    let m1 = m.insert(REFRESH_TOKEN_KEY@, renewed);
    let m2 = m1.insert(req.scope@, issued);
    let r1 = TokenRequest { scope: req.scope, derive_skype: false, stage: Stage::SavingRenewal(renewed) };
    let r2 = TokenRequest { scope: req.scope, derive_skype: false, stage: Stage::Exchanging(renewed) };
    let r3 = TokenRequest { scope: req.scope, derive_skype: false, stage: Stage::SavingScope(issued) };
    let r4 = TokenRequest { scope: req.scope, derive_skype: false, stage: Stage::Done(Ok(issued)) };
    let e1 = events.skip(1);
    let e2 = e1.skip(1);
    let e3 = e2.skip(1);
    let e4 = e3.skip(1);
    assert(e4 =~= Seq::<TokenEvent>::empty());
    assert(e3 =~= seq![TokenEvent::Flushed(Ok(()))]);
    assert(e2 =~= seq![TokenEvent::Issued(Ok(issued)), TokenEvent::Flushed(Ok(()))]);
    assert(e1 =~= seq![
        TokenEvent::Flushed(Ok(())),
        TokenEvent::Issued(Ok(issued)),
        TokenEvent::Flushed(Ok(())),
    ]);
    let finish = TokenAction::Finish(Ok(issued));
    let exchange = TokenAction::Exchange(renewed, req.scope);
    assert(run(m2, r4, e4, now) == (m2, r4.stage, Seq::<TokenAction>::empty()));
    assert(seq![finish] + Seq::<TokenAction>::empty() =~= seq![finish]);
    assert(run(m2, r3, e3, now) == (m2, r4.stage, seq![finish]));
    assert(seq![TokenAction::Flush] + seq![finish] =~= seq![TokenAction::Flush, finish]);
    assert(run(m1, r2, e2, now) == (m2, r4.stage, seq![TokenAction::Flush, finish]));
    assert(seq![exchange] + seq![TokenAction::Flush, finish] =~= seq![exchange, TokenAction::Flush, finish]);
    assert(run(m1, r1, e1, now) == (m2, r4.stage, seq![exchange, TokenAction::Flush, finish]));
    let acts = seq![TokenAction::Flush, exchange, TokenAction::Flush, finish];
    assert(seq![TokenAction::Flush] + seq![exchange, TokenAction::Flush, finish] =~= acts);
    assert(run(m, req, events, now) == (m2, r4.stage, acts));
    let renew = TokenAction::Renew(m[REFRESH_TOKEN_KEY@]);
    let all = seq![renew] + acts;
    assert(all.drop_last() =~= seq![renew, TokenAction::Flush, exchange, TokenAction::Flush]);
    assert(all.drop_last().drop_last() =~= seq![renew, TokenAction::Flush, exchange]);
    assert(all.drop_last().drop_last().drop_last() =~= seq![renew, TokenAction::Flush]);
    assert(all.drop_last().drop_last().drop_last().drop_last() =~= seq![renew]);
    assert(seq![renew].drop_last() =~= Seq::<TokenAction>::empty());
    assert(network_calls(Seq::<TokenAction>::empty()) == 0);
    assert(seq![renew].last() == renew);
    assert(network_calls(seq![renew]) == 1);
    assert(network_calls(seq![renew, TokenAction::Flush]) == 1);
    assert(network_calls(seq![renew, TokenAction::Flush, exchange]) == 2);
    assert(network_calls(seq![renew, TokenAction::Flush, exchange, TokenAction::Flush]) == 2);
    assert(network_calls(all) == 2);
    assert(m2[REFRESH_TOKEN_KEY@] == renewed);
}

/// With no usable skype token but usable refresh and spaces tokens, the skype token costs
/// exactly one network call (its derivation); asked for again while it is usable, it costs none.
pub proof fn lemma_skype_token_derived_once(
    m: Map<Seq<char>, AccessToken>,
    req: TokenRequest,
    derived: AccessToken,
    now: u64,
    later: u64,
)
    requires
        req.derive_skype,
        req.scope@ == SCOPE_SPACES@,
        !(m.contains_key(SKYPE_TOKEN_KEY@) && m[SKYPE_TOKEN_KEY@].usable_at(now)),
        m.contains_key(REFRESH_TOKEN_KEY@),
        m[REFRESH_TOKEN_KEY@].expires >= now,
        m.contains_key(SCOPE_SPACES@),
        m[SCOPE_SPACES@].usable_at(now),
        req.stage == begin(m, req, now).0,
        derived.usable_at(later),
    ensures
        ({
            let events = seq![TokenEvent::Issued(Ok(derived)), TokenEvent::Flushed(Ok(()))];
            let (m2, stage, actions) = run(m, req, events, now);
            let all = seq![begin(m, req, now).1] + actions;
            &&& all == seq![
                TokenAction::Derive(m[SCOPE_SPACES@]),
                TokenAction::Flush,
                TokenAction::Finish(Ok(derived)),
            ]
            &&& network_calls(all) == 1
            &&& m2 == m.insert(SKYPE_TOKEN_KEY@, derived)
            &&& begin(m2, req, later) == finished(Ok(derived))
        }),
{
    let events = seq![TokenEvent::Issued(Ok(derived)), TokenEvent::Flushed(Ok(()))];
    let m2 = m.insert(SKYPE_TOKEN_KEY@, derived);
    let r1 = TokenRequest { scope: req.scope, derive_skype: true, stage: Stage::SavingSkype(derived) };
    let r2 = TokenRequest { scope: req.scope, derive_skype: true, stage: Stage::Done(Ok(derived)) };
    let e1 = events.skip(1);
    let e2 = e1.skip(1);
    assert(e2 =~= Seq::<TokenEvent>::empty());
    assert(e1 =~= seq![TokenEvent::Flushed(Ok(()))]);
    let finish = TokenAction::Finish(Ok(derived));
    let derive = TokenAction::Derive(m[SCOPE_SPACES@]);
    assert(run(m2, r2, e2, now) == (m2, r2.stage, Seq::<TokenAction>::empty()));
    assert(seq![finish] + Seq::<TokenAction>::empty() =~= seq![finish]);
    assert(run(m2, r1, e1, now) == (m2, r2.stage, seq![finish]));
    let acts = seq![TokenAction::Flush, finish];
    assert(seq![TokenAction::Flush] + seq![finish] =~= acts);
    assert(run(m, req, events, now) == (m2, r2.stage, acts));
    let all = seq![derive] + acts;
    assert(all.drop_last() =~= seq![derive, TokenAction::Flush]);
    assert(all.drop_last().drop_last() =~= seq![derive]);
    assert(seq![derive].drop_last() =~= Seq::<TokenAction>::empty());
    assert(network_calls(Seq::<TokenAction>::empty()) == 0);
    assert(seq![derive].last() == derive);
    assert(network_calls(seq![derive]) == 1);
    assert(network_calls(seq![derive, TokenAction::Flush]) == 1);
    assert(network_calls(all) == 1);
}

} // verus!
