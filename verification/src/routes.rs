//! The decisions of the HTTP handlers: validating a tap batch, shaping the
//! answers, the health report, and the steps of a session sync.

use vstd::prelude::*;
use vstd::string::StringExecFns;
use crate::decimal::{decimal_text, format_i64};
use crate::errors::{AppError, display_spec};
use crate::models::player::{CreatePlayerRequest, Player, PlayerResponse};
use crate::models::telegram::{AuthRequest, AuthResponse, TelegramUser};
use crate::services::telegram::{accepted, init_params, TelegramService};
use crate::repositories::DatabaseHealth;
use crate::services::redis_service::{RedisHealth, TapResult, UserStats, DEFAULT_ENERGY};
use crate::state::AppMetrics;

verus! {

/// The most tap events one batch may hold.
pub const MAX_TAPS_PER_BATCH: usize = 50;

/// A batch of taps sent by a client.
#[derive(Debug, Clone)]
pub struct TapBatchRequest {
    pub taps: Vec<TapEvent>,
    pub timestamp: i64,
}

/// Some taps and the energy they cost.
#[derive(Debug, Clone, Copy)]
pub struct TapEvent {
    pub count: i32,
    pub energy_cost: i32,
}

/// The answer to a processed tap batch.
#[derive(Debug, Clone)]
pub struct TapBatchResponse {
    pub success: bool,
    pub processed_taps: u32,
    pub current_score: i64,
    pub current_energy: i32,
    pub message: String,
}

/// The health of the server and its stores.
#[derive(Debug, Clone)]
pub struct HealthResponse {
    pub status: String,
    pub timestamp: i64,
    pub services: ServiceHealth,
    pub metrics: SystemMetrics,
}

/// Whether each store answered, and how fast.
#[derive(Debug, Clone, Copy)]
pub struct ServiceHealth {
    pub redis: bool,
    pub scylla: bool,
    pub redis_response_time_ms: u64,
    pub scylla_response_time_ms: u64,
}

/// A user's score and energy after a session sync.
#[derive(Debug, Clone, Copy)]
pub struct SyncResponse {
    pub user_id: i64,
    pub score: i64,
    pub energy: i32,
    pub is_new_user: bool,
}

/// A copy of the server's counters.
#[derive(Debug, Clone, Copy)]
pub struct SystemMetrics {
    pub total_requests: u64,
    pub tap_events_processed: u64,
    pub database_writes: u64,
    pub failed_requests: u64,
    pub current_queue_size: u64,
    pub avg_response_time_ms: u64,
    pub worker_cycles_completed: u64,
    pub circuit_breaker_trips: u64,
}

impl SystemMetrics {
    /// The counters as the metrics endpoint reports them.
    pub fn from_metrics(m: &AppMetrics) -> (r: Self)
        ensures
            r.total_requests == m.total_requests,
            r.tap_events_processed == m.tap_events_processed,
            r.database_writes == m.database_writes,
            r.failed_requests == m.failed_requests,
            r.current_queue_size == m.current_queue_size,
            r.avg_response_time_ms == m.avg_response_time_ms,
            r.worker_cycles_completed == m.worker_cycles_completed,
            r.circuit_breaker_trips == m.circuit_breaker_trips,
    {
        SystemMetrics {
            total_requests: m.total_requests,
            tap_events_processed: m.tap_events_processed,
            database_writes: m.database_writes,
            failed_requests: m.failed_requests,
            current_queue_size: m.current_queue_size,
            avg_response_time_ms: m.avg_response_time_ms,
            worker_cycles_completed: m.worker_cycles_completed,
            circuit_breaker_trips: m.circuit_breaker_trips,
        }
    }
}

pub open spec fn count_sum(taps: Seq<TapEvent>) -> int
    decreases taps.len(),
{
    if taps.len() == 0 { 0 } else { count_sum(taps.drop_last()) + taps.last().count }
}

pub open spec fn cost_sum(taps: Seq<TapEvent>) -> int
    decreases taps.len(),
{
    if taps.len() == 0 { 0 } else { cost_sum(taps.drop_last()) + taps.last().energy_cost }
}

pub open spec fn fits_i32(x: int) -> bool {
    i32::MIN <= x <= i32::MAX
}

/// Adding up the counts and the costs, in order, stays within `i32`.
pub open spec fn sums_fit(taps: Seq<TapEvent>) -> bool {
    forall|k: int| 0 <= k <= taps.len() ==> fits_i32(#[trigger] count_sum(taps.take(k))) && fits_i32(cost_sum(taps.take(k)))
}

/// Whether adding up the batch's counts and costs stays within `i32` (the
/// server's sums would overflow otherwise).
pub fn tap_sums_fit(taps: &Vec<TapEvent>) -> (r: bool)
    ensures
        r == sums_fit(taps@),
{
    let mut c: i64 = 0;
    let mut e: i64 = 0;
    let mut i: usize = 0;
    assert(taps@.take(0) =~= Seq::<TapEvent>::empty());
    while i < taps.len()
        invariant
            i <= taps@.len(),
            c == count_sum(taps@.take(i as int)),
            e == cost_sum(taps@.take(i as int)),
            forall|k: int| 0 <= k <= i ==> fits_i32(#[trigger] count_sum(taps@.take(k))) && fits_i32(cost_sum(taps@.take(k))),
        decreases taps@.len() - i,
    {
        assert(taps@.take(i + 1).drop_last() =~= taps@.take(i as int));
        c = c + taps[i].count as i64;
        e = e + taps[i].energy_cost as i64;
        if c < i32::MIN as i64 || c > i32::MAX as i64 || e < i32::MIN as i64 || e > i32::MAX as i64 {
            assert(c == count_sum(taps@.take(i + 1)) && e == cost_sum(taps@.take(i + 1)));
            assert(!(fits_i32(count_sum(taps@.take(i + 1))) && fits_i32(cost_sum(taps@.take(i + 1)))));
            return false;
        }
        assert(fits_i32(count_sum(taps@.take(i + 1))) && fits_i32(cost_sum(taps@.take(i + 1))));
        i = i + 1;
    }
    assert forall|k: int| 0 <= k <= taps@.len() implies fits_i32(#[trigger] count_sum(taps@.take(k))) && fits_i32(cost_sum(taps@.take(k))) by {}
    true
}

/// Checks a tap batch: it must hold 1 to 50 events, and their counts must
/// add up to a positive number. Gives the total count and the total energy
/// cost.
pub fn validate_tap_batch(request: &TapBatchRequest) -> (r: Result<(i64, i32), AppError>)
    requires
        1 <= request.taps@.len() <= MAX_TAPS_PER_BATCH ==> sums_fit(request.taps@),
    ensures
        (request.taps@.len() == 0 || request.taps@.len() > MAX_TAPS_PER_BATCH) ==>
            (r matches Err(AppError::Validation(m)) && m@ == "Invalid tap batch size (1-50)"@),
        1 <= request.taps@.len() <= MAX_TAPS_PER_BATCH ==> {
            let total = count_sum(request.taps@);
            &&& total <= 0 ==> (r matches Err(AppError::Validation(m)) && m@ == "Tap count must be positive"@)
            &&& total > 0 ==> r == Ok::<(i64, i32), AppError>((total as i64, cost_sum(request.taps@) as i32))
        },
{
    let taps = &request.taps;
    if taps.len() == 0 || taps.len() > MAX_TAPS_PER_BATCH {
        return Err(AppError::Validation("Invalid tap batch size (1-50)".to_owned()));
    }
    let mut c: i32 = 0;
    let mut e: i32 = 0;
    let mut i: usize = 0;
    assert(taps@.take(0) =~= Seq::<TapEvent>::empty());
    while i < taps.len()
        invariant
            i <= taps@.len(),
            sums_fit(taps@),
            c == count_sum(taps@.take(i as int)),
            e == cost_sum(taps@.take(i as int)),
        decreases taps@.len() - i,
    {
        assert(taps@.take(i + 1).drop_last() =~= taps@.take(i as int));
        assert(fits_i32(count_sum(taps@.take(i + 1))));
        c = c + taps[i].count;
        e = e + taps[i].energy_cost;
        i = i + 1;
    }
    assert(taps@.take(i as int) =~= taps@);
    let total = c as i64;
    if total <= 0 {
        return Err(AppError::Validation("Tap count must be positive".to_owned()));
    }
    Ok((total, e))
}

/// The answer to a processed batch of `total_taps` taps.
pub fn tap_batch_response(total_taps: i64, result: TapResult) -> (r: TapBatchResponse)
    ensures
        r.success,
        r.processed_taps == total_taps as u32,
        r.current_score == result.new_score,
        r.current_energy == result.new_energy,
        r.message@ == "Taps processed successfully"@,
{
    TapBatchResponse {
        success: true,
        processed_taps: total_taps as u32,
        current_score: result.new_score,
        current_energy: result.new_energy,
        message: "Taps processed successfully".to_owned(),
    }
}

fn clone_text(s: &Option<String>) -> (r: Option<String>)
    ensures
        r == *s,
{
    match s {
        Some(t) => Some(t.clone()),
        None => None,
    }
}

/// A stored player as the API shows it: a missing score, energy, maximum
/// energy, tap value or recharge rate shows as 0, a missing level as 1.
pub fn player_response(p: &Player) -> (r: PlayerResponse)
    ensures
        r.user_id == p.user_id,
        r.username == p.username,
        r.first_name == p.first_name,
        r.score == (match p.score { Some(v) => v, None => 0 }),
        r.level == (match p.level { Some(v) => v, None => 1 }),
        r.energy == (match p.energy { Some(v) => v, None => 0 }),
        r.max_energy == (match p.max_energy { Some(v) => v, None => 0 }),
        r.tap_value == (match p.tap_value { Some(v) => v, None => 0 }),
        r.energy_recharge_rate == (match p.energy_recharge_rate { Some(v) => v, None => 0 }),
        r.referral_code == p.referral_code,
        r.last_seen == p.last_seen,
{
    PlayerResponse {
        user_id: p.user_id,
        username: clone_text(&p.username),
        first_name: clone_text(&p.first_name),
        score: match p.score { Some(v) => v, None => 0 },
        level: match p.level { Some(v) => v, None => 1 },
        energy: match p.energy { Some(v) => v, None => 0 },
        max_energy: match p.max_energy { Some(v) => v, None => 0 },
        tap_value: match p.tap_value { Some(v) => v, None => 0 },
        energy_recharge_rate: match p.energy_recharge_rate { Some(v) => v, None => 0 },
        referral_code: clone_text(&p.referral_code),
        last_seen: p.last_seen,
    }
}

/// The answer to "who am I": the stored player, or, when there is none,
/// the error "User with id {id} not found".
pub fn user_lookup(user_id: i64, found: Option<Player>) -> (r: Result<PlayerResponse, AppError>)
    ensures
        match found {
            Some(p) => r matches Ok(resp) && resp == player_response_spec(p) && {
                &&& resp.user_id == p.user_id
                &&& resp.username == p.username
                &&& resp.first_name == p.first_name
                &&& resp.score == (match p.score { Some(v) => v, None => 0 })
                &&& resp.level == (match p.level { Some(v) => v, None => 1 })
                &&& resp.energy == (match p.energy { Some(v) => v, None => 0 })
                &&& resp.max_energy == (match p.max_energy { Some(v) => v, None => 0 })
                &&& resp.tap_value == (match p.tap_value { Some(v) => v, None => 0 })
                &&& resp.energy_recharge_rate == (match p.energy_recharge_rate { Some(v) => v, None => 0 })
                &&& resp.referral_code == p.referral_code
                &&& resp.last_seen == p.last_seen
            },
            None => r matches Err(AppError::Auth(m))
                && m@ == "User with id "@ + decimal_text(user_id as int) + " not found"@,
        },
{
    match found {
        Some(p) => Ok(player_response(&p)),
        None => {
            let mut m = "User with id ".to_owned();
            let id = format_i64(user_id);
            m.append(id.as_str());
            m.append(" not found");
            Err(AppError::Auth(m))
        },
    }
}

pub open spec fn player_response_spec(p: Player) -> PlayerResponse {
    PlayerResponse {
        user_id: p.user_id,
        username: p.username,
        first_name: p.first_name,
        score: match p.score { Some(v) => v, None => 0 },
        level: match p.level { Some(v) => v, None => 1 },
        energy: match p.energy { Some(v) => v, None => 0 },
        max_energy: match p.max_energy { Some(v) => v, None => 0 },
        tap_value: match p.tap_value { Some(v) => v, None => 0 },
        energy_recharge_rate: match p.energy_recharge_rate { Some(v) => v, None => 0 },
        referral_code: p.referral_code,
        last_seen: p.last_seen,
    }
}

/// A stored player's profile carries the player's own fields: each number
/// the player has is shown as it is (a missing one as 0, a missing level as
/// 1), and the names, referral code and last-seen time are the player's.
pub proof fn lemma_player_response_fields(p: Player)
    ensures
        ({
            let r = player_response_spec(p);
            &&& r.user_id == p.user_id
            &&& r.username == p.username
            &&& r.first_name == p.first_name
            &&& p.score matches Some(v) ==> r.score == v
            &&& p.score is None ==> r.score == 0
            &&& p.level matches Some(v) ==> r.level == v
            &&& p.level is None ==> r.level == 1
            &&& p.energy matches Some(v) ==> r.energy == v
            &&& p.energy is None ==> r.energy == 0
            &&& p.max_energy matches Some(v) ==> r.max_energy == v
            &&& p.max_energy is None ==> r.max_energy == 0
            &&& p.tap_value matches Some(v) ==> r.tap_value == v
            &&& p.tap_value is None ==> r.tap_value == 0
            &&& p.energy_recharge_rate matches Some(v) ==> r.energy_recharge_rate == v
            &&& p.energy_recharge_rate is None ==> r.energy_recharge_rate == 0
            &&& r.referral_code == p.referral_code
            &&& r.last_seen == p.last_seen
        }),
{
}

/// The health report: the server is healthy when both stores answered and
/// called themselves healthy; then the status is 200 and "healthy",
/// otherwise 503 and "unhealthy". A store that did not answer shows a
/// response time of 0.
pub fn health_report(redis: Option<RedisHealth>, scylla: Option<DatabaseHealth>, metrics: &AppMetrics, timestamp: i64) -> (r: (u16, HealthResponse))
    ensures
        r.1.services.redis == (redis matches Some(h) && h.is_healthy),
        r.1.services.scylla == (scylla matches Some(h) && h.is_healthy),
        r.1.services.redis_response_time_ms == (match redis { Some(h) => h.response_time_ms, None => 0 }),
        r.1.services.scylla_response_time_ms == (match scylla { Some(h) => h.response_time_ms, None => 0 }),
        r.0 == (if r.1.services.redis && r.1.services.scylla { 200u16 } else { 503u16 }),
        r.1.status@ == (if r.1.services.redis && r.1.services.scylla { "healthy"@ } else { "unhealthy"@ }),
        r.1.timestamp == timestamp,
        r.1.metrics == SystemMetrics::from_metrics_spec(*metrics),
{
    let (redis_ok, redis_time) = match redis {
        Some(h) => (h.is_healthy, h.response_time_ms),
        None => (false, 0),
    };
    let (scylla_ok, scylla_time) = match scylla {
        Some(h) => (h.is_healthy, h.response_time_ms),
        None => (false, 0),
    };
    let healthy = redis_ok && scylla_ok;
    let status_code: u16 = if healthy { 200 } else { 503 };
    let status = if healthy { "healthy".to_owned() } else { "unhealthy".to_owned() };
    (status_code, HealthResponse {
        status,
        timestamp,
        services: ServiceHealth {
            redis: redis_ok,
            scylla: scylla_ok,
            redis_response_time_ms: redis_time,
            scylla_response_time_ms: scylla_time,
        },
        metrics: SystemMetrics::from_metrics(metrics),
    })
}

impl SystemMetrics {
    pub open spec fn from_metrics_spec(m: AppMetrics) -> SystemMetrics {
        SystemMetrics {
            total_requests: m.total_requests,
            tap_events_processed: m.tap_events_processed,
            database_writes: m.database_writes,
            failed_requests: m.failed_requests,
            current_queue_size: m.current_queue_size,
            avg_response_time_ms: m.avg_response_time_ms,
            worker_cycles_completed: m.worker_cycles_completed,
            circuit_breaker_trips: m.circuit_breaker_trips,
        }
    }
}

/// What a login makes of the init-data check: an error of the check
/// becomes an internal error "verify_init_data error: {error}", a failed
/// check is refused as "Invalid Telegram data", a passed one goes on.
pub fn login_gate(verdict: Result<bool, AppError>) -> (r: Result<(), AppError>)
    ensures
        match verdict {
            Err(e) => r matches Err(AppError::Internal(m)) && m@ == "verify_init_data error: "@ + display_spec(e),
            Ok(false) => r matches Err(AppError::Authentication(m)) && m@ == "Invalid Telegram data"@,
            Ok(true) => r is Ok,
        },
{
    match verdict {
        Err(e) => {
            let mut m = "verify_init_data error: ".to_owned();
            let d = e.message();
            m.append(d.as_str());
            Err(AppError::Internal(m))
        },
        Ok(false) => Err(AppError::Authentication("Invalid Telegram data".to_owned())),
        Ok(true) => Ok(()),
    }
}

/// The player that a first login creates: the Telegram id, user name and
/// first name; no referral.
pub fn new_player_request(user: &TelegramUser) -> (r: CreatePlayerRequest)
    ensures
        r.user_id == user.id,
        r.username == user.username,
        r.first_name == Some(user.first_name),
        r.referral_code is None,
        r.referred_by_id is None,
{
    CreatePlayerRequest {
        user_id: user.id,
        username: clone_text(&user.username),
        first_name: Some(user.first_name.clone()),
        referral_code: None,
        referred_by_id: None,
    }
}

/// The answer to a successful login.
pub fn auth_response(token: String, expires_at: usize, user: TelegramUser) -> (r: AuthResponse)
    ensures
        r.token == token,
        r.expires_at == expires_at,
        r.user_id == user.id,
        r.user == user,
{
    let user_id = user.id;
    AuthResponse { token, user, expires_at, user_id }
}

fn copy_user(u: &TelegramUser) -> (r: TelegramUser)
    ensures
        r == *u,
{
    TelegramUser {
        id: u.id,
        first_name: u.first_name.clone(),
        last_name: clone_text(&u.last_name),
        username: clone_text(&u.username),
        language_code: clone_text(&u.language_code),
    }
}

/// The answer to a login whose init data fails the check with bot token
/// `token`: what `login_gate` makes of the outcome of `verify_init_data`.
pub open spec fn login_refusal(e: AppError, token: Seq<char>, init_data: Seq<char>) -> bool {
    match init_params(init_data) {
        Err(d) => e matches AppError::Internal(m) && m@ == "verify_init_data error: "@ + ("Internal error: "@ + d),
        Ok(m) => if m.contains_key("hash"@) {
            e matches AppError::Authentication(x) && x@ == "Invalid Telegram data"@
        } else {
            e matches AppError::Internal(x)
                && x@ == "verify_init_data error: "@ + ("Authentication error: "@ + "Hash not found in init data"@)
        },
    }
}

/// Where a login stands.
#[derive(Debug, Clone, Copy, PartialEq, Eq, Structural)]
pub enum LoginState {
    /// Waiting to learn whether the player is stored.
    AwaitPlayer,
    /// Waiting for the new player to be created.
    AwaitCreate,
    /// Waiting for the user's token.
    AwaitToken,
    /// The login is answered.
    Finished,
}

/// The outcome of the last call of a login.
pub enum LoginEvent {
    /// Whether the database holds the player.
    Loaded(Result<bool, AppError>),
    Created(Result<(), AppError>),
    /// A signed token and its expiry.
    Token(Result<(String, usize), AppError>),
}

/// The next call of a login, or its answer.
pub enum LoginAction {
    /// Look the player with this id up.
    LoadPlayer(i64),
    /// Create this player.
    CreatePlayer(CreatePlayerRequest),
    /// Sign a token for this user id.
    IssueToken(i64),
    /// Answer the request.
    Respond(Result<AuthResponse, AppError>),
}

pub open spec fn login_event_fits(s: LoginState, e: LoginEvent) -> bool {
    match (s, e) {
        (LoginState::AwaitPlayer, LoginEvent::Loaded(_)) => true,
        (LoginState::AwaitCreate, LoginEvent::Created(_)) => true,
        (LoginState::AwaitToken, LoginEvent::Token(_)) => true,
        _ => false,
    }
}

pub open spec fn login_rank(s: LoginState) -> nat {
    match s {
        LoginState::AwaitPlayer => 3,
        LoginState::AwaitCreate => 2,
        LoginState::AwaitToken => 1,
        LoginState::Finished => 0,
    }
}

/// A login in progress: the Telegram user it is for, the init data and bot
/// token it was checked with, and the step it is at.
pub struct Login {
    state: LoginState,
    user: TelegramUser,
    init_data: Ghost<Seq<char>>,
    bot_token: Ghost<Seq<char>>,
}

impl Login {
    pub closed spec fn state(&self) -> LoginState {
        self.state
    }

    pub closed spec fn user(&self) -> TelegramUser {
        self.user
    }

    /// The init data that the login was checked on.
    pub closed spec fn init_data(&self) -> Seq<char> {
        self.init_data@
    }

    /// The bot token that the login was checked with.
    pub closed spec fn bot_token(&self) -> Seq<char> {
        self.bot_token@
    }

    /// A login that is not answered yet has passed the init-data check.
    pub closed spec fn wf(&self) -> bool {
        self.state != LoginState::Finished ==> accepted(self.bot_token@, self.init_data@)
    }

    /// Starts a login: checks the init data with the bot's token. Data that
    /// passes goes on to the player lookup; other data is answered with the
    /// refusal of `login_gate`.
    pub fn start(service: &TelegramService, request: AuthRequest) -> (r: (Login, LoginAction))
        ensures
            r.0.wf(),
            r.0.user() == request.user,
            r.0.init_data() == request.init_data@,
            r.0.bot_token() == service.token(),
            accepted(service.token(), request.init_data@) ==> {
                &&& r.0.state() == LoginState::AwaitPlayer
                &&& r.1 == LoginAction::LoadPlayer(request.user.id)
            },
            !accepted(service.token(), request.init_data@) ==> {
                &&& r.0.state() == LoginState::Finished
                &&& r.1 matches LoginAction::Respond(Err(e)) && login_refusal(e, service.token(), request.init_data@)
            },
    {
        let verdict = service.verify_init_data(request.init_data.as_str());
        let ghost init = request.init_data@;
        let ghost token = service.token();
        let gate = login_gate(verdict);
        let user = request.user;
        let id = user.id;
        match gate {
            Ok(()) => {
                let login = Login { state: LoginState::AwaitPlayer, user, init_data: Ghost(init), bot_token: Ghost(token) };
                (login, LoginAction::LoadPlayer(id))
            },
            Err(e) => {
                let login = Login { state: LoginState::Finished, user, init_data: Ghost(init), bot_token: Ghost(token) };
                (login, LoginAction::Respond(Err(e)))
            },
        }
    }

    /// One step of a login. A player unknown to the database is created
    /// first; then a token is signed for the user and the login answered
    /// with it. A failed call answers its error. A token is only ever asked
    /// for a login whose init data passed the check.
    pub fn step(&mut self, e: LoginEvent) -> (r: LoginAction)
        requires
            old(self).wf(),
            login_event_fits(old(self).state(), e),
        ensures
            final(self).wf(),
            final(self).user() == old(self).user(),
            final(self).init_data() == old(self).init_data(),
            final(self).bot_token() == old(self).bot_token(),
            login_rank(final(self).state()) < login_rank(old(self).state()),
            (r is Respond) <==> (final(self).state() == LoginState::Finished),
            r is IssueToken ==> accepted(old(self).bot_token(), old(self).init_data())
                && r == LoginAction::IssueToken(old(self).user().id),
            match e {
                LoginEvent::Loaded(Ok(true)) => final(self).state() == LoginState::AwaitToken
                    && r == LoginAction::IssueToken(old(self).user().id),
                LoginEvent::Loaded(Ok(false)) => final(self).state() == LoginState::AwaitCreate
                    && (r matches LoginAction::CreatePlayer(req) && {
                        let u = old(self).user();
                        &&& req.user_id == u.id
                        &&& req.username == u.username
                        &&& req.first_name == Some(u.first_name)
                        &&& req.referral_code is None
                        &&& req.referred_by_id is None
                    }),
                LoginEvent::Created(Ok(())) => final(self).state() == LoginState::AwaitToken
                    && r == LoginAction::IssueToken(old(self).user().id),
                LoginEvent::Token(Ok((token, exp))) => r matches LoginAction::Respond(Ok(resp)) && {
                    &&& resp.token == token
                    &&& resp.expires_at == exp
                    &&& resp.user == old(self).user()
                    &&& resp.user_id == old(self).user().id
                },
                LoginEvent::Loaded(Err(err)) => r == LoginAction::Respond(Err(err)),
                LoginEvent::Created(Err(err)) => r == LoginAction::Respond(Err(err)),
                LoginEvent::Token(Err(err)) => r == LoginAction::Respond(Err(err)),
            },
    {
        let id = self.user.id;
        match e {
            LoginEvent::Loaded(Ok(true)) => {
                self.state = LoginState::AwaitToken;
                LoginAction::IssueToken(id)
            },
            LoginEvent::Loaded(Ok(false)) => {
                self.state = LoginState::AwaitCreate;
                LoginAction::CreatePlayer(new_player_request(&self.user))
            },
            LoginEvent::Created(Ok(())) => {
                self.state = LoginState::AwaitToken;
                LoginAction::IssueToken(id)
            },
            LoginEvent::Token(Ok((token, exp))) => {
                self.state = LoginState::Finished;
                LoginAction::Respond(Ok(auth_response(token, exp, copy_user(&self.user))))
            },
            LoginEvent::Loaded(Err(err)) => {
                self.state = LoginState::Finished;
                LoginAction::Respond(Err(err))
            },
            LoginEvent::Created(Err(err)) => {
                self.state = LoginState::Finished;
                LoginAction::Respond(Err(err))
            },
            LoginEvent::Token(Err(err)) => {
                self.state = LoginState::Finished;
                LoginAction::Respond(Err(err))
            },
        }
    }
}

/// Where a session sync stands.
pub enum SyncState {
    /// Waiting for the cached stats, with energy regenerated.
    AwaitRegen,
    /// The cache missed; waiting for the stored player.
    AwaitPlayer,
    /// Waiting for the cache to be filled from the stored player.
    AwaitWarm,
    /// Waiting for the regenerated stats of the filled cache.
    AwaitRegenAfterWarm,
    /// Waiting for a new player to be created.
    AwaitCreate,
    /// Waiting for the new player's cached stats.
    AwaitStats,
    /// The sync is answered.
    Finished,
}

/// The outcome of the last call of a session sync.
pub enum SyncEvent {
    Regen(Result<UserStats, AppError>),
    Loaded(Result<Option<Player>, AppError>),
    Warmed(Result<(), AppError>),
    Created(Result<(), AppError>),
    Stats(Result<UserStats, AppError>),
}

/// The next call of a session sync, or its answer.
pub enum SyncAction {
    /// Read the cached stats, regenerating energy.
    RegenStats,
    /// Read the stored player.
    LoadPlayer,
    /// Fill the cache with this score and energy.
    WarmCache { score: i64, energy: i32 },
    /// Create this player.
    CreatePlayer(CreatePlayerRequest),
    /// Read the cached stats as they are.
    ReadStats,
    /// Answer the request.
    Respond(Result<SyncResponse, AppError>),
}

pub open spec fn sync_event_fits(s: SyncState, e: SyncEvent) -> bool {
    match (s, e) {
        (SyncState::AwaitRegen, SyncEvent::Regen(_)) => true,
        (SyncState::AwaitPlayer, SyncEvent::Loaded(_)) => true,
        (SyncState::AwaitWarm, SyncEvent::Warmed(_)) => true,
        (SyncState::AwaitRegenAfterWarm, SyncEvent::Regen(_)) => true,
        (SyncState::AwaitCreate, SyncEvent::Created(_)) => true,
        (SyncState::AwaitStats, SyncEvent::Stats(_)) => true,
        _ => false,
    }
}

pub open spec fn sync_rank(s: SyncState) -> nat {
    match s {
        SyncState::AwaitRegen => 4,
        SyncState::AwaitPlayer => 3,
        SyncState::AwaitWarm => 2,
        SyncState::AwaitCreate => 2,
        SyncState::AwaitRegenAfterWarm => 1,
        SyncState::AwaitStats => 1,
        SyncState::Finished => 0,
    }
}

/// The first step of a session sync: read the cached stats with regen.
pub fn sync_start() -> (r: (SyncState, SyncAction))
    ensures
        r.0 is AwaitRegen,
        r.1 is RegenStats,
{
    (SyncState::AwaitRegen, SyncAction::RegenStats)
}

fn sync_answer(user_id: i64, stats: UserStats, is_new_user: bool) -> (r: SyncAction)
    ensures
        r == SyncAction::Respond(Ok(SyncResponse { user_id, score: stats.score, energy: stats.energy, is_new_user })),
{
    SyncAction::Respond(Ok(SyncResponse { user_id, score: stats.score, energy: stats.energy, is_new_user }))
}

/// One step of the session sync of user `user_id`. A cache hit answers at
/// once; on a miss a stored player is loaded into the cache and its
/// regenerated stats answered; a user unknown to the database is created
/// and answered as new. Any failed call after the first answers its error.
pub fn sync_step(user_id: i64, s: SyncState, e: SyncEvent) -> (r: (SyncState, SyncAction))
    requires
        sync_event_fits(s, e),
    ensures
        sync_rank(r.0) < sync_rank(s),
        (r.1 is Respond) <==> (r.0 is Finished),
        match (s, e) {
            (SyncState::AwaitRegen, SyncEvent::Regen(Ok(st))) =>
                r.1 == SyncAction::Respond(Ok(SyncResponse { user_id, score: st.score, energy: st.energy, is_new_user: false })),
            (SyncState::AwaitRegen, SyncEvent::Regen(Err(_))) => r.0 is AwaitPlayer && r.1 is LoadPlayer,
            (SyncState::AwaitPlayer, SyncEvent::Loaded(Ok(Some(p)))) => r.0 is AwaitWarm
                && r.1 == (SyncAction::WarmCache {
                    score: match p.score { Some(v) => v, None => 0 },
                    energy: match p.energy { Some(v) => v, None => DEFAULT_ENERGY },
                }),
            (SyncState::AwaitPlayer, SyncEvent::Loaded(Ok(None))) => r.0 is AwaitCreate
                && (r.1 matches SyncAction::CreatePlayer(req) && req.user_id == user_id && req.username is None
                    && req.first_name is None && req.referral_code is None && req.referred_by_id is None),
            (SyncState::AwaitWarm, SyncEvent::Warmed(Ok(()))) => r.0 is AwaitRegenAfterWarm && r.1 is RegenStats,
            (SyncState::AwaitRegenAfterWarm, SyncEvent::Regen(Ok(st))) =>
                r.1 == SyncAction::Respond(Ok(SyncResponse { user_id, score: st.score, energy: st.energy, is_new_user: false })),
            (SyncState::AwaitCreate, SyncEvent::Created(Ok(()))) => r.0 is AwaitStats && r.1 is ReadStats,
            (SyncState::AwaitStats, SyncEvent::Stats(Ok(st))) =>
                r.1 == SyncAction::Respond(Ok(SyncResponse { user_id, score: st.score, energy: st.energy, is_new_user: true })),
            (_, SyncEvent::Loaded(Err(err))) => r.1 == SyncAction::Respond(Err(err)),
            (_, SyncEvent::Warmed(Err(err))) => r.1 == SyncAction::Respond(Err(err)),
            (_, SyncEvent::Regen(Err(err))) => r.1 == SyncAction::Respond(Err(err)),
            (_, SyncEvent::Created(Err(err))) => r.1 == SyncAction::Respond(Err(err)),
            (_, SyncEvent::Stats(Err(err))) => r.1 == SyncAction::Respond(Err(err)),
            _ => false,
        },
        r.1 is CreatePlayer ==> (s is AwaitPlayer && e matches SyncEvent::Loaded(Ok(None))),
        (r.1 matches SyncAction::Respond(Ok(resp)) && resp.is_new_user) ==> s is AwaitStats,
{
    match (s, e) {
        (SyncState::AwaitRegen, SyncEvent::Regen(Ok(st))) => (SyncState::Finished, sync_answer(user_id, st, false)),
        (SyncState::AwaitRegen, SyncEvent::Regen(Err(_))) => (SyncState::AwaitPlayer, SyncAction::LoadPlayer),
        (SyncState::AwaitPlayer, SyncEvent::Loaded(Ok(Some(p)))) => {
            let score = match p.score { Some(v) => v, None => 0 };
            let energy = match p.energy { Some(v) => v, None => DEFAULT_ENERGY };
            (SyncState::AwaitWarm, SyncAction::WarmCache { score, energy })
        },
        (SyncState::AwaitPlayer, SyncEvent::Loaded(Ok(None))) => (SyncState::AwaitCreate, SyncAction::CreatePlayer(CreatePlayerRequest {
            user_id,
            username: None,
            first_name: None,
            referral_code: None,
            referred_by_id: None,
        })),
        (SyncState::AwaitWarm, SyncEvent::Warmed(Ok(()))) => (SyncState::AwaitRegenAfterWarm, SyncAction::RegenStats),
        (SyncState::AwaitRegenAfterWarm, SyncEvent::Regen(Ok(st))) => (SyncState::Finished, sync_answer(user_id, st, false)),
        (SyncState::AwaitCreate, SyncEvent::Created(Ok(()))) => (SyncState::AwaitStats, SyncAction::ReadStats),
        (SyncState::AwaitStats, SyncEvent::Stats(Ok(st))) => (SyncState::Finished, sync_answer(user_id, st, true)),
        (_, SyncEvent::Loaded(Err(err))) => (SyncState::Finished, SyncAction::Respond(Err(err))),
        (_, SyncEvent::Warmed(Err(err))) => (SyncState::Finished, SyncAction::Respond(Err(err))),
        (_, SyncEvent::Regen(Err(err))) => (SyncState::Finished, SyncAction::Respond(Err(err))),
        (_, SyncEvent::Created(Err(err))) => (SyncState::Finished, SyncAction::Respond(Err(err))),
        (_, SyncEvent::Stats(Err(err))) => (SyncState::Finished, SyncAction::Respond(Err(err))),
        _ => (SyncState::Finished, SyncAction::Respond(Err(AppError::Internal("unexpected sync step".to_owned())))),
    }
}

} // verus!
