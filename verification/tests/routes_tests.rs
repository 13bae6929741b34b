use tap_game::errors::AppError;
use tap_game::models::player::Player;
use hmac::{Hmac, Mac};
use sha2::Sha256;
use tap_game::models::telegram::{AuthRequest, TelegramUser};
use tap_game::services::telegram::TelegramService;
use tap_game::routes::{Login, LoginAction, LoginEvent};
use tap_game::repositories::DatabaseHealth;
use tap_game::routes::{auth_response, health_report, login_gate, new_player_request, player_response, sync_start, sync_step, tap_batch_response, tap_sums_fit, user_lookup, validate_tap_batch, SyncAction, SyncEvent, SyncResponse, SyncState, SystemMetrics, TapBatchRequest, TapEvent};
use tap_game::services::redis_service::{RedisHealth, TapResult, UserStats};
use tap_game::state::AppMetrics;

fn batch(taps: &[(i32, i32)]) -> TapBatchRequest {
    TapBatchRequest {
        taps: taps.iter().map(|&(count, energy_cost)| TapEvent { count, energy_cost }).collect(),
        timestamp: 0,
    }
}

#[test]
fn tap_batch_sizes() {
    assert_eq!(
        validate_tap_batch(&batch(&[])),
        Err(AppError::Validation("Invalid tap batch size (1-50)".to_string()))
    );
    let big: Vec<(i32, i32)> = vec![(1, 1); 51];
    assert_eq!(
        validate_tap_batch(&batch(&big)),
        Err(AppError::Validation("Invalid tap batch size (1-50)".to_string()))
    );
    let fifty: Vec<(i32, i32)> = vec![(1, 2); 50];
    assert_eq!(validate_tap_batch(&batch(&fifty)), Ok((50, 100)));
}

#[test]
fn tap_totals_must_be_positive() {
    assert_eq!(validate_tap_batch(&batch(&[(3, 1), (4, 2)])), Ok((7, 3)));
    assert_eq!(
        validate_tap_batch(&batch(&[(0, 1)])),
        Err(AppError::Validation("Tap count must be positive".to_string()))
    );
    assert_eq!(
        validate_tap_batch(&batch(&[(5, 0), (-5, 0)])),
        Err(AppError::Validation("Tap count must be positive".to_string()))
    );
    assert_eq!(validate_tap_batch(&batch(&[(5, -3)])), Ok((5, -3)));
}

#[test]
fn tap_sums_overflow_is_detected() {
    assert!(tap_sums_fit(&batch(&[(i32::MAX, 0)]).taps));
    assert!(!tap_sums_fit(&batch(&[(i32::MAX, 0), (1, 0)]).taps));
    assert!(!tap_sums_fit(&batch(&[(0, i32::MIN), (0, -1)]).taps));
    assert!(tap_sums_fit(&batch(&[(i32::MAX, 0), (1, 0), (-1, 0)]).taps) == false);
}

#[test]
fn tap_response_shape() {
    let r = tap_batch_response(7, TapResult { new_score: 70, new_energy: 993 });
    assert!(r.success);
    assert_eq!(r.processed_taps, 7);
    assert_eq!(r.current_score, 70);
    assert_eq!(r.current_energy, 993);
    assert_eq!(r.message, "Taps processed successfully");
}

fn player(score: Option<i64>, energy: Option<i32>) -> Player {
    Player {
        user_id: 9,
        username: Some("neo".to_string()),
        first_name: None,
        auth_date: 1,
        level: None,
        score,
        energy,
        max_energy: Some(1000),
        energy_last_recharged: None,
        tap_value: None,
        energy_recharge_rate: Some(2),
        referral_code: None,
        referred_by_id: None,
        last_seen: Some(1_700_000_000_000),
    }
}

#[test]
fn player_response_defaults() {
    let r = player_response(&player(None, None));
    assert_eq!(r.user_id, 9);
    assert_eq!(r.username.as_deref(), Some("neo"));
    assert_eq!(r.score, 0);
    assert_eq!(r.level, 1);
    assert_eq!(r.energy, 0);
    assert_eq!(r.max_energy, 1000);
    assert_eq!(r.tap_value, 0);
    assert_eq!(r.energy_recharge_rate, 2);
    assert_eq!(r.last_seen, Some(1_700_000_000_000));
}

#[test]
fn unknown_user_lookup() {
    match user_lookup(77, None) {
        Err(AppError::Auth(m)) => assert_eq!(m, "User with id 77 not found"),
        _ => panic!("expected auth error"),
    }
    assert_eq!(user_lookup(9, Some(player(Some(5), Some(6)))).unwrap().score, 5);
}

#[test]
fn health_needs_both_stores() {
    let m = AppMetrics { total_requests: 3, ..AppMetrics::default() };
    let redis = Some(RedisHealth { is_healthy: true, response_time_ms: 2, pool_size: 5, available_connections: 4 });
    let db = Some(DatabaseHealth { is_healthy: true, response_time_ms: 7, active_connections: 0, idle_connections: 0 });
    let (code, r) = health_report(redis, db, &m, 123);
    assert_eq!(code, 200);
    assert_eq!(r.status, "healthy");
    assert_eq!(r.timestamp, 123);
    assert_eq!(r.services.redis_response_time_ms, 2);
    assert_eq!(r.services.scylla_response_time_ms, 7);
    assert_eq!(r.metrics.total_requests, 3);
    let (code, r) = health_report(redis, None, &m, 5);
    assert_eq!(code, 503);
    assert_eq!(r.status, "unhealthy");
    assert!(!r.services.scylla);
    assert_eq!(r.services.scylla_response_time_ms, 0);
}

#[test]
fn metrics_snapshot() {
    let m = AppMetrics { failed_requests: 4, circuit_breaker_trips: 2, ..AppMetrics::default() };
    let s = SystemMetrics::from_metrics(&m);
    assert_eq!(s.failed_requests, 4);
    assert_eq!(s.circuit_breaker_trips, 2);
}

#[test]
fn login_gate_outcomes() {
    assert_eq!(login_gate(Ok(true)), Ok(()));
    assert_eq!(
        login_gate(Ok(false)),
        Err(AppError::Authentication("Invalid Telegram data".to_string()))
    );
    assert_eq!(
        login_gate(Err(AppError::Auth("Hash not found in init data".to_string()))),
        Err(AppError::Internal(
            "verify_init_data error: Authentication error: Hash not found in init data".to_string()
        ))
    );
}

#[test]
fn first_login_player_and_answer() {
    let u = TelegramUser {
        id: 5,
        first_name: "Ann".to_string(),
        last_name: None,
        username: Some("ann".to_string()),
        language_code: None,
    };
    let req = new_player_request(&u);
    assert_eq!(req.user_id, 5);
    assert_eq!(req.first_name.as_deref(), Some("Ann"));
    assert_eq!(req.username.as_deref(), Some("ann"));
    assert!(req.referral_code.is_none() && req.referred_by_id.is_none());
    let resp = auth_response("tok".to_string(), 99, u);
    assert_eq!(resp.user_id, 5);
    assert_eq!(resp.expires_at, 99);
    assert_eq!(resp.token, "tok");
}

#[test]
fn sync_cache_hit() {
    let (s, a) = sync_start();
    assert!(matches!(a, SyncAction::RegenStats));
    let (s, a) = sync_step(3, s, SyncEvent::Regen(Ok(UserStats { score: 10, energy: 20 })));
    assert!(matches!(s, SyncState::Finished));
    match a {
        SyncAction::Respond(Ok(r)) => assert!(r.user_id == 3 && r.score == 10 && r.energy == 20 && !r.is_new_user),
        _ => panic!("expected an answer"),
    }
}

#[test]
fn sync_returning_player() {
    let (s, _) = sync_start();
    let (s, a) = sync_step(3, s, SyncEvent::Regen(Err(AppError::Redis("miss".to_string()))));
    assert!(matches!(a, SyncAction::LoadPlayer));
    let (s, a) = sync_step(3, s, SyncEvent::Loaded(Ok(Some(player(None, Some(7))))));
    assert!(matches!(a, SyncAction::WarmCache { score: 0, energy: 7 }));
    let (s, a) = sync_step(3, s, SyncEvent::Warmed(Ok(())));
    assert!(matches!(a, SyncAction::RegenStats));
    let (s, a) = sync_step(3, s, SyncEvent::Regen(Ok(UserStats { score: 0, energy: 9 })));
    assert!(matches!(s, SyncState::Finished));
    assert!(matches!(a, SyncAction::Respond(Ok(SyncResponse { energy: 9, is_new_user: false, .. }))));
}

#[test]
fn sync_new_player() {
    let (s, _) = sync_start();
    let (s, _) = sync_step(4, s, SyncEvent::Regen(Err(AppError::Redis("miss".to_string()))));
    let (s, a) = sync_step(4, s, SyncEvent::Loaded(Ok(None)));
    match a {
        SyncAction::CreatePlayer(req) => assert!(req.user_id == 4 && req.username.is_none() && req.first_name.is_none()),
        _ => panic!("expected creation"),
    }
    let (s, a) = sync_step(4, s, SyncEvent::Created(Ok(())));
    assert!(matches!(a, SyncAction::ReadStats));
    let (_, a) = sync_step(4, s, SyncEvent::Stats(Ok(UserStats { score: 0, energy: 1000 })));
    assert!(matches!(a, SyncAction::Respond(Ok(SyncResponse { user_id: 4, energy: 1000, is_new_user: true, .. }))));
}

#[test]
fn sync_errors_are_answered() {
    let (s, _) = sync_start();
    let (s, _) = sync_step(4, s, SyncEvent::Regen(Err(AppError::Redis("miss".to_string()))));
    let (s, a) = sync_step(4, s, SyncEvent::Loaded(Err(AppError::Internal("db".to_string()))));
    assert!(matches!(s, SyncState::Finished));
    match a {
        SyncAction::Respond(Err(e)) => assert_eq!(e, AppError::Internal("db".to_string())),
        _ => panic!("expected the error"),
    }
}

const BOT: &str = "42:SECRET";

fn signed(check_string: &str) -> String {
    let mut m = <Hmac<Sha256> as Mac>::new_from_slice(b"WebAppData").unwrap();
    m.update(BOT.as_bytes());
    let secret = m.finalize().into_bytes().to_vec();
    let mut m = <Hmac<Sha256> as Mac>::new_from_slice(&secret).unwrap();
    m.update(check_string.as_bytes());
    hex::encode(m.finalize().into_bytes())
}

fn ann() -> TelegramUser {
    TelegramUser {
        id: 5,
        first_name: "Ann".to_string(),
        last_name: None,
        username: Some("ann".to_string()),
        language_code: Some("en".to_string()),
    }
}

fn login_with(init_data: String) -> (Login, LoginAction) {
    Login::start(&TelegramService::new(BOT.to_string()), AuthRequest { init_data, user: ann() })
}

#[test]
fn login_creates_a_missing_player_then_issues_a_token() {
    let h = signed("auth_date=1\nuser=ann");
    let (mut login, a) = login_with(format!("user=ann&auth_date=1&hash={h}"));
    assert!(matches!(a, LoginAction::LoadPlayer(5)));
    match login.step(LoginEvent::Loaded(Ok(false))) {
        LoginAction::CreatePlayer(req) => {
            assert_eq!(req.user_id, 5);
            assert_eq!(req.first_name.as_deref(), Some("Ann"));
            assert_eq!(req.username.as_deref(), Some("ann"));
            assert!(req.referral_code.is_none() && req.referred_by_id.is_none());
        }
        _ => panic!("expected the player to be created"),
    }
    assert!(matches!(login.step(LoginEvent::Created(Ok(()))), LoginAction::IssueToken(5)));
    match login.step(LoginEvent::Token(Ok(("tok".to_string(), 99)))) {
        LoginAction::Respond(Ok(resp)) => {
            assert_eq!(resp.token, "tok");
            assert_eq!(resp.expires_at, 99);
            assert_eq!(resp.user_id, 5);
            assert_eq!(resp.user.first_name, "Ann");
            assert_eq!(resp.user.language_code.as_deref(), Some("en"));
        }
        _ => panic!("expected an answer with the token"),
    }
}

#[test]
fn login_of_a_known_player_goes_straight_to_the_token() {
    let h = signed("a=1");
    let (mut login, a) = login_with(format!("a=1&hash={h}"));
    assert!(matches!(a, LoginAction::LoadPlayer(5)));
    assert!(matches!(login.step(LoginEvent::Loaded(Ok(true))), LoginAction::IssueToken(5)));
}

#[test]
fn login_refuses_data_that_fails_the_check() {
    let h = signed("a=1");
    let (_, a) = login_with(format!("a=2&hash={h}"));
    match a {
        LoginAction::Respond(Err(e)) => {
            assert_eq!(e, AppError::Authentication("Invalid Telegram data".to_string()))
        }
        _ => panic!("expected a refusal"),
    }
    let (_, a) = login_with("a=1".to_string());
    match a {
        LoginAction::Respond(Err(e)) => assert_eq!(
            e,
            AppError::Internal("verify_init_data error: Authentication error: Hash not found in init data".to_string())
        ),
        _ => panic!("expected a refusal"),
    }
    let (_, a) = login_with("a=%FF&hash=00".to_string());
    match a {
        LoginAction::Respond(Err(AppError::Internal(m))) => {
            assert!(m.starts_with("verify_init_data error: Internal error: "), "{m}")
        }
        _ => panic!("expected an internal error"),
    }
}

#[test]
fn login_answers_a_failed_call_with_its_error() {
    let h = signed("a=1");
    let (mut login, _) = login_with(format!("a=1&hash={h}"));
    let err = AppError::Internal("db down".to_string());
    match login.step(LoginEvent::Loaded(Err(err.clone()))) {
        LoginAction::Respond(Err(e)) => assert_eq!(e, err),
        _ => panic!("expected the error"),
    }
}
