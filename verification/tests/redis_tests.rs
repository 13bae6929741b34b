use tap_game::models::player::UserScoreUpdate;
use tap_game::services::redis_service::{dlq_key, dlq_members, pair_dlq_scores, parse_dirty_scores, stats_from_fields, user_key, DIRTY_SET_KEY, DLQ_SET_KEY};

fn s(v: &[&str]) -> Vec<String> {
    v.iter().map(|x| x.to_string()).collect()
}

#[test]
fn keys_have_their_prefixes() {
    assert_eq!(user_key(42), "user:42");
    assert_eq!(user_key(-7), "user:-7");
    assert_eq!(dlq_key("42"), "dlq:user:42");
    assert_eq!(DIRTY_SET_KEY, "dirty_users");
    assert_eq!(DLQ_SET_KEY, "dlq_users");
}

#[test]
fn dirty_reply_is_read_in_pairs() {
    let r = parse_dirty_scores(&s(&["1", "100", "2", "x", "3", "300", "4"]));
    assert_eq!(r.len(), 2);
    assert_eq!((r[0].user_id, r[0].new_score), (1, 100));
    assert_eq!((r[1].user_id, r[1].new_score), (3, 300));
    assert!(parse_dirty_scores(&s(&[])).is_empty());
    assert!(parse_dirty_scores(&s(&["5"])).is_empty());
}

#[test]
fn dlq_scores_pair_with_members() {
    let ids = s(&["10", "bad", "30", "40"]);
    let scores = vec![Some(1), Some(2), None];
    let r = pair_dlq_scores(&ids, &scores);
    assert_eq!(r.len(), 1);
    assert_eq!((r[0].user_id, r[0].new_score), (10, 1));
}

#[test]
fn dlq_members_read_back_to_the_same_updates() {
    let updates = vec![
        UserScoreUpdate { user_id: 5, new_score: 50 },
        UserScoreUpdate { user_id: -1, new_score: 0 },
        UserScoreUpdate { user_id: i64::MAX, new_score: i64::MIN },
    ];
    let members = dlq_members(&updates);
    assert_eq!(members, vec!["5".to_string(), "-1".to_string(), i64::MAX.to_string()]);
    let scores: Vec<Option<i64>> = updates.iter().map(|u| Some(u.new_score)).collect();
    let back = pair_dlq_scores(&members, &scores);
    assert_eq!(back.len(), 3);
    for (a, b) in back.iter().zip(updates.iter()) {
        assert_eq!((a.user_id, a.new_score), (b.user_id, b.new_score));
    }
}

#[test]
fn cached_stats_defaults() {
    assert!(stats_from_fields(None, None).is_none());
    let st = stats_from_fields(Some(5), None).unwrap();
    assert_eq!((st.score, st.energy), (5, 1000));
    let st = stats_from_fields(None, Some(3)).unwrap();
    assert_eq!((st.score, st.energy), (0, 3));
}

#[test]
fn dlq_store_gives_back_what_was_moved() {
    let mut store: std::collections::HashMap<String, i64> = std::collections::HashMap::new();
    store.insert("9".to_string(), 1);
    let updates = vec![UserScoreUpdate { user_id: 9, new_score: 90 }, UserScoreUpdate { user_id: 3, new_score: 30 }];
    let members = dlq_members(&updates);
    for (m, u) in members.iter().zip(updates.iter()) {
        store.insert(m.clone(), u.new_score);
    }
    let scores: Vec<Option<i64>> = members.iter().map(|m| store.get(m).copied()).collect();
    let back = pair_dlq_scores(&members, &scores);
    assert_eq!(back.iter().map(|u| (u.user_id, u.new_score)).collect::<Vec<_>>(), vec![(9, 90), (3, 30)]);
}

#[test]
fn warmed_cache_reads_back_its_score_and_energy() {
    let s = stats_from_fields(Some(1234), Some(17)).unwrap();
    assert_eq!((s.score, s.energy), (1234, 17));
}
