use tap_game::errors::AppError;
use tap_game::models::player::{CreatePlayerRequest, UserScoreUpdate};
use tap_game::models::shop::{PlayerItem, PurchaseItemRequest};
use tap_game::repositories::{purchase_write, PurchaseWrite, item_id_from_random, new_player_row, new_shop_item_id, new_task_id, rank_entries, rank_from_count, score_after_increment, upsert_batches};

#[test]
fn new_player_defaults() {
    let p = new_player_row(
        CreatePlayerRequest {
            user_id: 8,
            username: Some("u".into()),
            first_name: None,
            referral_code: Some("R".into()),
            referred_by_id: Some(3),
        },
        1234,
    );
    assert_eq!(p.user_id, 8);
    assert_eq!(p.auth_date, 1234);
    assert_eq!(p.last_seen, Some(1234));
    assert_eq!((p.level, p.score, p.energy, p.max_energy), (Some(1), Some(0), Some(1000), Some(1000)));
    assert_eq!((p.tap_value, p.energy_recharge_rate), (Some(1), Some(1)));
    assert_eq!(p.referred_by_id, Some(3));
}

#[test]
fn score_increment_reads_null_as_zero() {
    assert_eq!(score_after_increment(Some(Some(10)), 5), Ok(15));
    assert_eq!(score_after_increment(Some(None), 5), Ok(5));
    assert_eq!(
        score_after_increment(None, 5),
        Err(AppError::Internal("No score row found".into()))
    );
}

#[test]
fn upserts_are_cut_into_batches_of_100() {
    let updates: Vec<UserScoreUpdate> = (0..250).map(|i| UserScoreUpdate { user_id: i, new_score: i * 2 }).collect();
    let b = upsert_batches(&updates);
    assert_eq!(b.iter().map(|c| c.len()).collect::<Vec<_>>(), vec![100, 100, 50]);
    let flat: Vec<i64> = b.iter().flatten().map(|u| u.user_id).collect();
    assert_eq!(flat, (0..250).collect::<Vec<i64>>());
    assert!(upsert_batches(&vec![]).is_empty());
    assert_eq!(upsert_batches(&updates[..100].to_vec()).len(), 1);
}

#[test]
fn leaderboard_ranks_follow_row_order() {
    let rows = vec![(0, 11, Some("a".to_string()), 900), (0, 12, None, 800), (0, 13, None, 700)];
    let r = rank_entries(&rows);
    assert_eq!(r.iter().map(|e| e.rank).collect::<Vec<_>>(), vec![1, 2, 3]);
    assert_eq!(r[0].username.as_deref(), Some("a"));
    assert_eq!(r[2].user_id, 13);
    assert_eq!(r[1].score, 800);
}

#[test]
fn rank_is_one_more_than_the_count() {
    assert_eq!(rank_from_count(Some(0)), Some(1));
    assert_eq!(rank_from_count(Some(41)), Some(42));
    assert_eq!(rank_from_count(None), None);
    assert_eq!(rank_from_count(Some(i32::MAX as i64)), Some(i32::MIN));
}

#[test]
fn shop_item_ids() {
    assert_eq!(item_id_from_random(-5), 5);
    assert_eq!(item_id_from_random(5), 5);
    assert_eq!(item_id_from_random(i32::MIN), i32::MIN);
    for _ in 0..100 {
        let id = new_shop_item_id();
        assert!(id >= 0 || id == i32::MIN);
    }
}

#[test]
fn task_ids_are_v4_uuids() {
    for _ in 0..20 {
        let id = uuid::Uuid::from_u128(new_task_id());
        assert_eq!(id.get_version_num(), 4);
        assert_eq!(id.get_variant(), uuid::Variant::RFC4122);
    }
}

#[test]
fn purchase_sets_quantity_of_owned_item_and_inserts_new_one() {
    let req = PurchaseItemRequest { user_id: 4, item_id: 17, quantity: 3 };
    let owned = Some(PlayerItem { user_id: 4, item_id: 17, quantity: Some(9), purchase_date: Some(5), is_active: Some(true) });
    assert_eq!(
        purchase_write(&req, &owned, 1000),
        PurchaseWrite::SetQuantity { user_id: 4, item_id: 17, quantity: 3 }
    );
    assert_eq!(
        purchase_write(&req, &None, 1000),
        PurchaseWrite::Insert { user_id: 4, item_id: 17, quantity: 3, purchase_date_ms: 1000, is_active: false }
    );
}

#[test]
fn bulk_upsert_reports_the_first_failed_batch() {
    assert_eq!(tap_game::repositories::combine_batch_results(&vec![Ok(()), Ok(())]), Ok(()));
    assert_eq!(tap_game::repositories::combine_batch_results(&vec![]), Ok(()));
    assert_eq!(
        tap_game::repositories::combine_batch_results(&vec![Ok(()), Err("x".to_string()), Err("y".to_string())]),
        Err("Batch upsert failed: x".to_string())
    );
}
