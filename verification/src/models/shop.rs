//! Shop items and the items that players own.

use vstd::prelude::*;
use std::collections::HashMap;

verus! {

/// An item for sale in a shop category.
#[derive(Debug, Clone)]
pub struct ShopItem {
    pub category: String,
    pub item_id: i32,
    pub name: Option<String>,
    pub description: Option<String>,
    pub price: Option<i64>,
    pub effects: Option<HashMap<String, String>>,
}

/// An item that a player owns.
#[derive(Debug, Clone, Copy)]
pub struct PlayerItem {
    pub user_id: i64,
    pub item_id: i32,
    pub quantity: Option<i32>,
    pub purchase_date: Option<i64>,
    pub is_active: Option<bool>,
}

/// A new shop item.
#[derive(Debug, Clone)]
pub struct CreateShopItemRequest {
    pub category: String,
    pub name: String,
    pub description: Option<String>,
    pub price: i64,
    pub effects: Option<HashMap<String, String>>,
}

/// A player buying some quantity of an item.
#[derive(Debug, Clone, Copy)]
pub struct PurchaseItemRequest {
    pub user_id: i64,
    pub item_id: i32,
    pub quantity: i32,
}

} // verus!
