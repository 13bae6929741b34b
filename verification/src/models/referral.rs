//! Referral rows.

use vstd::prelude::*;

verus! {

/// One user referred by another.
#[derive(Debug, Clone, Copy)]
pub struct Referral {
    pub referrer_id: i64,
    pub referred_user_id: i64,
    pub referral_date: Option<i64>,
}

} // verus!
