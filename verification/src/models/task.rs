//! Tasks and players' progress on them. Task ids are UUIDs, held as their
//! 128-bit value.

use vstd::prelude::*;

verus! {

/// A task that players can complete for a reward.
#[derive(Debug, Clone)]
pub struct Task {
    pub task_type: String,
    pub task_id: u128,
    pub title: Option<String>,
    pub description: Option<String>,
    pub completion_target: Option<i32>,
    pub reward_score: Option<i64>,
}

/// A player's progress on a task; times are milliseconds since the epoch.
#[derive(Debug, Clone, Copy)]
pub struct PlayerTask {
    pub user_id: i64,
    pub task_id: u128,
    pub progress: Option<i32>,
    pub completed_at: Option<i64>,
    pub claimed_at: Option<i64>,
}

/// A new task.
#[derive(Debug, Clone)]
pub struct CreateTaskRequest {
    pub task_type: String,
    pub title: String,
    pub description: Option<String>,
    pub completion_target: i32,
    pub reward_score: i64,
}

/// New progress of a player on a task.
#[derive(Debug, Clone, Copy)]
pub struct UpdateTaskProgressRequest {
    pub user_id: i64,
    pub task_id: u128,
    pub progress: i32,
}

/// A task together with a player's progress on it.
#[derive(Debug, Clone)]
pub struct TaskResponse {
    pub task_id: u128,
    pub task_type: String,
    pub title: String,
    pub description: Option<String>,
    pub completion_target: i32,
    pub reward_score: i64,
    pub progress: Option<i32>,
    pub completed: bool,
    pub claimed: bool,
}

} // verus!
