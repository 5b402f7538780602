use vstd::prelude::*;

pub mod access;
pub mod auto_presets;
pub mod config;
pub mod cooldowns;
pub mod evidence_manage;
pub mod evidence_pick;
pub mod evidence_state;
pub mod evidence_text;
pub mod guild_notifs;
pub mod guild_view;
pub mod info_text;
pub mod minecraft;
pub mod notices;
pub mod review_blocks;
pub mod review_forms;
pub mod review_guard;
pub mod review_messages;
pub mod review_pings;
pub mod review_scores;
pub mod review_state;
pub mod review_text;
pub mod review_votes;
pub mod prestige;
pub mod rate_limit;
pub mod session_delta;
pub mod session_menu;
pub mod session_state;
pub mod stats_text;
pub mod strikes;
pub mod sync_jobs;
pub mod sync_rules;
pub mod tag_history;
pub mod tag_posts;
pub mod tag_text;
pub mod text;
pub mod thread_index;
pub mod upload_plan;
pub mod verify_code;
pub mod vote_store;
pub mod watch;

verus! {

} // verus!
