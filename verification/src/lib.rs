//! Verified routing accounting for the X11 socket authority.

pub mod settlement;
pub mod number_custody;
pub mod ordered_home;
pub mod continuation_places;
pub mod request_barrier;
pub mod native_hold;
pub mod native_custody;
pub mod settling_release;
pub mod terminal_scan;
pub mod terminal_inventory;
pub mod key_emission;
pub mod maintenance;
pub mod keyed;
pub mod lifecycle;
pub mod admission;
pub mod producer_port;
pub mod runner;
pub mod ordered_turn;
pub mod ordered_continuation;
pub mod item_credit;
pub mod invocation_completion;
pub mod terminal_schedule;
pub mod runner_turn;
pub mod transient;
pub mod pointer_emission;
pub mod shutdown_handover;
pub mod custody_inventory;
pub mod settlement_handle;
pub mod key_routing;
pub mod native_freeze;
pub mod retained_drive;
pub mod maintenance_commitment;
pub mod native_press;
