//! The words that tasks and refusals carry.

use crate::text::same_text;
use vstd::prelude::*;

verus! {

pub const QUEUED_MESSAGE: &'static str = "Queued for the BBDown adapter.";

pub const RUNNING_MESSAGE: &'static str = "Running Bilibili download adapter.";

pub const PLAYBACK_PREPARING_MESSAGE: &'static str = "Preparing Bilibili playback plan.";

pub const PLAYBACK_PLANNED_MESSAGE: &'static str = "Bilibili playback plan is ready.";

pub const PLAYBACK_PLAYABLE_MESSAGE: &'static str = "Bilibili playback session is playable.";

pub const PLAYBACK_COMPLETED_MESSAGE: &'static str =
    "Bilibili playback session is cached for offline playback.";

pub const PLAYBACK_CACHE_DELETED_MESSAGE: &'static str = "Bilibili playback cache was deleted.";

pub const REQUEUED_AFTER_RESTART_MESSAGE: &'static str = "Requeued after cache server restart.";

pub const PREPARING_INTERRUPTED_AFTER_RESTART_MESSAGE: &'static str =
    "Playback planning was interrupted during cache server restart.";

pub const PLAYABLE_EXPIRED_AFTER_RESTART_MESSAGE: &'static str =
    "Playback media session expired during cache server restart.";

pub const CANCELLED_AFTER_RESTART_MESSAGE: &'static str = "Cancelled during cache server restart.";

pub const CANCEL_REQUESTED_MESSAGE: &'static str = "Cancellation requested.";

pub const CANCELLED_BY_REQUEST_MESSAGE: &'static str = "Cancelled by request.";

pub const CANCELLED_MESSAGE: &'static str = "Cancelled before the download adapter started.";

pub const PLAYBACK_PLANNING_CANCELLED_MESSAGE: &'static str =
    "Cancelled before playback planning started.";

pub const PLAYBACK_RESULTS_PLANNING_CANCELLED_MESSAGE: &'static str =
    "Cancelled while planning Bilibili playback results.";

/// Every message of a cancellation that says nothing but that, and when, it happened.
pub open spec fn safe_cancellation_messages() -> Seq<Seq<char>> {
    seq![
        CANCEL_REQUESTED_MESSAGE@,
        CANCELLED_BY_REQUEST_MESSAGE@,
        CANCELLED_AFTER_RESTART_MESSAGE@,
        CANCELLED_MESSAGE@,
        PLAYBACK_PLANNING_CANCELLED_MESSAGE@,
        PLAYBACK_RESULTS_PLANNING_CANCELLED_MESSAGE@,
        "Cancelled before the BBDown adapter started."@,
        "Cancelled while BBDown planning was running."@,
        "Cancelled after Bilibili planning completed."@,
        "Cancelled before the BBDown download started."@,
        "Cancelled while the BBDown download was running."@,
        "Cancelled before BBDown muxing started."@,
        "Cancelled while BBDown muxing was running."@,
        "Cancelled after BBDown muxing completed."@,
        "Cancelled after the BBDown download finished."@,
        "Cancelled before committing the BBDown archive."@,
        "Cancelled while BBDown input resolution was running."@,
        "Cancelled while BBDown playback planning was running."@,
        "Cancelled while BBDown collection item metadata resolution was running."@,
    ]
}

/// Whether a cancellation message is one of those that are safe to show.
pub fn is_known_safe_cancellation_message(message: &str) -> (safe: bool)
    ensures
        safe == safe_cancellation_messages().contains(message@),
{
    let safe: bool = same_text(message, CANCEL_REQUESTED_MESSAGE)
        || same_text(message, CANCELLED_BY_REQUEST_MESSAGE)
        || same_text(message, CANCELLED_AFTER_RESTART_MESSAGE)
        || same_text(message, CANCELLED_MESSAGE)
        || same_text(message, PLAYBACK_PLANNING_CANCELLED_MESSAGE)
        || same_text(message, PLAYBACK_RESULTS_PLANNING_CANCELLED_MESSAGE)
        || same_text(message, "Cancelled before the BBDown adapter started.")
        || same_text(message, "Cancelled while BBDown planning was running.")
        || same_text(message, "Cancelled after Bilibili planning completed.")
        || same_text(message, "Cancelled before the BBDown download started.")
        || same_text(message, "Cancelled while the BBDown download was running.")
        || same_text(message, "Cancelled before BBDown muxing started.")
        || same_text(message, "Cancelled while BBDown muxing was running.")
        || same_text(message, "Cancelled after BBDown muxing completed.")
        || same_text(message, "Cancelled after the BBDown download finished.")
        || same_text(message, "Cancelled before committing the BBDown archive.")
        || same_text(message, "Cancelled while BBDown input resolution was running.")
        || same_text(message, "Cancelled while BBDown playback planning was running.")
        || same_text(
        message,
        "Cancelled while BBDown collection item metadata resolution was running.",
    );
    proof {
        let known = safe_cancellation_messages();
        assert(known.len() == 19);
        assert(safe ==> (known[0] == message@ || known[1] == message@ || known[2] == message@
            || known[3] == message@ || known[4] == message@ || known[5] == message@ || known[6]
            == message@ || known[7] == message@ || known[8] == message@ || known[9] == message@
            || known[10] == message@ || known[11] == message@ || known[12] == message@ || known[13]
            == message@ || known[14] == message@ || known[15] == message@ || known[16] == message@
            || known[17] == message@ || known[18] == message@));
        if known.contains(message@) {
            let i = known.index_of(message@);
            assert(known[i] == message@);
        }
    }
    safe
}

} // verus!
