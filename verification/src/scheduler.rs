//! The display activity's decision: what to render next.
//!
//! Each display cycle first looks at the priority mailbox; a pending
//! priority notification bypasses the cache's rotation entirely. Only
//! when none is pending does the cycle consult the message cache's read
//! path, and with nothing to show it falls back to a placeholder.
use vstd::prelude::*;

use crate::messagebuf::{DisplayMessage, Messages, TextData};

verus! {

/// What the display renders this cycle.
#[derive(Debug)]
pub enum RenderChoice {
    /// A priority notification, held on screen for the priority duration.
    Priority(TextData),
    /// The next slot of the normal rotation.
    Normal(DisplayMessage),
    /// Nothing to show.
    Placeholder,
}

/// Decides one display cycle: a pending priority notification preempts
/// the rotation; otherwise the cache's read path picks the next active
/// slot after `last_shown`; with no active slot the placeholder is shown.
pub fn next_render(prio: Option<TextData>, messages: &Messages, last_shown: u64, now: u64) -> (r:
    RenderChoice)
    requires
        messages.wf(),
    ensures
        match prio {
            Some(m) => r matches RenderChoice::Priority(p) && p == m,
            None => match r {
                RenderChoice::Priority(_) => false,
                RenderChoice::Normal(d) => {
                    &&& d.meta.spec_is_active(now)
                    &&& exists|i: int|
                        #[trigger] messages.is_choice(i, last_shown, now)
                            && messages.display_matches(d, i)
                },
                RenderChoice::Placeholder => !messages.has_active(now),
            },
        },
{
    match prio {
        Some(m) => RenderChoice::Priority(m),
        None => match messages.next_display_message_generic(last_shown, now) {
            Some(d) => RenderChoice::Normal(d),
            None => RenderChoice::Placeholder,
        },
    }
}

} // verus!
