//! What the context views handed to script code are built from.

use vstd::prelude::*;
use vstd::string::*;
use crate::content::Content;

verus! {

/// Whether some message after position `i` has the role `user`.
pub open spec fn user_after(history: Seq<Content>, i: int) -> bool {
    exists|j: int| i < j < history.len() && (#[trigger] history[j]).role@ == "user"@
}

/// The triggering user message of a conversation: its last message whose role is
/// `user`.
pub fn last_user_content(history: &Vec<Content>) -> (r: Option<&Content>)
    ensures
        match r {
            Some(c) => exists|i: int|
                0 <= i < history@.len() && history@[i] == *c && c.role@ == "user"@
                    && !user_after(history@, i),
            None => forall|j: int| 0 <= j < history@.len() ==> (#[trigger] history@[j]).role@ != "user"@,
        },
{
    let user = String::from_str("user");
    let mut i: usize = history.len();
    while i > 0
        invariant
            i <= history@.len(),
            user@ == "user"@,
            !user_after(history@, i as int - 1),
        decreases i,
    {
        if history[i - 1].role == user {
            return Some(&history[i - 1]);
        }
        i = i - 1;
    }
    None
}

} // verus!
