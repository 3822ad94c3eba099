//! The text of a birthday greeting.
use vstd::prelude::*;

verus! {

/// Text that opens every birthday message.
pub const MESSAGE_OPENING: &'static str = "Happy birthday, dear ";

/// Text that closes every birthday message.
pub const MESSAGE_CLOSING: &'static str = "!";

/// "Happy birthday, dear <name>!"
pub open spec fn birthday_text(friend_name: Seq<char>) -> Seq<char> {
    MESSAGE_OPENING@ + friend_name + MESSAGE_CLOSING@
}

pub fn birthday_message(friend_name: &str) -> (r: String)
    ensures
        r@ == birthday_text(friend_name@),
{
    let mut text = String::from_str(MESSAGE_OPENING);
    text.append(friend_name);
    text.append(MESSAGE_CLOSING);
    text
}

} // verus!
