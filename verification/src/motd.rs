//! The message of the day printed at start-up.
use vstd::prelude::*;
use crate::text::{is_trim_of, trim};

verus! {

/// Where the message of the day is fetched from.
pub const MOTD_URL: &'static str = "https://xlii.space/emacs/motd.txt";

/// The rule printed above and below the message.
pub const BORDER: &'static str = "────────────────────────────────";

/// The banner for a fetched message body: the trimmed body between two
/// border lines; nothing when the body is only whitespace.
pub fn motd_banner(body: &str) -> (r: Option<String>)
    ensures
        exists|t: Seq<char>|
            {
                &&& is_trim_of(t, body@)
                &&& t.len() == 0 ==> r is None
                &&& t.len() > 0 ==> (r matches Some(s) && s@ == BORDER@ + "\n"@ + t + "\n"@ + BORDER@)
            },
{
    let t = trim(body);
    if t.unicode_len() == 0 {
        return None;
    }
    let mut s = String::from_str(BORDER);
    s.append("\n");
    s.append(t);
    s.append("\n");
    s.append(BORDER);
    Some(s)
}

} // verus!
