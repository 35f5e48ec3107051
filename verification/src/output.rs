//! How values are shown on the command line.

use crate::text::{
    byte_len, decimal, from_chars, lowercase, owned, push_decimal, push_str, str_equal, to_chars,
    utf8_len,
};
use crate::sanitization::byte_prefix;
use vstd::prelude::*;

verus! {

/// The form in which results are printed.
#[derive(Debug, Clone, Copy, PartialEq, Eq, Structural)]
pub enum OutputFormat {
    Text,
    Json,
}

impl OutputFormat {
    /// The form that a name stands for: `json` in any case stands for JSON,
    /// every other name for text.
    pub fn from_str(s: &str) -> (r: Self)
        ensures
            r == if lowercase(s@) == "json"@ {
                OutputFormat::Json
            } else {
                OutputFormat::Text
            },
    {
        let lower = s.to_lowercase();
        if str_equal(lower.as_str(), "json") {
            OutputFormat::Json
        } else {
            OutputFormat::Text
        }
    }
}

/// A number of seconds as hours, minutes and seconds. Hours are left out
/// where there are none, and minutes where there are neither.
pub open spec fn duration_text(seconds: u64) -> Seq<char> {
    let hours = seconds / 3600;
    let minutes = (seconds % 3600) / 60;
    let secs = seconds % 60;
    if hours > 0 {
        decimal(hours as nat) + "h "@ + decimal(minutes as nat) + "m "@ + decimal(secs as nat)
            + "s"@
    } else if minutes > 0 {
        decimal(minutes as nat) + "m "@ + decimal(secs as nat) + "s"@
    } else {
        decimal(secs as nat) + "s"@
    }
}

/// Formats a number of seconds, such as `1h 1m 1s`.
pub fn format_duration(seconds: u64) -> (r: String)
    ensures
        r@ == duration_text(seconds),
{
    let hours = seconds / 3600;
    let minutes = (seconds % 3600) / 60;
    let secs = seconds % 60;
    let mut out: Vec<char> = Vec::new();
    if hours > 0 {
        push_decimal(&mut out, hours);
        push_str(&mut out, "h ");
        push_decimal(&mut out, minutes);
        push_str(&mut out, "m ");
    } else if minutes > 0 {
        push_decimal(&mut out, minutes);
        push_str(&mut out, "m ");
    }
    push_decimal(&mut out, secs);
    push_str(&mut out, "s");
    assert(out@ == duration_text(seconds));
    from_chars(&out)
}

/// A text cut to `max_len` bytes: the text itself where it fits, and
/// otherwise its first `max_len - 3` bytes and three dots.
pub fn truncate(s: &str, max_len: usize) -> (r: String)
    requires
        utf8_len(s@) > max_len ==> max_len >= 3 && utf8_len(byte_prefix(s@, (max_len - 3) as nat))
            == max_len - 3,
    ensures
        r@ == if utf8_len(s@) <= max_len {
            s@
        } else {
            byte_prefix(s@, (max_len - 3) as nat) + "..."@
        },
{
    if byte_len(s) <= max_len {
        return owned(s);
    }
    let v = to_chars(s);
    let mut out = crate::sanitization::take_bytes(&v, max_len - 3);
    push_str(&mut out, "...");
    from_chars(&out)
}

} // verus!
