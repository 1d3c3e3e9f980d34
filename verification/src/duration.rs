//! Compact formatting of elapsed time.
//!
//! An elapsed duration, given in whole seconds, is shown as at most two
//! components out of days, hours, minutes and seconds, largest first, with
//! zero-valued leading components omitted. A non-positive duration is shown
//! as the empty string.

use vstd::prelude::*;

use crate::text::dec_str;
use crate::text::join_spaces;
use crate::text::join_with_spaces;
use crate::text::u64_to_string;

verus! {

/// Number of whole days in `s` seconds.
pub open spec fn days_of(s: int) -> int {
    s / 86400
}

/// Whole hours left after the days are taken out.
pub open spec fn hours_of(s: int) -> int {
    (s % 86400) / 3600
}

/// Whole minutes left after days and hours are taken out.
pub open spec fn minutes_of(s: int) -> int {
    (s % 3600) / 60
}

/// Seconds left after days, hours and minutes are taken out.
pub open spec fn seconds_of(s: int) -> int {
    s % 60
}

/// The components of the rendered duration, in order: days, hours, minutes
/// and seconds, each present only when positive, and minutes and seconds
/// suppressed once two components stand already.
pub open spec fn duration_components(s: int) -> Seq<Seq<char>> {
    let c0 = if days_of(s) > 0 {
        seq![dec_str(days_of(s)).push('d')]
    } else {
        Seq::<Seq<char>>::empty()
    };
    let c1 = if hours_of(s) > 0 {
        c0.push(dec_str(hours_of(s)).push('h'))
    } else {
        c0
    };
    let c2 = if minutes_of(s) > 0 && c1.len() < 2 {
        c1.push(dec_str(minutes_of(s)).push('m'))
    } else {
        c1
    };
    let c3 = if seconds_of(s) > 0 && c2.len() < 2 {
        c2.push(dec_str(seconds_of(s)).push('s'))
    } else {
        c2
    };
    c3
}

/// What `show_duration` returns for `s` seconds of elapsed time.
pub open spec fn spec_show_duration(s: int) -> Seq<char> {
    if s <= 0 {
        Seq::<char>::empty()
    } else {
        join_spaces(duration_components(s))
    }
}

/// Formats an elapsed time, given in whole seconds, as at most two
/// components of days, hours, minutes and seconds, largest first.
pub fn show_duration(total_secs: i64) -> (r: String)
    ensures
        r@ == spec_show_duration(total_secs as int),
{
    if total_secs <= 0 {
        return String::new();
    }
    let s = total_secs as u64;
    let days: u64 = s / 86400;
    let hours: u64 = (s % 86400) / 3600;
    let minutes: u64 = (s % 3600) / 60;
    let seconds: u64 = s % 60;

    let mut components: Vec<String> = Vec::new();
    if days > 0 {
        let mut c = u64_to_string(days);
        c.append("d");
        proof {
            reveal_strlit("d");
            assert(c@ =~= dec_str(days as int).push('d'));
        }
        components.push(c);
    }
    if hours > 0 {
        let mut c = u64_to_string(hours);
        c.append("h");
        proof {
            reveal_strlit("h");
            assert(c@ =~= dec_str(hours as int).push('h'));
        }
        components.push(c);
    }
    if minutes > 0 && components.len() < 2 {
        let mut c = u64_to_string(minutes);
        c.append("m");
        proof {
            reveal_strlit("m");
            assert(c@ =~= dec_str(minutes as int).push('m'));
        }
        components.push(c);
    }
    if seconds > 0 && components.len() < 2 {
        let mut c = u64_to_string(seconds);
        c.append("s");
        proof {
            reveal_strlit("s");
            assert(c@ =~= dec_str(seconds as int).push('s'));
        }
        components.push(c);
    }
    proof {
        assert(components.deep_view() =~~= duration_components(total_secs as int));
    }
    join_with_spaces(&components)
}

} // verus!
