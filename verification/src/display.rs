//! Rendering of structural queue results into the human-readable lines
//! the command layer sends: the now-playing banner, the queue-position
//! notice, track titles with their fallbacks, and play times.
//!
//! Everything here is a pure function from plain values to text; sending
//! the text anywhere is the command layer's business.

use vstd::prelude::*;

verus! {

use crate::track::TrackMetadata;

/// The decimal digit `d` as a character.
pub open spec fn digit_char(d: int) -> char {
    if d == 0 {
        '0'
    } else if d == 1 {
        '1'
    } else if d == 2 {
        '2'
    } else if d == 3 {
        '3'
    } else if d == 4 {
        '4'
    } else if d == 5 {
        '5'
    } else if d == 6 {
        '6'
    } else if d == 7 {
        '7'
    } else if d == 8 {
        '8'
    } else {
        '9'
    }
}

/// The decimal rendering of `n`, without leading zeroes.
pub open spec fn spec_decimal(n: int) -> Seq<char>
    recommends
        n >= 0,
    decreases n,
{
    if n < 10 {
        seq![digit_char(n)]
    } else {
        spec_decimal(n / 10) + seq![digit_char(n % 10)]
    }
}

/// The decimal rendering of `n`, zero-padded to at least two digits, as
/// the seconds of a play time are written.
pub open spec fn spec_padded2(n: int) -> Seq<char> {
    if n < 10 {
        seq!['0'] + spec_decimal(n)
    } else {
        spec_decimal(n)
    }
}

/// A play time of `secs` seconds as the queue listing shows it: an hours
/// part only beyond a full hour, a minutes part only beyond a full
/// minute, and two-digit seconds.
pub open spec fn spec_track_time(secs: int) -> Seq<char> {
    let rem1: int = if secs > 3600 {
        secs % 3600
    } else {
        secs
    };
    let rem2: int = if secs > 60 {
        rem1 % 60
    } else {
        rem1
    };
    (if secs > 3600 {
        spec_decimal(secs / 3600) + seq![':']
    } else {
        Seq::<char>::empty()
    }) + (if secs > 60 {
        spec_decimal(rem1 / 60) + seq![':']
    } else {
        Seq::<char>::empty()
    }) + spec_padded2(rem2)
}

/// One decimal digit as text.
fn digit_string(d: u64) -> (r: String)
    requires
        d < 10,
    ensures
        r@ == seq![digit_char(d as int)],
{
    let r: String = if d == 0 {
        String::from_str("0")
    } else if d == 1 {
        String::from_str("1")
    } else if d == 2 {
        String::from_str("2")
    } else if d == 3 {
        String::from_str("3")
    } else if d == 4 {
        String::from_str("4")
    } else if d == 5 {
        String::from_str("5")
    } else if d == 6 {
        String::from_str("6")
    } else if d == 7 {
        String::from_str("7")
    } else if d == 8 {
        String::from_str("8")
    } else {
        String::from_str("9")
    };
    proof {
        reveal_strlit("0");
        reveal_strlit("1");
        reveal_strlit("2");
        reveal_strlit("3");
        reveal_strlit("4");
        reveal_strlit("5");
        reveal_strlit("6");
        reveal_strlit("7");
        reveal_strlit("8");
        reveal_strlit("9");
        assert(r@ =~= seq![digit_char(d as int)]);
    }
    r
}

/// Renders `n` in decimal, without leading zeroes.
pub fn decimal_string(n: u64) -> (r: String)
    ensures
        r@ == spec_decimal(n as int),
    decreases n,
{
    if n < 10 {
        digit_string(n)
    } else {
        let mut r = decimal_string(n / 10);
        let last = digit_string(n % 10);
        r.append(last.as_str());
        r
    }
}

/// Renders a play time of `secs` seconds for the queue listing.
pub fn format_track_time(secs: u64) -> (r: String)
    ensures
        r@ == spec_track_time(secs as int),
{
    let mut out = String::new();
    let mut time = secs;
    if secs > 3600 {
        let hours = decimal_string(time / 3600);
        out.append(hours.as_str());
        out.append(":");
        time = time % 3600;
    }
    if secs > 60 {
        let minutes = decimal_string(time / 60);
        out.append(minutes.as_str());
        out.append(":");
        time = time % 60;
    }
    if time < 10 {
        out.append("0");
    }
    let seconds = decimal_string(time);
    out.append(seconds.as_str());
    proof {
        reveal_strlit(":");
        reveal_strlit("0");
        assert(out@ =~= spec_track_time(secs as int));
    }
    out
}

/// The name a track is shown under: its title, else its track name,
/// else the given placeholder.
pub fn display_title(m: &TrackMetadata, none_value: &str) -> (r: String)
    ensures
        m.title is Some ==> r@ == (m.title->0)@,
        m.title is None && m.track is Some ==> r@ == (m.track->0)@,
        m.title is None && m.track is None ==> r@ == none_value@,
{
    match &m.title {
        Some(t) => t.clone(),
        None => match &m.track {
            Some(t) => t.clone(),
            None => String::from_str(none_value),
        },
    }
}

/// The banner announced when a completion event has advanced the queue:
/// what plays now, or that nothing is left. `queue_len` is the length
/// after advancement and `m` the new head's metadata snapshot.
pub fn now_playing_line(queue_len: usize, m: &TrackMetadata) -> (r: String)
    ensures
        queue_len == 0 ==> r@ == "No songs left in queue."@,
        queue_len > 0 && m.title is Some && m.artist is Some ==> r@ == "Now playing: "@ + (
        m.title->0)@ + " by "@ + (m.artist->0)@,
        queue_len > 0 && (m.title is None || m.artist is None) ==> r@
            == "Now playing another song. (no metadata)"@,
    {
    if queue_len == 0 {
        return String::from_str("No songs left in queue.");
    }
    match (&m.title, &m.artist) {
        (Some(t), Some(a)) => {
            let mut out = String::from_str("Now playing: ");
            out.append(t.as_str());
            out.append(" by ");
            out.append(a.as_str());
            out
        },
        _ => String::from_str("Now playing another song. (no metadata)"),
    }
}

/// Where a freshly added track stands, announced when it did not start
/// at once: next, after one track, or after the backlog ahead of it.
/// `queue_len` is the queue length right after the add, at least two
/// since the new track is waiting behind a current head.
pub fn queue_position_line(queue_len: usize) -> (r: String)
    requires
        queue_len >= 2,
    ensures
        queue_len == 2 ==> r@ == "It's up next."@,
        queue_len == 3 ==> r@ == "It'll play after the next track."@,
        queue_len > 3 ==> r@ == "It'll play after the next "@ + spec_decimal(queue_len - 2)
            + " tracks."@,
{
    if queue_len == 2 {
        String::from_str("It's up next.")
    } else if queue_len == 3 {
        String::from_str("It'll play after the next track.")
    } else {
        let mut out = String::from_str("It'll play after the next ");
        let count = decimal_string((queue_len - 2) as u64);
        out.append(count.as_str());
        out.append(" tracks.");
        out
    }
}

} // verus!
