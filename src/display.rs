//! What consumers of the snapshot compute for display: arrival countdowns,
//! delay texts, terminal colors, and tests on selections.
use vstd::prelude::*;
use vstd::string::*;

use crate::colors::rgb_of;
use crate::ids::line_id_of;
use crate::model::{obs_views, Line, NVTModels, NetworkData, RealTimeInfo};
use crate::queries::{eq_ignoring_ascii_case, same_ignoring_ascii_case};
use crate::snapshot::{live_on_route, on_route};
use crate::text::{abs, decimal_digits, push_number, push_signed, signed_text, trunc_div};

verus! {

/// Operations of the interactive consumers that compute rather than print.
pub struct NVTControllers;

/// Terminal rendering helpers.
pub struct NVTViews;

/// Text of a delay in seconds: "On time" within half a minute, otherwise the
/// signed seconds below a minute, else the signed whole minutes and the
/// remaining seconds when there are some.
pub open spec fn delay_text(d: int) -> Seq<char> {
    let minutes = trunc_div(d, 60);
    let seconds = abs(d) % 60;
    if -30 <= d <= 30 {
        "On time"@
    } else if minutes == 0 {
        signed_text(d) + "s"@
    } else if seconds == 0 {
        signed_text(minutes) + " min"@
    } else {
        signed_text(minutes) + " min "@ + decimal_digits(seconds as nat) + "s"@
    }
}

/// Relative luminance above one half, in thousandths of a unit per channel step.
pub open spec fn is_light(rgb: (u8, u8, u8)) -> bool {
    299 * rgb.0 + 587 * rgb.1 + 114 * rgb.2 > 127500
}

/// `code` on a background of the color `hex`, in black on light colors and
/// white on dark ones, as terminal escape sequences.
pub open spec fn colorized(code: Seq<char>, hex: Seq<char>) -> Seq<char> {
    let rgb = rgb_of(hex);
    "\x1b[48;2;"@ + decimal_digits(rgb.0 as nat) + ";"@ + decimal_digits(rgb.1 as nat) + ";"@
        + decimal_digits(rgb.2 as nat) + "m\x1b["@ + (if is_light(rgb) {
        "30"@
    } else {
        "97"@
    }) + "m "@ + code + " \x1b[0m"@
}

/// Index of the first line whose code or name matches `input` ignoring ASCII
/// case, or the count of lines.
pub open spec fn first_line_matching(lines: Seq<Line>, input: Seq<char>) -> int
    decreases lines.len(),
{
    if lines.len() == 0 {
        0
    } else if same_ignoring_ascii_case(lines[0].line_code@, input) || same_ignoring_ascii_case(
        lines[0].line_name@,
        input,
    ) {
        0
    } else {
        1 + first_line_matching(lines.drop_first(), input)
    }
}


impl NVTControllers {
    /// The first line whose code or name is `input`, ignoring ASCII case.
    pub fn find_line<'a>(input: &str, network: &'a NetworkData) -> (r: Option<&'a Line>)
        ensures
            match r {
                Some(l) => first_line_matching(network.lines@, input@) < network.lines@.len()
                    && *l == network.lines@[first_line_matching(network.lines@, input@)],
                None => first_line_matching(network.lines@, input@) == network.lines@.len(),
            },
    {
        let ghost ls = network.lines@;
        assert(ls.skip(0) =~= ls);
        let mut i: usize = 0;
        while i < network.lines.len()
            invariant
                i <= ls.len(),
                ls == network.lines@,
                first_line_matching(ls, input@) == i + first_line_matching(ls.skip(i as int), input@),
            decreases ls.len() - i,
        {
            assert(ls.skip(i as int).drop_first() =~= ls.skip(i as int + 1));
            assert(ls.skip(i as int)[0] == ls[i as int]);
            if eq_ignoring_ascii_case(network.lines[i].line_code.as_str(), input)
                || eq_ignoring_ascii_case(network.lines[i].line_name.as_str(), input) {
                return Some(&network.lines[i]);
            }
            i += 1;
        }
        assert(ls.skip(ls.len() as int) =~= seq![]);
        None
    }

    /// The observations among `vehicles` that run on the route of `line`, in
    /// order; none when the line has no route identifier.
    pub fn vehicles_on_line(vehicles: &Vec<RealTimeInfo>, line: &Line) -> (r: Vec<RealTimeInfo>)
        ensures
            match line_id_of(line.line_ref@) {
                Some(route) => obs_views(r@) == obs_views(vehicles@).filter(on_route(route)),
                None => r@.len() == 0,
            },
    {
        match NVTModels::extract_line_id(line.line_ref.as_str()) {
            Some(x) => live_on_route(vehicles, &x.to_owned()),
            None => Vec::new(),
        }
    }

    /// The observation was synthesized from the schedule rather than tracked live.
    pub fn is_scheduled(rt: &RealTimeInfo) -> (r: bool)
        ensures
            r == (rt.vehicle_id@ == "scheduled"@ || rt.vehicle_id@ == "fallback_trip_update"@),
    {
        rt.vehicle_id == "scheduled".to_owned() || rt.vehicle_id == "fallback_trip_update".to_owned()
    }

    /// Whole minutes from `now` until `timestamp`, rounded toward zero.
    pub fn minutes_until_arrival(timestamp: i64, now: i64) -> (r: i64)
        requires
            i64::MIN <= timestamp - now <= i64::MAX,
        ensures
            r == trunc_div(timestamp - now, 60),
    {
        (timestamp - now) / 60
    }

    /// Text of a delay given in seconds (see [`delay_text`]).
    pub fn format_delay(delay_seconds: i32) -> (r: String)
        ensures
            r@ == delay_text(delay_seconds as int),
    {
        let minutes = delay_seconds / 60;
        let rem = delay_seconds % 60;
        let seconds: i32 = if rem < 0 {
            -rem
        } else {
            rem
        };
        assert(seconds == abs(delay_seconds as int) % 60) by (nonlinear_arith)
            requires
                rem == delay_seconds as int - 60 * trunc_div(delay_seconds as int, 60),
                seconds == abs(rem as int),
                minutes == trunc_div(delay_seconds as int, 60),
        {
        }
        if delay_seconds >= -30 && delay_seconds <= 30 {
            return "On time".to_owned();
        }
        let mut s = String::new();
        if minutes == 0 {
            push_signed(&mut s, delay_seconds as i64);
            s.append("s");
        } else if seconds == 0 {
            push_signed(&mut s, minutes as i64);
            s.append(" min");
        } else {
            push_signed(&mut s, minutes as i64);
            s.append(" min ");
            push_number(&mut s, seconds as u64);
            s.append("s");
        }
        assert(s@ =~= delay_text(delay_seconds as int));
        s
    }

    /// Some stop of the snapshot has the identifier `stop_id`.
    pub fn validate_stop_id(stop_id: &str, network: &NetworkData) -> (r: bool)
        ensures
            r == exists|i: int| 0 <= i < network.stops@.len() && network.stops@[i].stop_id@ == stop_id@,
    {
        let key = stop_id.to_owned();
        let mut i: usize = 0;
        while i < network.stops.len()
            invariant
                i <= network.stops@.len(),
                key@ == stop_id@,
                forall|j: int| 0 <= j < i ==> network.stops@[j].stop_id@ != stop_id@,
            decreases network.stops@.len() - i,
        {
            if network.stops[i].stop_id == key {
                return true;
            }
            i += 1;
        }
        false
    }

    /// Some line of the snapshot has the reference `line_ref`.
    pub fn validate_line_ref(line_ref: &str, network: &NetworkData) -> (r: bool)
        ensures
            r == exists|i: int| 0 <= i < network.lines@.len() && network.lines@[i].line_ref@ == line_ref@,
    {
        let key = line_ref.to_owned();
        let mut i: usize = 0;
        while i < network.lines.len()
            invariant
                i <= network.lines@.len(),
                key@ == line_ref@,
                forall|j: int| 0 <= j < i ==> network.lines@[j].line_ref@ != line_ref@,
            decreases network.lines@.len() - i,
        {
            if network.lines[i].line_ref == key {
                return true;
            }
            i += 1;
        }
        false
    }
}

impl NVTViews {
    /// `code` on a background of the color `hex_color` (see [`colorized`]).
    pub fn colorize_line(code: &str, hex_color: &str) -> (r: String)
        ensures
            r@ == colorized(code@, hex_color@),
    {
        let (r, g, b) = NVTModels::parse_hex_color(hex_color);
        let light = 299 * (r as u32) + 587 * (g as u32) + 114 * (b as u32) > 127500;
        let mut s = "\x1b[48;2;".to_owned();
        push_number(&mut s, r as u64);
        s.append(";");
        push_number(&mut s, g as u64);
        s.append(";");
        push_number(&mut s, b as u64);
        s.append("m\x1b[");
        if light {
            s.append("30");
        } else {
            s.append("97");
        }
        s.append("m ");
        s.append(code);
        s.append(" \x1b[0m");
        assert(s@ =~= colorized(code@, hex_color@));
        s
    }
}

} // verus!
