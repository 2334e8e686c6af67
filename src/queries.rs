//! Lookups on a resolved snapshot.
use vstd::prelude::*;

use crate::colors::rgb_of;
use crate::ids::{chars_of, line_id_of};
use crate::model::{obs_views, Line, NVTModels, NetworkData, RealTimeInfo, Stop};
use crate::snapshot::{default_color, sort_by_time, sort_observations, contains_string};

verus! {

pub open spec fn ascii_lower(c: char) -> char {
    if 'A' <= c <= 'Z' {
        ((c as u8) + 32) as char
    } else {
        c
    }
}

/// The two texts are equal once ASCII letters are folded to lower case.
pub open spec fn same_ignoring_ascii_case(a: Seq<char>, b: Seq<char>) -> bool {
    a.len() == b.len() && forall|i: int| 0 <= i < a.len() ==> ascii_lower(a[i]) == ascii_lower(b[i])
}

fn lower(c: char) -> (r: char)
    ensures
        r == ascii_lower(c),
{
    if 'A' <= c && c <= 'Z' {
        ((c as u8) + 32) as char
    } else {
        c
    }
}

/// `a` and `b` are equal once ASCII letters are folded to lower case.
pub fn eq_ignoring_ascii_case(a: &str, b: &str) -> (r: bool)
    ensures
        r == same_ignoring_ascii_case(a@, b@),
{
    let x = chars_of(a);
    let y = chars_of(b);
    if x.len() != y.len() {
        return false;
    }
    let mut i: usize = 0;
    while i < x.len()
        invariant
            x@ == a@,
            y@ == b@,
            x.len() == y.len(),
            i <= x.len(),
            forall|j: int| 0 <= j < i ==> ascii_lower(a@[j]) == ascii_lower(b@[j]),
        decreases x.len() - i,
    {
        if lower(x[i]) != lower(y[i]) {
            return false;
        }
        i += 1;
    }
    true
}

/// Index of the first line whose code matches `code` ignoring ASCII case, or the count of lines.
pub open spec fn first_line_with_code(lines: Seq<Line>, code: Seq<char>) -> int
    decreases lines.len(),
{
    if lines.len() == 0 {
        0
    } else if same_ignoring_ascii_case(lines[0].line_code@, code) {
        0
    } else {
        1 + first_line_with_code(lines.drop_first(), code)
    }
}

/// Index of the first line whose name matches `name` ignoring ASCII case, or the count of lines.
pub open spec fn first_line_named(lines: Seq<Line>, name: Seq<char>) -> int
    decreases lines.len(),
{
    if lines.len() == 0 {
        0
    } else if same_ignoring_ascii_case(lines[0].line_name@, name) {
        0
    } else {
        1 + first_line_named(lines.drop_first(), name)
    }
}

/// Index of the first stop whose name matches `name` ignoring ASCII case, or the count of stops.
pub open spec fn first_stop_named(stops: Seq<Stop>, name: Seq<char>) -> int
    decreases stops.len(),
{
    if stops.len() == 0 {
        0
    } else if same_ignoring_ascii_case(stops[0].stop_name@, name) {
        0
    } else {
        1 + first_stop_named(stops.drop_first(), name)
    }
}

/// Index of the first line whose route identifier is `route`, or the count of lines.
pub open spec fn first_line_on_route(lines: Seq<Line>, route: Seq<char>) -> int
    decreases lines.len(),
{
    if lines.len() == 0 {
        0
    } else if line_id_of(lines[0].line_ref@) == Some(route) {
        0
    } else {
        1 + first_line_on_route(lines.drop_first(), route)
    }
}

/// Index of the first stop whose identifier is `id`, or the count of stops.
pub open spec fn first_stop_with_id(stops: Seq<Stop>, id: Seq<char>) -> int
    decreases stops.len(),
{
    if stops.len() == 0 {
        0
    } else if stops[0].stop_id@ == id {
        0
    } else {
        1 + first_stop_with_id(stops.drop_first(), id)
    }
}

pub open spec fn color_of_code(lines: Seq<Line>, code: Seq<char>) -> Seq<char> {
    let k = first_line_with_code(lines, code);
    if k < lines.len() {
        lines[k].color@
    } else {
        default_color()
    }
}

pub open spec fn serves(line_ref: Seq<char>) -> spec_fn(Stop) -> bool {
    |s: Stop| s.lines.deep_view().contains(line_ref)
}

impl NVTModels {
    /// Color of the first line whose code matches `line_code` ignoring ASCII
    /// case; the neutral gray when none does.
    pub fn get_line_color(line_code: &str, network: &NetworkData) -> (r: String)
        ensures
            r@ == color_of_code(network.lines@, line_code@),
    {
        let ghost ls = network.lines@;
        assert(ls.skip(0) =~= ls);
        let mut i: usize = 0;
        while i < network.lines.len()
            invariant
                i <= ls.len(),
                ls == network.lines@,
                first_line_with_code(ls, line_code@) == i + first_line_with_code(ls.skip(i as int), line_code@),
            decreases ls.len() - i,
        {
            assert(ls.skip(i as int).drop_first() =~= ls.skip(i as int + 1));
            assert(ls.skip(i as int)[0] == ls[i as int]);
            if eq_ignoring_ascii_case(network.lines[i].line_code.as_str(), line_code) {
                return network.lines[i].color.clone();
            }
            i += 1;
        }
        assert(ls.skip(ls.len() as int) =~= seq![]);
        "808080".to_owned()
    }

    /// (red, green, blue) of [`NVTModels::get_line_color`].
    pub fn get_line_color_rgb(line_code: &str, network: &NetworkData) -> (r: (u8, u8, u8))
        ensures
            r == rgb_of(color_of_code(network.lines@, line_code@)),
    {
        let hex_color = Self::get_line_color(line_code, network);
        Self::parse_hex_color(hex_color.as_str())
    }

    /// The first stop whose name matches `name` ignoring ASCII case.
    pub fn get_stop_by_name<'a>(name: &str, network: &'a NetworkData) -> (r: Option<&'a Stop>)
        ensures
            match r {
                Some(s) => first_stop_named(network.stops@, name@) < network.stops@.len()
                    && *s == network.stops@[first_stop_named(network.stops@, name@)],
                None => first_stop_named(network.stops@, name@) == network.stops@.len(),
            },
    {
        let ghost ss = network.stops@;
        assert(ss.skip(0) =~= ss);
        let mut i: usize = 0;
        while i < network.stops.len()
            invariant
                i <= ss.len(),
                ss == network.stops@,
                first_stop_named(ss, name@) == i + first_stop_named(ss.skip(i as int), name@),
            decreases ss.len() - i,
        {
            assert(ss.skip(i as int).drop_first() =~= ss.skip(i as int + 1));
            assert(ss.skip(i as int)[0] == ss[i as int]);
            if eq_ignoring_ascii_case(network.stops[i].stop_name.as_str(), name) {
                return Some(&network.stops[i]);
            }
            i += 1;
        }
        assert(ss.skip(ss.len() as int) =~= seq![]);
        None
    }

    /// The first line whose name matches `name` ignoring ASCII case.
    pub fn get_line_by_name<'a>(name: &str, network: &'a NetworkData) -> (r: Option<&'a Line>)
        ensures
            match r {
                Some(l) => first_line_named(network.lines@, name@) < network.lines@.len()
                    && *l == network.lines@[first_line_named(network.lines@, name@)],
                None => first_line_named(network.lines@, name@) == network.lines@.len(),
            },
    {
        let ghost ls = network.lines@;
        assert(ls.skip(0) =~= ls);
        let mut i: usize = 0;
        while i < network.lines.len()
            invariant
                i <= ls.len(),
                ls == network.lines@,
                first_line_named(ls, name@) == i + first_line_named(ls.skip(i as int), name@),
            decreases ls.len() - i,
        {
            assert(ls.skip(i as int).drop_first() =~= ls.skip(i as int + 1));
            assert(ls.skip(i as int)[0] == ls[i as int]);
            if eq_ignoring_ascii_case(network.lines[i].line_name.as_str(), name) {
                return Some(&network.lines[i]);
            }
            i += 1;
        }
        assert(ls.skip(ls.len() as int) =~= seq![]);
        None
    }

    /// The first line whose route identifier is `route_id`.
    pub fn get_line_by_route_id<'a>(route_id: &str, network: &'a NetworkData) -> (r: Option<&'a Line>)
        ensures
            match r {
                Some(l) => first_line_on_route(network.lines@, route_id@) < network.lines@.len()
                    && *l == network.lines@[first_line_on_route(network.lines@, route_id@)],
                None => first_line_on_route(network.lines@, route_id@) == network.lines@.len(),
            },
    {
        let ghost ls = network.lines@;
        assert(ls.skip(0) =~= ls);
        let key = route_id.to_owned();
        let mut i: usize = 0;
        while i < network.lines.len()
            invariant
                i <= ls.len(),
                ls == network.lines@,
                key@ == route_id@,
                first_line_on_route(ls, route_id@) == i + first_line_on_route(ls.skip(i as int), route_id@),
            decreases ls.len() - i,
        {
            assert(ls.skip(i as int).drop_first() =~= ls.skip(i as int + 1));
            assert(ls.skip(i as int)[0] == ls[i as int]);
            let same = match Self::extract_line_id(network.lines[i].line_ref.as_str()) {
                Some(x) => x.to_owned() == key,
                None => false,
            };
            if same {
                return Some(&network.lines[i]);
            }
            i += 1;
        }
        assert(ls.skip(ls.len() as int) =~= seq![]);
        None
    }

    /// The stops that list the line `line_ref`, in order.
    pub fn get_stops_for_line<'a>(line_ref: &str, network: &'a NetworkData) -> (r: Vec<&'a Stop>)
        ensures
            r@.len() == network.stops@.filter(serves(line_ref@)).len(),
            forall|k: int| 0 <= k < r@.len() ==> *r@[k] == network.stops@.filter(serves(line_ref@))[k],
    {
        let ghost ss = network.stops@;
        assert(ss.skip(0) =~= ss);
        let key = line_ref.to_owned();
        let mut r: Vec<&'a Stop> = Vec::new();
        let mut i: usize = 0;
        while i < network.stops.len()
            invariant
                i <= ss.len(),
                ss == network.stops@,
                key@ == line_ref@,
                r@.len() == ss.take(i as int).filter(serves(line_ref@)).len(),
                forall|k: int| 0 <= k < r@.len() ==> *r@[k] == ss.take(i as int).filter(serves(line_ref@))[k],
            decreases ss.len() - i,
        {
            assert(ss.take(i as int + 1) =~= ss.take(i as int).push(ss[i as int]));
            proof {
                ss.take(i as int).lemma_filter_push(ss[i as int], serves(line_ref@));
            }
            if contains_string(&network.stops[i].lines, &key) {
                r.push(&network.stops[i]);
            }
            i += 1;
        }
        assert(ss.take(ss.len() as int) =~= ss);
        r
    }

    /// Observations of the first stop with identifier `stop_id`, in time
    /// order; none when no stop has it.
    pub fn get_next_vehicles_for_stop(stop_id: &str, network: &NetworkData) -> (r: Vec<RealTimeInfo>)
        ensures
            first_stop_with_id(network.stops@, stop_id@) < network.stops@.len() ==> obs_views(r@)
                == sort_by_time(
                obs_views(network.stops@[first_stop_with_id(network.stops@, stop_id@)].real_time@),
            ),
            first_stop_with_id(network.stops@, stop_id@) == network.stops@.len() ==> r@.len() == 0,
    {
        let ghost ss = network.stops@;
        assert(ss.skip(0) =~= ss);
        let key = stop_id.to_owned();
        let mut i: usize = 0;
        while i < network.stops.len()
            invariant
                i <= ss.len(),
                ss == network.stops@,
                key@ == stop_id@,
                first_stop_with_id(ss, stop_id@) == i + first_stop_with_id(ss.skip(i as int), stop_id@),
            decreases ss.len() - i,
        {
            assert(ss.skip(i as int).drop_first() =~= ss.skip(i as int + 1));
            assert(ss.skip(i as int)[0] == ss[i as int]);
            if network.stops[i].stop_id == key {
                return sort_observations(&network.stops[i].real_time);
            }
            i += 1;
        }
        assert(ss.skip(ss.len() as int) =~= seq![]);
        Vec::new()
    }
}

} // verus!
