//! Normalization of the stop and line identifiers that upstream feeds encode
//! in different shapes.
use vstd::prelude::*;
use vstd::string::*;

use crate::model::NVTModels;

verus! {

/// Index of the first `':'` at or after `i`, or the length when there is none.
pub open spec fn next_colon(s: Seq<char>, i: int) -> int
    decreases s.len() - i,
{
    if i >= s.len() {
        s.len() as int
    } else if s[i] == ':' {
        i
    } else {
        next_colon(s, i + 1)
    }
}

/// Index of the last `':'` strictly before `e`, or -1 when there is none.
pub open spec fn last_colon_before(s: Seq<char>, e: int) -> int
    decreases e,
{
    if e <= 0 {
        -1
    } else if s[e - 1] == ':' {
        e - 1
    } else {
        last_colon_before(s, e - 1)
    }
}

/// The marker `"BP:"` starts at index `i`.
pub open spec fn marker_at(s: Seq<char>, i: int) -> bool {
    &&& 0 <= i
    &&& i + 3 <= s.len()
    &&& s[i] == 'B'
    &&& s[i + 1] == 'P'
    &&& s[i + 2] == ':'
}

/// Index of the first marker `"BP:"` at or after `i`, or the length when there is none.
pub open spec fn next_marker(s: Seq<char>, i: int) -> int
    decreases s.len() - i,
{
    if i + 3 > s.len() {
        s.len() as int
    } else if marker_at(s, i) {
        i
    } else {
        next_marker(s, i + 1)
    }
}

/// The stop identifier carried by a raw feed identifier: after a `"BP:"` marker,
/// the segment up to the next colon; otherwise the second-to-last colon-delimited
/// segment; an identifier without colons is its own stop identifier.
pub open spec fn stop_id_of(s: Seq<char>) -> Seq<char> {
    let m = next_marker(s, 0);
    if m < s.len() {
        s.subrange(m + 3, next_colon(s, m + 3))
    } else {
        let last = last_colon_before(s, s.len() as int);
        if last >= 0 {
            s.subrange(last_colon_before(s, last) + 1, last)
        } else {
            s
        }
    }
}

/// The route identifier of a line reference: its third colon-delimited segment, if any.
pub open spec fn line_id_of(s: Seq<char>) -> Option<Seq<char>> {
    let c1 = next_colon(s, 0);
    if c1 >= s.len() {
        None
    } else {
        let c2 = next_colon(s, c1 + 1);
        if c2 >= s.len() {
            None
        } else {
            Some(s.subrange(c2 + 1, next_colon(s, c2 + 1)))
        }
    }
}

pub open spec fn has_no_colon(s: Seq<char>) -> bool {
    forall|j: int| 0 <= j < s.len() ==> s[j] != ':'
}

pub proof fn lemma_next_colon(s: Seq<char>, i: int)
    requires
        0 <= i <= s.len(),
    ensures
        i <= next_colon(s, i) <= s.len(),
        next_colon(s, i) < s.len() ==> s[next_colon(s, i)] == ':',
        forall|j: int| i <= j < next_colon(s, i) ==> s[j] != ':',
    decreases s.len() - i,
{
    if i < s.len() && s[i] != ':' {
        lemma_next_colon(s, i + 1);
    }
}

pub proof fn lemma_last_colon_before(s: Seq<char>, e: int)
    requires
        0 <= e <= s.len(),
    ensures
        -1 <= last_colon_before(s, e) < e,
        last_colon_before(s, e) >= 0 ==> s[last_colon_before(s, e)] == ':',
        forall|j: int| last_colon_before(s, e) < j < e ==> s[j] != ':',
    decreases e,
{
    if e > 0 && s[e - 1] != ':' {
        lemma_last_colon_before(s, e - 1);
    }
}

pub proof fn lemma_next_marker(s: Seq<char>, i: int)
    requires
        0 <= i <= s.len(),
    ensures
        i <= next_marker(s, i) <= s.len(),
        next_marker(s, i) < s.len() ==> marker_at(s, next_marker(s, i)),
        forall|j: int| i <= j < next_marker(s, i) ==> !marker_at(s, j),
        next_marker(s, i) == s.len() ==> forall|j: int| i <= j ==> !marker_at(s, j),
    decreases s.len() - i,
{
    if i + 3 <= s.len() && !marker_at(s, i) {
        lemma_next_marker(s, i + 1);
    }
}

/// A stop identifier as extracted holds no colon.
pub proof fn lemma_stop_id_has_no_colon(s: Seq<char>)
    ensures
        has_no_colon(stop_id_of(s)),
{
    lemma_next_marker(s, 0);
    let m = next_marker(s, 0);
    if m < s.len() {
        lemma_next_colon(s, m + 3);
        let t = stop_id_of(s);
        assert forall|j: int| 0 <= j < t.len() implies t[j] != ':' by {
            assert(t[j] == s[m + 3 + j]);
        }
    } else {
        lemma_last_colon_before(s, s.len() as int);
        let last = last_colon_before(s, s.len() as int);
        if last >= 0 {
            lemma_last_colon_before(s, last);
            let p = last_colon_before(s, last);
            let t = stop_id_of(s);
            assert forall|j: int| 0 <= j < t.len() implies t[j] != ':' by {
                assert(t[j] == s[p + 1 + j]);
            }
        }
    }
}

/// An identifier without colons is its own stop identifier.
pub proof fn lemma_stop_id_of_colon_free(t: Seq<char>)
    requires
        has_no_colon(t),
    ensures
        stop_id_of(t) == t,
{
    lemma_next_marker(t, 0);
    if next_marker(t, 0) < t.len() {
        assert(t[next_marker(t, 0) + 2] == ':');
    }
    lemma_last_colon_before(t, t.len() as int);
}

/// Extracting a stop identifier twice gives what extracting it once gives.
pub proof fn lemma_stop_id_idempotent(s: Seq<char>)
    ensures
        stop_id_of(stop_id_of(s)) == stop_id_of(s),
{
    lemma_stop_id_has_no_colon(s);
    lemma_stop_id_of_colon_free(stop_id_of(s));
}

/// The characters of a string, in order.
pub fn chars_of(s: &str) -> (r: Vec<char>)
    ensures
        r@ == s@,
{
    let n = s.unicode_len();
    let mut r: Vec<char> = Vec::new();
    let mut i: usize = 0;
    while i < n
        invariant
            n == s@.len(),
            i <= n,
            r@ == s@.subrange(0, i as int),
        decreases n - i,
    {
        r.push(s.get_char(i));
        i += 1;
        assert(r@ =~= s@.subrange(0, i as int));
    }
    assert(r@ =~= s@);
    r
}

/// Index of the first `':'` of `c` at or after `from`, or `c.len()`.
fn find_colon(c: &Vec<char>, from: usize) -> (r: usize)
    requires
        from <= c@.len(),
    ensures
        r as int == next_colon(c@, from as int),
{
    let mut i: usize = from;
    while i < c.len() && c[i] != ':'
        invariant
            from <= i <= c@.len(),
            next_colon(c@, from as int) == next_colon(c@, i as int),
        decreases c@.len() - i,
    {
        i += 1;
    }
    i
}

/// Index of the last `':'` of `c` strictly before `end`, if any.
fn find_colon_before(c: &Vec<char>, end: usize) -> (r: Option<usize>)
    requires
        end <= c@.len(),
    ensures
        match r {
            Some(k) => k < end && k as int == last_colon_before(c@, end as int),
            None => last_colon_before(c@, end as int) == -1,
        },
{
    let mut e: usize = end;
    while e > 0 && c[e - 1] != ':'
        invariant
            e <= end <= c@.len(),
            last_colon_before(c@, end as int) == last_colon_before(c@, e as int),
        decreases e,
    {
        e -= 1;
    }
    if e == 0 {
        None
    } else {
        Some(e - 1)
    }
}

/// Index of the first marker `"BP:"` in `c`, or `c.len()`.
fn find_marker(c: &Vec<char>) -> (r: usize)
    ensures
        r as int == next_marker(c@, 0),
{
    let n = c.len();
    let mut i: usize = 0;
    while i < n && n - i >= 3
        invariant
            n == c@.len(),
            i <= n,
            next_marker(c@, 0) == next_marker(c@, i as int),
        decreases n - i,
    {
        if c[i] == 'B' && c[i + 1] == 'P' && c[i + 2] == ':' {
            return i;
        }
        i += 1;
    }
    n
}

impl NVTModels {
    /// The stop identifier carried by a raw feed identifier (see [`stop_id_of`]).
    pub fn extract_stop_id(full_id: &str) -> (r: Option<String>)
        ensures
            r matches Some(x) && x@ == stop_id_of(full_id@),
    {
        let c = chars_of(full_id);
        let n = c.len();
        let m = find_marker(&c);
        proof {
            lemma_next_marker(c@, 0);
        }
        if m < n {
            proof {
                lemma_next_colon(c@, m + 3);
            }
            let end = find_colon(&c, m + 3);
            return Some(full_id.substring_char(m + 3, end).to_owned());
        }
        match find_colon_before(&c, n) {
            Some(last) => {
                proof {
                    lemma_last_colon_before(c@, n as int);
                }
                let start = match find_colon_before(&c, last) {
                    Some(p) => p + 1,
                    None => 0,
                };
                proof {
                    lemma_last_colon_before(c@, last as int);
                }
                Some(full_id.substring_char(start, last).to_owned())
            },
            None => Some(full_id.to_owned()),
        }
    }

    /// The route identifier of a line reference (see [`line_id_of`]).
    pub fn extract_line_id(line_ref: &str) -> (r: Option<&str>)
        ensures
            match r {
                Some(x) => line_id_of(line_ref@) == Some(x@),
                None => line_id_of(line_ref@) is None,
            },
    {
        let c = chars_of(line_ref);
        let n = c.len();
        let c1 = find_colon(&c, 0);
        proof {
            lemma_next_colon(c@, 0);
        }
        if c1 >= n {
            return None;
        }
        let c2 = find_colon(&c, c1 + 1);
        proof {
            lemma_next_colon(c@, c1 + 1);
        }
        if c2 >= n {
            return None;
        }
        let c3 = find_colon(&c, c2 + 1);
        proof {
            lemma_next_colon(c@, c2 + 1);
        }
        Some(line_ref.substring_char(c2 + 1, c3))
    }
}

} // verus!
