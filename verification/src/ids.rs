//! Id specifications: the compact notation that selects entries by id, such
//! as `3,5-7,10`.
//!
//! A specification is a comma-separated list of segments. Around each segment
//! whitespace is ignored. A segment with a dash is an inclusive range, split
//! at its first dash, and both of its ends must be numbers, the first not
//! above the second; a segment without a dash is a single id; an empty
//! segment selects nothing.

use crate::error::DlogError;
use crate::text::{
    chars_of, decimal, decimal_chars, find_char, first_index, lemma_first_index_bound, parse_i32,
    parse_i32_spec, slice_of, split_chars, split_on, string_of, trim, trim_chars, views_of,
};
use vstd::prelude::*;
use vstd::string::StringExecFns;

verus! {

/// What one segment of an id specification means.
pub enum Segment {
    /// Nothing: the segment is empty.
    Empty,
    /// Every id from `lo` to `hi`, both included.
    Ids { lo: int, hi: int },
    /// The segment is malformed; the text says how.
    Malformed(Seq<char>),
}

/// The meaning of two range ends that both have been read.
pub open spec fn range_of(lo: int, hi: int) -> Segment {
    if lo > hi {
        Segment::Malformed(
            "Start of range "@ + decimal(lo) + " cannot be greater than end "@ + decimal(hi),
        )
    } else {
        Segment::Ids { lo, hi }
    }
}

/// The meaning of the segment `raw`.
pub open spec fn segment_of(raw: Seq<char>) -> Segment {
    let part = trim(raw);
    let dash = first_index(part, '-');
    if 0 <= dash < part.len() {
        let start = trim(part.take(dash));
        let end = trim(part.skip(dash + 1));
        match (parse_i32_spec(start), parse_i32_spec(end)) {
            (Some(lo), Some(hi)) => range_of(lo, hi),
            _ => Segment::Malformed("Invalid range: "@ + part),
        }
    } else if part.len() == 0 {
        Segment::Empty
    } else {
        match parse_i32_spec(part) {
            None => Segment::Malformed("Invalid ID: "@ + part),
            Some(id) => Segment::Ids { lo: id, hi: id },
        }
    }
}

/// Whether `segment` selects the id `n`.
pub open spec fn covers(segment: Segment, n: int) -> bool {
    match segment {
        Segment::Ids { lo, hi } => lo <= n <= hi,
        _ => false,
    }
}

/// The index of the first malformed segment of `segs`, or their number where
/// none is malformed.
pub open spec fn first_malformed(segs: Seq<Seq<char>>) -> int
    decreases segs.len(),
{
    if segs.len() == 0 || segment_of(segs[0]) is Malformed {
        0
    } else {
        1 + first_malformed(segs.skip(1))
    }
}

/// Whether one of the first `upto` segments of `segs` selects the id `n`.
pub open spec fn selects_within(segs: Seq<Seq<char>>, upto: int, n: int) -> bool {
    exists|j: int| 0 <= j < upto && j < segs.len() && covers(segment_of(#[trigger] segs[j]), n)
}

/// The meaning of the id specification `s`: the set of ids that its segments
/// select, or the complaint about its first malformed segment.
pub open spec fn id_spec(s: Seq<char>) -> Result<Set<int>, Seq<char>> {
    let segs = split_on(s, ',');
    let bad = first_malformed(segs);
    if 0 <= bad < segs.len() {
        Err(segment_of(segs[bad])->Malformed_0)
    } else {
        Ok(Set::new(|n: int| selects_within(segs, segs.len() as int, n)))
    }
}

/// Whether each element of `s` is less than the next.
pub open spec fn strictly_ascending(s: Seq<i32>) -> bool {
    forall|i: int, j: int| 0 <= i < j < s.len() ==> s[i] < s[j]
}

/// The set of the numbers that occur in `s`.
pub open spec fn ids_of(s: Seq<i32>) -> Set<int> {
    Set::new(|n: int| exists|k: int| 0 <= k < s.len() && #[trigger] s[k] == n)
}

/// An ascending list holds no number twice.
pub proof fn lemma_ascending_has_no_repeats(s: Seq<i32>)
    requires
        strictly_ascending(s),
    ensures
        s.no_duplicates(),
{
    assert forall|i: int, j: int| 0 <= i < s.len() && 0 <= j < s.len() && i != j implies s[i]
        != s[j] by {
        if i < j {
            assert(s[i] < s[j]);
        } else {
            assert(s[j] < s[i]);
        }
    }
}

/// `first_malformed` is the position before which no segment is malformed
/// and at which one is, or the number of segments.
pub proof fn lemma_first_malformed(segs: Seq<Seq<char>>, k: int)
    requires
        0 <= k <= segs.len(),
        forall|j: int| 0 <= j < k ==> !(segment_of(#[trigger] segs[j]) is Malformed),
        k < segs.len() ==> segment_of(segs[k]) is Malformed,
    ensures
        first_malformed(segs) == k,
    decreases k,
{
    if k > 0 {
        assert(!(segment_of(segs[0]) is Malformed));
        let rest = segs.skip(1);
        assert forall|j: int| 0 <= j < k - 1 implies !(segment_of(#[trigger] rest[j]) is Malformed) by {
            assert(rest[j] == segs[j + 1]);
        }
        lemma_first_malformed(rest, k - 1);
    }
}

/// The first malformed segment comes no later than any malformed segment,
/// and is itself malformed.
pub proof fn lemma_first_malformed_bound(segs: Seq<Seq<char>>, k: int)
    requires
        0 <= k < segs.len(),
        segment_of(segs[k]) is Malformed,
    ensures
        0 <= first_malformed(segs) <= k,
        segment_of(segs[first_malformed(segs)]) is Malformed,
    decreases k,
{
    if !(segment_of(segs[0]) is Malformed) {
        let rest = segs.skip(1);
        assert(rest[k - 1] == segs[k]);
        lemma_first_malformed_bound(rest, k - 1);
        assert(rest[first_malformed(rest)] == segs[first_malformed(rest) + 1]);
    }
}

/// A range is malformed where one of its ends is missing or not a number,
/// or where its start is above its end.
pub proof fn lemma_malformed_range(raw: Seq<char>)
    requires
        trim(raw).contains('-'),
        ({
            let part = trim(raw);
            let dash = first_index(part, '-');
            let start = parse_i32_spec(trim(part.take(dash)));
            let end = parse_i32_spec(trim(part.skip(dash + 1)));
            start is None || end is None || start->Some_0 > end->Some_0
        }),
    ensures
        segment_of(raw) is Malformed,
{
    let part = trim(raw);
    let at = choose|i: int| 0 <= i < part.len() && part[i] == '-';
    lemma_first_index_bound(part, '-', at);
}

/// An id specification with a malformed segment is rejected, whatever its
/// other segments are.
pub proof fn lemma_malformed_segment_fails(s: Seq<char>, k: int)
    requires
        0 <= k < split_on(s, ',').len(),
        segment_of(split_on(s, ',')[k]) is Malformed,
    ensures
        id_spec(s) is Err,
{
    lemma_first_malformed_bound(split_on(s, ','), k);
}

/// The error for malformed input that reads `prefix` followed by `detail`.
fn invalid_input(prefix: &str, detail: &Vec<char>) -> (e: DlogError)
    ensures
        e.is_invalid_input(prefix@ + detail@),
{
    let text = string_of(detail);
    DlogError::InvalidInput(String::from_str(prefix).concat(text.as_str()))
}

/// The error for a range whose start `lo` is greater than its end `hi`.
fn inverted_range(lo: i32, hi: i32) -> (e: DlogError)
    ensures
        e.is_invalid_input(
            "Start of range "@ + decimal(lo as int) + " cannot be greater than end "@ + decimal(
                hi as int,
            ),
        ),
{
    let start = string_of(&decimal_chars(lo));
    let end = string_of(&decimal_chars(hi));
    DlogError::InvalidInput(
        String::from_str("Start of range ").concat(start.as_str()).concat(
            " cannot be greater than end ",
        ).concat(end.as_str()),
    )
}

/// Reads one segment: the inclusive range of ids it selects, `None` for an
/// empty segment, or the error for a malformed one.
pub fn parse_segment(raw: &Vec<char>) -> (r: Result<Option<(i32, i32)>, DlogError>)
    ensures
        match segment_of(raw@) {
            Segment::Empty => r == Ok::<Option<(i32, i32)>, DlogError>(None),
            Segment::Ids { lo, hi } => r == Ok::<Option<(i32, i32)>, DlogError>(
                Some((lo as i32, hi as i32)),
            ) && i32::MIN <= lo <= hi <= i32::MAX,
            Segment::Malformed(msg) => r is Err && r->Err_0.is_invalid_input(msg),
        },
{
    let part = trim_chars(raw);
    match find_char(&part, '-') {
        Some(dash) => {
            let start = trim_chars(&slice_of(&part, 0, dash));
            let end = trim_chars(&slice_of(&part, dash + 1, part.len()));
            proof {
                assert(part@.take(dash as int) == part@.subrange(0, dash as int));
                assert(part@.skip(dash + 1) == part@.subrange(dash + 1, part.len() as int));
            }
            match (parse_i32(&start), parse_i32(&end)) {
                (Some(lo), Some(hi)) => {
                    if lo > hi {
                        Err(inverted_range(lo, hi))
                    } else {
                        Ok(Some((lo, hi)))
                    }
                },
                _ => Err(invalid_input("Invalid range: ", &part)),
            }
        },
        None => {
            if part.len() == 0 {
                return Ok(None);
            }
            match parse_i32(&part) {
                Some(id) => Ok(Some((id, id))),
                None => Err(invalid_input("Invalid ID: ", &part)),
            }
        },
    }
}

/// Adds every id from `lo` to `hi` to the ascending list `ids`, keeping it
/// ascending and free of repeats.
fn insert_range(ids: &mut Vec<i32>, lo: i32, hi: i32)
    requires
        strictly_ascending(old(ids)@),
        lo <= hi,
    ensures
        strictly_ascending(final(ids)@),
        forall|n: int|
            ids_of(final(ids)@).contains(n) <==> (ids_of(old(ids)@).contains(n) || lo <= n <= hi),
{
    let ghost before = ids@;
    let len = ids.len();
    let mut out: Vec<i32> = Vec::new();
    let mut i: usize = 0;
    while i < len && ids[i] < lo
        invariant
            len == ids.len(),
            ids@ == before,
            i <= len,
            out@ == before.take(i as int),
            forall|k: int| 0 <= k < i ==> #[trigger] before[k] < lo,
        decreases len - i,
    {
        out.push(ids[i]);
        i += 1;
    }
    let below = i;
    let mut next: i64 = lo as i64;
    while next <= hi as i64
        invariant
            lo <= next <= hi + 1,
            out@.len() == below + (next - lo),
            out@.take(below as int) == before.take(below as int),
            forall|k: int| below <= k < out@.len() ==> #[trigger] out@[k] == lo + (k - below),
        decreases hi + 1 - next,
    {
        let ghost prev = out@;
        out.push(next as i32);
        proof {
            assert(out@.take(below as int) == prev.take(below as int));
        }
        next += 1;
    }
    while i < len && ids[i] <= hi
        invariant
            len == ids.len(),
            ids@ == before,
            below <= i <= len,
            forall|k: int| below <= k < i ==> #[trigger] before[k] <= hi,
        decreases len - i,
    {
        i += 1;
    }
    let above = i;
    let ghost middle = out@;
    while i < len
        invariant
            len == ids.len(),
            ids@ == before,
            above <= i <= len,
            out@ == middle + before.subrange(above as int, i as int),
        decreases len - i,
    {
        out.push(ids[i]);
        i += 1;
    }
    proof {
        let fin = out@;
        let width = hi - lo + 1;
        assert(before.subrange(above as int, len as int) == before.skip(above as int));
        assert(fin.len() == below + width + (len - above));
        assert forall|k: int| 0 <= k < below implies fin[k] == before[k] && fin[k] < lo by {
            assert(fin[k] == middle[k]);
            assert(middle[k] == middle.take(below as int)[k]);
            assert(before[k] == before.take(below as int)[k]);
        }
        assert forall|k: int| below <= k < below + width implies fin[k] == lo + (k - below) by {
            assert(fin[k] == middle[k]);
        }
        assert forall|k: int| below + width <= k < fin.len() implies fin[k] == before[k - below
            - width + above] && fin[k] > hi by {
            let m = k - below - width + above;
            assert(fin[k] == before.skip(above as int)[k - below - width]);
            if m > above {
                assert(before[above as int] < before[m]);
            }
        }
        assert(strictly_ascending(fin)) by {
            assert forall|a: int, b: int| 0 <= a < b < fin.len() implies fin[a] < fin[b] by {
                if below + width <= a {
                    assert(before[a - below - width + above] < before[b - below - width + above]);
                } else if b < below {
                    assert(before[a] < before[b]);
                }
            }
        }
        assert forall|n: int|
            ids_of(fin).contains(n) <==> (ids_of(before).contains(n) || lo <= n <= hi) by {
            if ids_of(fin).contains(n) {
                let k = choose|k: int| 0 <= k < fin.len() && #[trigger] fin[k] == n;
                if k < below {
                    assert(before[k] == n);
                } else if k >= below + width {
                    assert(before[k - below - width + above] == n);
                }
            }
            if lo <= n <= hi {
                assert(fin[below + (n - lo)] == n);
            }
            if ids_of(before).contains(n) && !(lo <= n <= hi) {
                let k = choose|k: int| 0 <= k < before.len() && #[trigger] before[k] == n;
                if k < below {
                    assert(fin[k] == n);
                } else {
                    assert(k >= above);
                    assert(fin[k - above + below + width] == n);
                }
            }
        }
    }
    *ids = out;
}

/// Reads an id specification such as `3,5-7,10` into the ids it selects, in
/// ascending order and without repeats.
///
/// The input is malformed, and the result an `InvalidInput` error that cites
/// the first offending segment, where a single id is not a number, where a
/// range lacks an end or has one that is not a number, or where a range
/// starts above its end. The empty string selects nothing.
pub fn parse_id_range(s: &str) -> (r: Result<Vec<i32>, DlogError>)
    ensures
        match id_spec(s@) {
            Ok(selected) => r is Ok && strictly_ascending(r->Ok_0@) && ids_of(r->Ok_0@)
                == selected,
            Err(msg) => r is Err && r->Err_0.is_invalid_input(msg),
        },
        r is Ok ==> r->Ok_0@.no_duplicates(),
        s@.len() == 0 ==> r is Ok && r->Ok_0@.len() == 0,
{
    let chars = chars_of(s);
    let parts = split_chars(&chars, ',');
    let ghost segs = split_on(s@, ',');
    let mut ids: Vec<i32> = Vec::new();
    let mut i: usize = 0;
    while i < parts.len()
        invariant
            i <= parts.len(),
            views_of(parts@) == segs,
            segs == split_on(s@, ','),
            forall|j: int| 0 <= j < i ==> !(segment_of(#[trigger] segs[j]) is Malformed),
            strictly_ascending(ids@),
            forall|n: int| ids_of(ids@).contains(n) <==> selects_within(segs, i as int, n),
            s@.len() == 0 ==> ids@.len() == 0,
        decreases parts.len() - i,
    {
        assert(segs[i as int] == parts@[i as int]@);
        let ghost seen = ids@;
        match parse_segment(&parts[i]) {
            Err(e) => {
                proof {
                    lemma_first_malformed(segs, i as int);
                }
                return Err(e);
            },
            Ok(None) => {},
            Ok(Some((lo, hi))) => {
                proof {
                    if s@.len() == 0 {
                        assert(segs =~= seq![s@]);
                        assert(trim(s@) == s@);
                    }
                }
                insert_range(&mut ids, lo, hi);
            },
        }
        proof {
            assert forall|n: int| ids_of(ids@).contains(n) <==> selects_within(
                segs,
                i + 1,
                n,
            ) by {
                if selects_within(segs, i + 1, n) {
                    let j = choose|j: int|
                        0 <= j < i + 1 && j < segs.len() && covers(segment_of(#[trigger] segs[j]), n);
                    if j < i {
                        assert(selects_within(segs, i as int, n));
                    }
                }
                if ids_of(ids@).contains(n) {
                    if ids_of(seen).contains(n) {
                        assert(selects_within(segs, i as int, n));
                        let j = choose|j: int|
                            0 <= j < i && j < segs.len() && covers(
                                segment_of(#[trigger] segs[j]),
                                n,
                            );
                        assert(covers(segment_of(segs[j]), n));
                    } else {
                        assert(covers(segment_of(segs[i as int]), n));
                    }
                }
            }
        }
        i += 1;
    }
    proof {
        lemma_first_malformed(segs, i as int);
        assert(ids_of(ids@) =~= id_spec(s@)->Ok_0);
        lemma_ascending_has_no_repeats(ids@);
    }
    Ok(ids)
}

} // verus!
