//! The acquisition pipeline's verified core: the cadence gate that decides
//! when a refresh fires, and the reduction of a response into per-group
//! point series.
//!
//! The remote call itself, the async task loop and the channel live
//! outside the library; they hand rows in and take a payload back.

use vstd::prelude::*;

use chrono::Timelike;

use crate::dataset::facets_model;
use crate::dataset::Bounds;
use crate::dataset::FacetColors;
use crate::dataset::Payload;
use crate::query::NRQLQuery;
use crate::query::spec_render;

verus! {

/// One row of a telemetry response: the group key, the timestamp and the
/// value, the latter two opaque carrier words chosen by the caller.
pub struct TimeseriesRow {
    pub facet: String,
    pub timestamp: u64,
    pub value: u64,
}

/// The mathematical value of one response row.
pub ghost struct RowModel {
    pub facet: Seq<char>,
    pub timestamp: u64,
    pub value: u64,
}

/// The model of a row sequence.
pub open spec fn rows_model(rows: Seq<TimeseriesRow>) -> Seq<RowModel> {
    Seq::new(
        rows.len(),
        |i: int|
            RowModel {
                facet: rows[i].facet@,
                timestamp: rows[i].timestamp,
                value: rows[i].value,
            },
    )
}

/// A group key is present in grouped series.
pub open spec fn groups_have_key(s: Seq<(Seq<char>, Seq<(u64, u64)>)>, q: Seq<char>) -> bool {
    exists|i: int| 0 <= i < s.len() && s[i].0 == q
}

/// The position of a group key; meaningful only under unique keys.
pub open spec fn group_key_index(s: Seq<(Seq<char>, Seq<(u64, u64)>)>, q: Seq<char>) -> int {
    choose|i: int| 0 <= i < s.len() && s[i].0 == q
}

/// Group keys are pairwise distinct.
pub open spec fn groups_unique(s: Seq<(Seq<char>, Seq<(u64, u64)>)>) -> bool {
    forall|i: int, j: int| 0 <= i < j < s.len() ==> s[i].0 != s[j].0
}

/// Fold one row into the grouped series: a known group gains the point
/// `(timestamp, value)` at its tail; an unseen group opens with that
/// single point.
pub open spec fn spec_group_step(
    acc: Seq<(Seq<char>, Seq<(u64, u64)>)>,
    r: RowModel,
) -> Seq<(Seq<char>, Seq<(u64, u64)>)> {
    if groups_have_key(acc, r.facet) {
        let i = group_key_index(acc, r.facet);
        acc.update(i, (acc[i].0, acc[i].1.push((r.timestamp, r.value))))
    } else {
        acc.push((r.facet, seq![(r.timestamp, r.value)]))
    }
}

/// Group a response row by row, preserving response order within each
/// group and the order in which groups first appear.
pub open spec fn spec_group(rows: Seq<RowModel>) -> Seq<(Seq<char>, Seq<(u64, u64)>)>
    decreases rows.len(),
{
    if rows.len() == 0 {
        Seq::<(Seq<char>, Seq<(u64, u64)>)>::empty()
    } else {
        spec_group_step(spec_group(rows.drop_last()), rows.last())
    }
}

/// The position of the group keyed `key` in the series built so far.
fn find_group(out: &Vec<(String, Vec<(u64, u64)>)>, key: &String) -> (r: Option<usize>)
    ensures
        match r {
            Some(i) => i < facets_model(*out).len() && facets_model(*out)[i as int].0 == key@,
            None => !groups_have_key(facets_model(*out), key@),
        },
{
    let n = out.len();
    let mut i: usize = 0;
    while i < n
        invariant
            i <= n,
            n == out@.len(),
            forall|j: int| 0 <= j < i ==> facets_model(*out)[j].0 != key@,
        decreases n - i,
    {
        if out[i].0 == *key {
            proof {
                assert(facets_model(*out)[i as int].0 == key@);
            }
            return Some(i);
        }
        i += 1;
    }
    None
}

/// Reduce a response into per-group point series: rows are grouped by
/// their group key, and response order is kept as time order within each
/// group.
pub fn group_rows(rows: &Vec<TimeseriesRow>) -> (out: Vec<(String, Vec<(u64, u64)>)>)
    ensures
        facets_model(out) == spec_group(rows_model(rows@)),
        groups_unique(facets_model(out)),
{
    let mut out: Vec<(String, Vec<(u64, u64)>)> = Vec::new();
    let n = rows.len();
    proof {
        assert(rows_model(rows@.subrange(0, 0)) =~= Seq::<RowModel>::empty());
        assert(facets_model(out) =~= spec_group(rows_model(rows@.subrange(0, 0))));
    }
    let mut i: usize = 0;
    while i < n
        invariant
            i <= n,
            n == rows@.len(),
            facets_model(out) == spec_group(rows_model(rows@.subrange(0, i as int))),
            groups_unique(facets_model(out)),
        decreases n - i,
    {
        let ghost acc = facets_model(out);
        let ghost rm = rows_model(rows@.subrange(0, i as int + 1));
        proof {
            assert(rm.drop_last() =~= rows_model(rows@.subrange(0, i as int)));
            assert(rm.last() == rows_model(rows@)[i as int]);
        }
        let row = &rows[i];
        let found = find_group(&out, &row.facet);
        match found {
            Some(j) => {
                proof {
                    assert(groups_have_key(acc, row.facet@));
                    let k = group_key_index(acc, row.facet@);
                    assert(0 <= k < acc.len() && acc[k].0 == row.facet@);
                    assert(k == j as int);
                }
                let (key, mut pts) = out.remove(j);
                pts.push((row.timestamp, row.value));
                out.insert(j, (key, pts));
                proof {
                    assert(facets_model(out) =~= spec_group_step(acc, rm.last()));
                }
            },
            None => {
                let key = clone_row_key(&row.facet);
                let mut pts: Vec<(u64, u64)> = Vec::new();
                pts.push((row.timestamp, row.value));
                out.push((key, pts));
                proof {
                    assert(pts@ =~= seq![(row.timestamp, row.value)]);
                    assert(facets_model(out) =~= spec_group_step(acc, rm.last()));
                    assert forall|a: int, b: int|
                        0 <= a < b < facets_model(out).len() implies facets_model(out)[a].0
                        != facets_model(out)[b].0 by {
                        if b == facets_model(out).len() - 1 {
                            assert(acc[a].0 != row.facet@);
                        }
                    }
                }
            },
        }
        i += 1;
    }
    proof {
        assert(rows@.subrange(0, n as int) =~= rows@);
    }
    out
}

/// The distinct group keys of grouped series, in first-appearance order.
pub fn group_keys(data: &Vec<(String, Vec<(u64, u64)>)>) -> (keys: Vec<String>)
    ensures
        keys@.len() == facets_model(*data).len(),
        forall|i: int| 0 <= i < keys@.len() ==> keys@[i]@ == facets_model(*data)[i].0,
{
    let mut keys: Vec<String> = Vec::new();
    let n = data.len();
    let mut i: usize = 0;
    while i < n
        invariant
            i <= n,
            n == data@.len(),
            keys@.len() == i,
            forall|j: int| 0 <= j < i ==> keys@[j]@ == facets_model(*data)[j].0,
        decreases n - i,
    {
        let k = clone_row_key(&data[i].0);
        keys.push(k);
        i += 1;
    }
    keys
}

/// Build one payload for a refreshed query: its canonical text, the
/// grouped series of the response rows, the distinct group keys, and the
/// bounds the caller folded over the rows.
pub fn build_payload(query: &NRQLQuery, rows: &Vec<TimeseriesRow>, bounds: Bounds) -> (p: Payload)
    ensures
        p.query@ == spec_render(*query),
        facets_model(p.data) == spec_group(rows_model(rows@)),
        p.facets@.len() == facets_model(p.data).len(),
        forall|i: int| 0 <= i < p.facets@.len() ==> p.facets@[i]@ == facets_model(p.data)[i].0,
        p.bounds == bounds,
{
    let query_text = query.to_string();
    let data = group_rows(rows);
    let facets = group_keys(&data);
    Payload { query: query_text, data, bounds, facets }
}

/// A clone of a group key, equal to the original.
fn clone_row_key(s: &String) -> (r: String)
    ensures
        r == *s,
{
    let r = s.clone();
    r
}

/// Whether a refresh fires at this wall-clock second: the cadence gate
/// opens on every fifth second.
pub fn cadence_fires(second: u32) -> (r: bool)
    ensures
        r == (second % 5 == 0),
{
    second % 5 == 0
}

/// Relies on chrono's `Utc::now` and `Timelike::second`: the second number
/// of the current minute, 0 to 59.
#[verifier::external_body]
fn wall_clock_second() -> (r: u32)
    ensures
        r < 60,
{
    chrono::Utc::now().second()
}

/// Whether a refresh fires right now: the cadence gate applied to the
/// current wall-clock second.
pub fn cadence_fires_now() -> (r: bool) {
    let s = wall_clock_second();
    cadence_fires(s)
}

/// Relies on rand's `random`: one uniformly drawn byte; nothing is assumed
/// of its value.
#[verifier::external_body]
fn random_byte() -> u8 {
    rand::random::<u8>()
}

/// Give every group key of a payload a colour, drawing a fresh random one
/// for each key not yet in the table; keys already coloured, and every
/// earlier assignment, stay untouched.
pub fn assign_facet_colors(colors: &mut FacetColors, keys: &Vec<String>)
    requires
        old(colors).wf(),
    ensures
        final(colors).wf(),
        forall|i: int|
            0 <= i < old(colors).model().len() ==> final(colors).model()[i] == old(
                colors,
            ).model()[i],
        forall|j: int| 0 <= j < keys@.len() ==> final(colors).has_key(keys@[j]@),
        final(colors).model().len() <= old(colors).model().len() + keys@.len(),
{
    let n = keys.len();
    let mut i: usize = 0;
    while i < n
        invariant
            i <= n,
            n == keys@.len(),
            colors.wf(),
            forall|k: int|
                0 <= k < old(colors).model().len() ==> colors.model()[k] == old(
                    colors,
                ).model()[k],
            colors.model().len() >= old(colors).model().len(),
            forall|j: int| 0 <= j < i ==> colors.has_key(keys@[j]@),
            colors.model().len() <= old(colors).model().len() + i,
        decreases n - i,
    {
        let ghost before = colors.model();
        let key = clone_row_key(&keys[i]);
        let color = (random_byte(), random_byte(), random_byte());
        colors.assign(key, color);
        proof {
            assert(colors.has_key(keys@[i as int]@));
            assert forall|j: int| 0 <= j < i + 1 implies colors.has_key(keys@[j]@) by {
                if j < i {
                    let w = choose|w: int|
                        0 <= w < before.len() && before[w].0 == keys@[j]@;
                    assert(colors.model()[w].0 == keys@[j]@);
                }
            }
        }
        i += 1;
    }
}

} // verus!
