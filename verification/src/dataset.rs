//! The dataset store: one record per active query, holding its latest
//! series data, its display alias and the selection bookkeeping, together
//! with the log buffer and the per-group colour table.
//!
//! Removed queries leave a tombstone behind, so that a payload arriving
//! late for an already-deleted query is dropped instead of resurrecting
//! the entry.

use vstd::prelude::*;

use crate::laws::lemma_find_props;
use crate::parser::has_sub;
use crate::parser::lines_model;
use crate::parser::occurs_at;
use crate::parser::spec_find;
use crate::parser::spec_split_lines;
use crate::parser::split_lines;

verus! {

/// Axis bounds of a series: minima and maxima over the time axis and the
/// value axis, as opaque carrier words chosen by the caller.
#[derive(Debug, Clone, Copy)]
pub struct Bounds {
    pub mins: (u64, u64),
    pub maxes: (u64, u64),
}

impl Default for Bounds {
    /// The bounds of a placeholder entry that has no data yet.
    fn default() -> (r: Bounds)
        ensures
            r.mins == (0u64, 0u64) && r.maxes == (0u64, 0u64),
    {
        Bounds { mins: (0, 0), maxes: (0, 0) }
    }
}

/// One query's record: its alias, its per-group point series, its axis
/// bounds, a selection marker for list-cursor stability, and whether any
/// payload has arrived yet.
pub struct Dataset {
    pub query_alias: Option<String>,
    pub facets: Vec<(String, Vec<(u64, u64)>)>,
    pub bounds: Bounds,
    pub selection: String,
    pub has_data: bool,
}

/// One refresh result for a query: the grouped series, the bounds folded
/// over every row, and the distinct group keys seen.
pub struct Payload {
    pub query: String,
    pub data: Vec<(String, Vec<(u64, u64)>)>,
    pub bounds: Bounds,
    pub facets: Vec<String>,
}

/// The mathematical value of a grouped series: group key and points.
pub open spec fn facets_model(v: Vec<(String, Vec<(u64, u64)>)>) -> Seq<
    (Seq<char>, Seq<(u64, u64)>),
> {
    Seq::new(v@.len(), |i: int| (v@[i].0@, v@[i].1@))
}

/// The mathematical value of one dataset record.
pub ghost struct DataModel {
    pub alias: Option<Seq<char>>,
    pub facets: Seq<(Seq<char>, Seq<(u64, u64)>)>,
    pub bounds: Bounds,
    pub selection: Seq<char>,
    pub has_data: bool,
}

/// The model of a stored record.
pub open spec fn dataset_model(d: Dataset) -> DataModel {
    DataModel {
        alias: match d.query_alias {
            Some(a) => Some(a@),
            None => None,
        },
        facets: facets_model(d.facets),
        bounds: d.bounds,
        selection: d.selection@,
        has_data: d.has_data,
    }
}

/// A store model: the visual list of entries, each a key and a record.
pub open spec fn model_has_key(s: Seq<(Seq<char>, DataModel)>, q: Seq<char>) -> bool {
    exists|i: int| 0 <= i < s.len() && s[i].0 == q
}

/// The position of the entry keyed `q`; meaningful only under unique keys.
pub open spec fn model_key_index(s: Seq<(Seq<char>, DataModel)>, q: Seq<char>) -> int {
    choose|i: int| 0 <= i < s.len() && s[i].0 == q
}

/// Keys of a store model are pairwise distinct.
pub open spec fn model_unique_keys(s: Seq<(Seq<char>, DataModel)>) -> bool {
    forall|i: int, j: int| 0 <= i < j < s.len() ==> s[i].0 != s[j].0
}

/// An entry after a payload lands on it: series, bounds and the data flag
/// are replaced; the alias and the selection marker are untouched.
pub open spec fn upserted_entry(
    e: (Seq<char>, DataModel),
    facets: Seq<(Seq<char>, Seq<(u64, u64)>)>,
    bounds: Bounds,
) -> (Seq<char>, DataModel) {
    (
        e.0,
        DataModel {
            alias: e.1.alias,
            facets,
            bounds,
            selection: e.1.selection,
            has_data: true,
        },
    )
}

/// The entry created when a payload arrives for a key not yet stored.
pub open spec fn fresh_entry(
    q: Seq<char>,
    facets: Seq<(Seq<char>, Seq<(u64, u64)>)>,
    bounds: Bounds,
) -> (Seq<char>, DataModel) {
    (
        q,
        DataModel {
            alias: None,
            facets,
            bounds,
            selection: Seq::<char>::empty(),
            has_data: true,
        },
    )
}

/// The placeholder entry created when a rename arrives before any data.
pub open spec fn placeholder_entry(q: Seq<char>, alias: Seq<char>) -> (Seq<char>, DataModel) {
    (
        q,
        DataModel {
            alias: Some(alias),
            facets: Seq::<(Seq<char>, Seq<(u64, u64)>)>::empty(),
            bounds: Bounds { mins: (0, 0), maxes: (0, 0) },
            selection: Seq::<char>::empty(),
            has_data: false,
        },
    )
}

/// Applying a payload to a store model: update in place when the key is
/// stored, append a fresh entry otherwise.
pub open spec fn spec_upsert(
    s: Seq<(Seq<char>, DataModel)>,
    q: Seq<char>,
    facets: Seq<(Seq<char>, Seq<(u64, u64)>)>,
    bounds: Bounds,
) -> Seq<(Seq<char>, DataModel)> {
    if model_has_key(s, q) {
        let i = model_key_index(s, q);
        s.update(i, upserted_entry(s[i], facets, bounds))
    } else {
        s.push(fresh_entry(q, facets, bounds))
    }
}

/// Renaming in a store model: set the alias in place when the key is
/// stored, append a placeholder otherwise.
pub open spec fn spec_rename(
    s: Seq<(Seq<char>, DataModel)>,
    q: Seq<char>,
    alias: Seq<char>,
) -> Seq<(Seq<char>, DataModel)> {
    if model_has_key(s, q) {
        let i = model_key_index(s, q);
        s.update(
            i,
            (
                s[i].0,
                DataModel {
                    alias: Some(alias),
                    facets: s[i].1.facets,
                    bounds: s[i].1.bounds,
                    selection: s[i].1.selection,
                    has_data: s[i].1.has_data,
                },
            ),
        )
    } else {
        s.push(placeholder_entry(q, alias))
    }
}

/// The in-memory store of query records, in visual list order, with the
/// selection cursor and the tombstones of removed keys.
pub struct Datasets {
    pub entries: Vec<(String, Dataset)>,
    pub selected: String,
    pub selected_index: Option<usize>,
    pub tombstones: Vec<String>,
}

impl Datasets {
    /// The mathematical value of the store: keys and record models in
    /// visual order.
    pub open spec fn model(self) -> Seq<(Seq<char>, DataModel)> {
        Seq::new(self.entries@.len(), |i: int| (self.entries@[i].0@, dataset_model(self.entries@[i].1)))
    }

    /// A key is stored.
    pub open spec fn has_key(self, q: Seq<char>) -> bool {
        model_has_key(self.model(), q)
    }

    /// Well-formed: keys are unique and the cursor is in range.
    pub open spec fn wf(self) -> bool {
        &&& model_unique_keys(self.model())
        &&& match self.selected_index {
            Some(i) => i < self.entries@.len(),
            None => true,
        }
    }

    /// An empty store.
    pub fn new() -> (r: Datasets)
        ensures
            r.wf(),
            r.model() == Seq::<(Seq<char>, DataModel)>::empty(),
            r.selected_index is None,
            r.tombstones@.len() == 0,
    {
        let r = Datasets {
            entries: Vec::new(),
            selected: String::new(),
            selected_index: None,
            tombstones: Vec::new(),
        };
        proof {
            assert(r.model() =~= Seq::<(Seq<char>, DataModel)>::empty());
        }
        r
    }

    /// The number of stored entries.
    pub fn len(&self) -> (r: usize)
        ensures
            r == self.model().len(),
    {
        self.entries.len()
    }

    /// Whether the store is empty.
    pub fn is_empty(&self) -> (r: bool)
        ensures
            r == (self.model().len() == 0),
    {
        self.entries.len() == 0
    }

    /// The position of the entry keyed by `query`, scanning in visual
    /// order.
    fn find_key(&self, query: &String) -> (r: Option<usize>)
        ensures
            match r {
                Some(i) => i < self.model().len() && self.model()[i as int].0 == query@,
                None => !self.has_key(query@),
            },
    {
        let n = self.entries.len();
        let mut i: usize = 0;
        while i < n
            invariant
                i <= n,
                n == self.entries@.len(),
                forall|j: int| 0 <= j < i ==> self.model()[j].0 != query@,
            decreases n - i,
        {
            if self.entries[i].0 == *query {
                return Some(i);
            }
            i += 1;
        }
        None
    }

    /// Apply a payload's series and bounds under its query key: update the
    /// stored entry in place, preserving its alias and selection marker,
    /// or create a fresh entry when the key is new.
    pub fn upsert(
        &mut self,
        query: String,
        data: Vec<(String, Vec<(u64, u64)>)>,
        bounds: Bounds,
    )
        requires
            old(self).wf(),
        ensures
            final(self).wf(),
            final(self).model() == spec_upsert(
                old(self).model(),
                query@,
                facets_model(data),
                bounds,
            ),
            final(self).selected_index == old(self).selected_index,
            final(self).selected == old(self).selected,
            final(self).tombstones == old(self).tombstones,
    {
        let found = self.find_key(&query);
        match found {
            Some(i) => {
                let ghost s = self.model();
                proof {
                    assert(model_has_key(s, query@));
                    let j = model_key_index(s, query@);
                    assert(0 <= j < s.len() && s[j].0 == query@);
                    assert(j == i as int);
                }
                let (k, d) = self.entries.remove(i);
                let updated = Dataset {
                    query_alias: d.query_alias,
                    facets: data,
                    bounds,
                    selection: d.selection,
                    has_data: true,
                };
                self.entries.insert(i, (k, updated));
                proof {
                    assert(self.model() =~= spec_upsert(s, query@, facets_model(data), bounds));
                }
            },
            None => {
                let ghost s = self.model();
                let fresh = Dataset {
                    query_alias: None,
                    facets: data,
                    bounds,
                    selection: String::new(),
                    has_data: true,
                };
                self.entries.push((query, fresh));
                proof {
                    assert(self.model() =~= spec_upsert(s, query@, facets_model(data), bounds));
                    assert forall|i: int, j: int|
                        0 <= i < j < self.model().len() implies self.model()[i].0
                        != self.model()[j].0 by {
                        if j == self.model().len() - 1 {
                            assert(!model_has_key(s, query@));
                            assert(s[i].0 != query@);
                        }
                    }
                }
            },
        }
    }

    /// Give the entry keyed by `query` a display alias; when no entry
    /// exists yet, create a placeholder with no data, so the alias is
    /// visible while the first payload is pending.
    pub fn rename(&mut self, query: String, alias: String)
        requires
            old(self).wf(),
        ensures
            final(self).wf(),
            final(self).model() == spec_rename(old(self).model(), query@, alias@),
            final(self).selected_index == old(self).selected_index,
            final(self).selected == old(self).selected,
            final(self).tombstones == old(self).tombstones,
    {
        let found = self.find_key(&query);
        match found {
            Some(i) => {
                let ghost s = self.model();
                proof {
                    assert(model_has_key(s, query@));
                    let j = model_key_index(s, query@);
                    assert(0 <= j < s.len() && s[j].0 == query@);
                    assert(j == i as int);
                }
                let (k, d) = self.entries.remove(i);
                let updated = Dataset {
                    query_alias: Some(alias),
                    facets: d.facets,
                    bounds: d.bounds,
                    selection: d.selection,
                    has_data: d.has_data,
                };
                self.entries.insert(i, (k, updated));
                proof {
                    assert(self.model() =~= spec_rename(s, query@, alias@));
                }
            },
            None => {
                let ghost s = self.model();
                let placeholder = Dataset {
                    query_alias: Some(alias),
                    facets: Vec::new(),
                    bounds: Bounds::default(),
                    selection: String::new(),
                    has_data: false,
                };
                self.entries.push((query, placeholder));
                proof {
                    assert(facets_model(self.entries@.last().1.facets) =~= Seq::<
                        (Seq<char>, Seq<(u64, u64)>),
                    >::empty());
                    assert(self.model() =~= spec_rename(s, query@, alias@));
                    assert forall|i: int, j: int|
                        0 <= i < j < self.model().len() implies self.model()[i].0
                        != self.model()[j].0 by {
                        if j == self.model().len() - 1 {
                            assert(!model_has_key(s, query@));
                            assert(s[i].0 != query@);
                        }
                    }
                }
            },
        }
    }
}

/// The selection cursor after removing one entry: kept while still in
/// range, clamped to the last position otherwise, and cleared on an empty
/// list.
pub open spec fn clamped_index(idx: Option<usize>, new_len: nat) -> Option<usize> {
    match idx {
        None => None,
        Some(k) => if new_len == 0 {
            None
        } else if k < new_len {
            Some(k)
        } else {
            Some((new_len - 1) as usize)
        },
    }
}

/// The circular successor over a non-empty list: unset starts at the top,
/// the last position wraps to the first.
pub open spec fn next_index(idx: Option<usize>, len: nat) -> usize {
    match idx {
        None => 0,
        Some(i) => if i + 1 >= len {
            0
        } else {
            (i + 1) as usize
        },
    }
}

/// The circular predecessor over a non-empty list: unset starts at the
/// top, the first position wraps to the last.
pub open spec fn prev_index(idx: Option<usize>, len: nat) -> usize {
    match idx {
        None => 0,
        Some(i) => if i == 0 {
            (len - 1) as usize
        } else {
            (i - 1) as usize
        },
    }
}

/// A key is on the tombstone list.
pub open spec fn key_tombstoned(ts: Seq<String>, q: Seq<char>) -> bool {
    exists|i: int| 0 <= i < ts.len() && ts[i]@ == q
}

impl Datasets {
    /// Remove the entry at visual position `i`, leave its key on the
    /// tombstone list, and clamp the selection cursor back into range.
    pub fn remove_at(&mut self, i: usize) -> (removed: String)
        requires
            old(self).wf(),
            i < old(self).model().len(),
        ensures
            final(self).wf(),
            final(self).model() == old(self).model().remove(i as int),
            removed@ == old(self).model()[i as int].0,
            final(self).tombstones@ == old(self).tombstones@.push(removed),
            final(self).selected_index == clamped_index(
                old(self).selected_index,
                (old(self).model().len() - 1) as nat,
            ),
            final(self).selected == old(self).selected,
    {
        let ghost s = self.model();
        let (key, _d) = self.entries.remove(i);
        let removed = clone_string(&key);
        self.tombstones.push(key);
        let new_len = self.entries.len();
        match self.selected_index {
            None => {},
            Some(k) => {
                if new_len == 0 {
                    self.selected_index = None;
                } else if k >= new_len {
                    self.selected_index = Some(new_len - 1);
                }
            },
        }
        proof {
            assert(self.model() =~= s.remove(i as int));
        }
        removed
    }

    /// Remove the entry under the selection cursor and hand back its key,
    /// so the caller can cancel the matching refresh task; with nothing
    /// selected this is a no-op.
    pub fn delete_selected(&mut self) -> (removed: Option<String>)
        requires
            old(self).wf(),
        ensures
            final(self).wf(),
            match old(self).selected_index {
                None => {
                    &&& removed is None
                    &&& final(self).entries == old(self).entries
                    &&& final(self).model() == old(self).model()
                    &&& final(self).selected_index == old(self).selected_index
                    &&& final(self).tombstones == old(self).tombstones
                    &&& final(self).selected == old(self).selected
                },
                Some(i) => {
                    &&& removed is Some
                    &&& removed->Some_0@ == old(self).model()[i as int].0
                    &&& final(self).model() == old(self).model().remove(i as int)
                    &&& final(self).tombstones@ == old(self).tombstones@.push(
                        removed->Some_0,
                    )
                    &&& final(self).selected_index == clamped_index(
                        old(self).selected_index,
                        (old(self).model().len() - 1) as nat,
                    )
                },
            },
    {
        match self.selected_index {
            None => None,
            Some(i) => {
                let removed = self.remove_at(i);
                Some(removed)
            },
        }
    }

    /// Move the selection cursor to the circular successor and remember
    /// the key under it; a no-op on an empty list.
    pub fn select_next(&mut self)
        requires
            old(self).wf(),
        ensures
            final(self).wf(),
            final(self).entries == old(self).entries,
            final(self).model() == old(self).model(),
            final(self).tombstones == old(self).tombstones,
            old(self).model().len() == 0 ==> final(self).selected_index == old(
                self,
            ).selected_index && final(self).selected == old(self).selected,
            old(self).model().len() > 0 ==> {
                &&& final(self).selected_index == Some(
                    next_index(old(self).selected_index, old(self).model().len()),
                )
                &&& final(self).selected@ == old(self).model()[next_index(
                    old(self).selected_index,
                    old(self).model().len(),
                ) as int].0
            },
    {
        let n = self.entries.len();
        if n == 0 {
            return ;
        }
        let i = match self.selected_index {
            None => 0,
            Some(i) => if i + 1 >= n {
                0
            } else {
                i + 1
            },
        };
        self.selected_index = Some(i);
        self.selected = clone_string(&self.entries[i].0);
    }

    /// Move the selection cursor to the circular predecessor and remember
    /// the key under it; a no-op on an empty list.
    pub fn select_previous(&mut self)
        requires
            old(self).wf(),
        ensures
            final(self).wf(),
            final(self).entries == old(self).entries,
            final(self).model() == old(self).model(),
            final(self).tombstones == old(self).tombstones,
            old(self).model().len() == 0 ==> final(self).selected_index == old(
                self,
            ).selected_index && final(self).selected == old(self).selected,
            old(self).model().len() > 0 ==> {
                &&& final(self).selected_index == Some(
                    prev_index(old(self).selected_index, old(self).model().len()),
                )
                &&& final(self).selected@ == old(self).model()[prev_index(
                    old(self).selected_index,
                    old(self).model().len(),
                ) as int].0
            },
    {
        let n = self.entries.len();
        if n == 0 {
            return ;
        }
        let i = match self.selected_index {
            None => 0,
            Some(i) => if i == 0 {
                n - 1
            } else {
                i - 1
            },
        };
        self.selected_index = Some(i);
        self.selected = clone_string(&self.entries[i].0);
    }

    /// Whether a late payload for `query` must be dropped because the
    /// entry was removed.
    pub fn is_tombstoned(&self, query: &String) -> (r: bool)
        ensures
            r == key_tombstoned(self.tombstones@, query@),
    {
        let n = self.tombstones.len();
        let mut i: usize = 0;
        while i < n
            invariant
                i <= n,
                n == self.tombstones@.len(),
                forall|j: int| 0 <= j < i ==> self.tombstones@[j]@ != query@,
            decreases n - i,
        {
            if self.tombstones[i] == *query {
                return true;
            }
            i += 1;
        }
        false
    }

    /// Clear any tombstone for `query`: the operator added the query
    /// again, so future payloads for it are live.
    pub fn note_added(&mut self, query: &String)
        requires
            old(self).wf(),
        ensures
            final(self).wf(),
            final(self).model() == old(self).model(),
            final(self).selected_index == old(self).selected_index,
            final(self).selected == old(self).selected,
            !key_tombstoned(final(self).tombstones@, query@),
            forall|i: int|
                0 <= i < final(self).tombstones@.len() ==> old(self).tombstones@.contains(
                    final(self).tombstones@[i],
                ),
    {
        let ghost orig = self.tombstones@;
        let mut kept: Vec<String> = Vec::new();
        let n = self.tombstones.len();
        let mut i: usize = 0;
        while i < n
            invariant
                i <= n,
                n == self.tombstones@.len(),
                self.tombstones@ == orig,
                forall|j: int| 0 <= j < kept@.len() ==> #[trigger] kept@[j]@ != query@,
                forall|j: int| 0 <= j < kept@.len() ==> orig.contains(#[trigger] kept@[j]),
            decreases n - i,
        {
            if !(self.tombstones[i] == *query) {
                let t = clone_string(&self.tombstones[i]);
                proof {
                    assert(orig[i as int]@ == t@);
                    assert(orig.contains(orig[i as int]));
                }
                kept.push(t);
            }
            i += 1;
        }
        self.tombstones = kept;
    }

    /// Apply one drained payload: dropped when its query key carries a
    /// tombstone, folded into the store otherwise.
    pub fn apply_payload(
        &mut self,
        query: String,
        data: Vec<(String, Vec<(u64, u64)>)>,
        bounds: Bounds,
    ) -> (applied: bool)
        requires
            old(self).wf(),
        ensures
            final(self).wf(),
            applied == !key_tombstoned(old(self).tombstones@, query@),
            !applied ==> {
                &&& final(self).model() == old(self).model()
                &&& final(self).tombstones == old(self).tombstones
                &&& final(self).selected_index == old(self).selected_index
            },
            applied ==> {
                &&& final(self).model() == spec_upsert(
                    old(self).model(),
                    query@,
                    facets_model(data),
                    bounds,
                )
                &&& final(self).tombstones == old(self).tombstones
                &&& final(self).selected_index == old(self).selected_index
            },
    {
        if self.is_tombstoned(&query) {
            return false;
        }
        self.upsert(query, data, bounds);
        true
    }
}

/// A clone of a string, equal to the original.
fn clone_string(s: &String) -> (r: String)
    ensures
        r == *s,
{
    let r = s.clone();
    r
}

/// Whether `pat` occurs somewhere inside `line`.
fn line_contains(line: &String, pat: &String) -> (r: bool)
    ensures
        r == has_sub(line@, pat@),
{
    let found = crate::parser::find_in(line.as_str(), pat.as_str());
    proof {
        lemma_find_props(line@, pat@, 0);
        if found is Some {
            let i = spec_find(line@, pat@, 0)->Some_0;
            assert(occurs_at(line@, pat@, i));
        } else {
            if has_sub(line@, pat@) {
                let i = choose|i: int| occurs_at(line@, pat@, i);
                assert(occurs_at(line@, pat@, i));
            }
        }
    }
    found.is_some()
}

/// A log entry survives a filter when at least one of its lines contains
/// the filter text.
pub open spec fn entry_matches(e: (String, Vec<String>), f: Seq<char>) -> bool {
    exists|j: int| 0 <= j < e.1@.len() && has_sub(e.1@[j]@, f)
}

/// Whether at least one line of the entry contains the filter text.
fn entry_contains(e: &(String, Vec<String>), f: &String) -> (r: bool)
    ensures
        r == entry_matches(*e, f@),
{
    let n = e.1.len();
    let mut j: usize = 0;
    while j < n
        invariant
            j <= n,
            n == e.1@.len(),
            forall|k: int| 0 <= k < j ==> !has_sub(e.1@[k]@, f@),
        decreases n - j,
    {
        if line_contains(&e.1[j], f) {
            return true;
        }
        j += 1;
    }
    false
}

/// A log entry survives the active filter set when at least one of its
/// lines contains at least one of the filters.
pub open spec fn entry_matches_any(e: (String, Vec<String>), fs: Seq<String>) -> bool {
    exists|i: int| 0 <= i < fs.len() && entry_matches(e, fs[i]@)
}

/// Whether at least one active filter matches at least one line of the
/// entry.
fn entry_contains_any(e: &(String, Vec<String>), fs: &Vec<String>) -> (r: bool)
    ensures
        r == entry_matches_any(*e, fs@),
{
    let n = fs.len();
    let mut i: usize = 0;
    while i < n
        invariant
            i <= n,
            n == fs@.len(),
            forall|k: int| 0 <= k < i ==> !entry_matches(*e, fs@[k]@),
        decreases n - i,
    {
        if entry_contains(e, &fs[i]) {
            return true;
        }
        i += 1;
    }
    false
}

/// The log buffer: timestamped entries in order, the filters applied so
/// far, the two list cursors, and the chart summary shown beside the log.
pub struct Logs {
    pub logs: Vec<(String, Vec<String>)>,
    pub filters: Vec<String>,
    pub selected: String,
    pub selected_index: Option<usize>,
    pub item_index: Option<usize>,
    pub chart_data: Vec<(u64, u64)>,
    pub bounds: Bounds,
}

impl Logs {
    /// An empty log buffer.
    pub fn new() -> (r: Logs)
        ensures
            r.logs@.len() == 0,
            r.filters@.len() == 0,
            r.selected_index is None,
            r.item_index is None,
    {
        Logs {
            logs: Vec::new(),
            filters: Vec::new(),
            selected: String::new(),
            selected_index: None,
            item_index: None,
            chart_data: Vec::new(),
            bounds: Bounds::default(),
        }
    }

    /// The number of log entries.
    pub fn len(&self) -> (r: usize)
        ensures
            r == self.logs@.len(),
    {
        self.logs.len()
    }

    /// Whether the buffer holds no entries.
    pub fn is_empty(&self) -> (r: bool)
        ensures
            r == (self.logs@.len() == 0),
    {
        self.logs.len() == 0
    }

    /// Replace the whole buffer with a freshly arrived batch of
    /// timestamped log texts, each text split into its lines; the cursors,
    /// the filters and the selection start over.
    pub fn replace(
        &mut self,
        entries: Vec<(String, String)>,
        chart_data: Vec<(u64, u64)>,
        bounds: Bounds,
    )
        ensures
            final(self).logs@.len() == entries@.len(),
            forall|i: int|
                0 <= i < entries@.len() ==> {
                    &&& (#[trigger] final(self).logs@[i]).0 == entries@[i].0
                    &&& lines_model(final(self).logs@[i].1) == spec_split_lines(
                        entries@[i].1@,
                    )
                },
            final(self).filters@.len() == 0,
            final(self).selected_index is None,
            final(self).item_index is None,
            final(self).selected@ == Seq::<char>::empty(),
            final(self).chart_data == chart_data,
            final(self).bounds == bounds,
    {
        let ghost orig = entries@;
        let ghost total = orig.len();
        let mut rest = entries;
        let mut logs: Vec<(String, Vec<String>)> = Vec::new();
        while rest.len() > 0
            invariant
                rest@.len() <= total,
                total == orig.len(),
                rest@ == orig.subrange(total - rest@.len(), total as int),
                logs@.len() == total - rest@.len(),
                forall|i: int|
                    0 <= i < logs@.len() ==> {
                        &&& (#[trigger] logs@[i]).0 == orig[i].0
                        &&& lines_model(logs@[i].1) == spec_split_lines(orig[i].1@)
                    },
            decreases rest@.len(),
        {
            let ghost k = total - rest@.len();
            let (ts, text) = rest.remove(0);
            proof {
                assert((ts, text) == orig[k]);
                assert(rest@ =~= orig.subrange(k + 1, total as int));
            }
            let lines = split_lines(text.as_str());
            logs.push((ts, lines));
        }
        self.logs = logs;
        self.filters = Vec::new();
        self.selected = String::new();
        self.selected_index = None;
        self.item_index = None;
        self.chart_data = chart_data;
        self.bounds = bounds;
    }

    /// Apply one more filter: entries with no line containing the filter
    /// text are dropped for good; surviving entries keep their order. The
    /// reduction is destructive and cumulative — a later filter can only
    /// narrow what an earlier one left.
    pub fn add_filter(&mut self, filter: String)
        ensures
            final(self).filters@ == old(self).filters@.push(filter),
            final(self).logs@ == old(self).logs@.filter(
                (|e: (String, Vec<String>)| entry_matches_any(
                    e,
                    old(self).filters@.push(filter),
                )),
            ),
            final(self).selected == old(self).selected,
            final(self).selected_index == old(self).selected_index,
            final(self).item_index == old(self).item_index,
            final(self).chart_data == old(self).chart_data,
            final(self).bounds == old(self).bounds,
    {
        self.filters.push(filter);
        let ghost fs = self.filters@;
        let ghost orig = self.logs@;
        let ghost pred = (|e: (String, Vec<String>)| entry_matches_any(e, fs));
        let mut kept: Vec<(String, Vec<String>)> = Vec::new();
        proof {
            assert(orig.subrange(0, 0) =~= Seq::<(String, Vec<String>)>::empty());
            reveal_with_fuel(Seq::<(String, Vec<String>)>::filter, 1);
            assert(kept@ =~= orig.subrange(0, 0).filter(pred));
        }
        let ghost total = orig.len();
        while self.logs.len() > 0
            invariant
                self.logs@.len() <= total,
                total == orig.len(),
                fs == self.filters@,
                pred == (|e: (String, Vec<String>)| entry_matches_any(e, fs)),
                self.logs@ == orig.subrange(
                    total - self.logs@.len(),
                    total as int,
                ),
                kept@ == orig.subrange(0, total - self.logs@.len()).filter(pred),
                self.filters@ == old(self).filters@.push(filter),
                self.selected == old(self).selected,
                self.selected_index == old(self).selected_index,
                self.item_index == old(self).item_index,
                self.chart_data == old(self).chart_data,
                self.bounds == old(self).bounds,
            decreases self.logs@.len(),
        {
            let ghost k = total - self.logs@.len();
            let e = self.logs.remove(0);
            proof {
                assert(e == orig[k]);
                assert(self.logs@ =~= orig.subrange(k + 1, total as int));
            }
            let keep = entry_contains_any(&e, &self.filters);
            proof {
                let before = orig.subrange(0, k);
                let after = orig.subrange(0, k + 1);
                assert(after.drop_last() =~= before);
                assert(after.last() == orig[k]);
                reveal_with_fuel(Seq::<(String, Vec<String>)>::filter, 2);
                if pred(orig[k]) {
                    assert(after.filter(pred) == before.filter(pred).push(orig[k]));
                } else {
                    assert(after.filter(pred) == before.filter(pred));
                }
            }
            if keep {
                kept.push(e);
            }
        }
        proof {
            assert(orig.subrange(0, total as int) =~= orig);
        }
        self.logs = kept;
    }
}

/// A list cursor reduced to a valid position: an index past the end of
/// the list counts as unset.
pub open spec fn norm_index(idx: Option<usize>, len: nat) -> Option<usize> {
    match idx {
        Some(i) => if i < len {
            Some(i)
        } else {
            None
        },
        None => None,
    }
}

impl Logs {
    /// Move the entry cursor to the circular successor and remember the
    /// key under it; a no-op on an empty buffer.
    pub fn entry_next(&mut self)
        ensures
            final(self).logs == old(self).logs,
            final(self).filters == old(self).filters,
            final(self).item_index == old(self).item_index,
            final(self).chart_data == old(self).chart_data,
            old(self).logs@.len() == 0 ==> final(self).selected_index == old(
                self,
            ).selected_index && final(self).selected == old(self).selected,
            old(self).logs@.len() > 0 ==> {
                let i = next_index(
                    norm_index(old(self).selected_index, old(self).logs@.len()),
                    old(self).logs@.len(),
                );
                &&& final(self).selected_index == Some(i)
                &&& final(self).selected == old(self).logs@[i as int].0
            },
    {
        let n = self.logs.len();
        if n == 0 {
            return ;
        }
        let i = match self.selected_index {
            Some(i) => if i < n {
                if i + 1 >= n {
                    0
                } else {
                    i + 1
                }
            } else {
                0
            },
            None => 0,
        };
        self.selected_index = Some(i);
        self.selected = clone_string(&self.logs[i].0);
    }

    /// Move the entry cursor to the circular predecessor and remember the
    /// key under it; a no-op on an empty buffer.
    pub fn entry_prev(&mut self)
        ensures
            final(self).logs == old(self).logs,
            final(self).filters == old(self).filters,
            final(self).item_index == old(self).item_index,
            final(self).chart_data == old(self).chart_data,
            old(self).logs@.len() == 0 ==> final(self).selected_index == old(
                self,
            ).selected_index && final(self).selected == old(self).selected,
            old(self).logs@.len() > 0 ==> {
                let i = prev_index(
                    norm_index(old(self).selected_index, old(self).logs@.len()),
                    old(self).logs@.len(),
                );
                &&& final(self).selected_index == Some(i)
                &&& final(self).selected == old(self).logs@[i as int].0
            },
    {
        let n = self.logs.len();
        if n == 0 {
            return ;
        }
        let i = match self.selected_index {
            Some(i) => if i < n {
                if i == 0 {
                    n - 1
                } else {
                    i - 1
                }
            } else {
                0
            },
            None => 0,
        };
        self.selected_index = Some(i);
        self.selected = clone_string(&self.logs[i].0);
    }

    /// Move the line cursor inside the selected entry to the circular
    /// successor; a no-op when no entry is selected or it has no lines.
    pub fn item_next(&mut self)
        ensures
            final(self).logs == old(self).logs,
            final(self).filters == old(self).filters,
            final(self).selected_index == old(self).selected_index,
            final(self).selected == old(self).selected,
            final(self).chart_data == old(self).chart_data,
            match norm_index(old(self).selected_index, old(self).logs@.len()) {
                None => final(self).item_index == old(self).item_index,
                Some(e) => {
                    let m = old(self).logs@[e as int].1@.len();
                    if m == 0 {
                        final(self).item_index == old(self).item_index
                    } else {
                        final(self).item_index == Some(
                            next_index(norm_index(old(self).item_index, m), m),
                        )
                    }
                },
            },
    {
        let n = self.logs.len();
        let e = match self.selected_index {
            Some(e) => if e < n {
                e
            } else {
                return ;
            },
            None => {
                return ;
            },
        };
        let m = self.logs[e].1.len();
        if m == 0 {
            return ;
        }
        let i = match self.item_index {
            Some(i) => if i < m {
                if i + 1 >= m {
                    0
                } else {
                    i + 1
                }
            } else {
                0
            },
            None => 0,
        };
        self.item_index = Some(i);
    }

    /// Move the line cursor inside the selected entry to the circular
    /// predecessor; a no-op when no entry is selected or it has no lines.
    pub fn item_prev(&mut self)
        ensures
            final(self).logs == old(self).logs,
            final(self).filters == old(self).filters,
            final(self).selected_index == old(self).selected_index,
            final(self).selected == old(self).selected,
            final(self).chart_data == old(self).chart_data,
            match norm_index(old(self).selected_index, old(self).logs@.len()) {
                None => final(self).item_index == old(self).item_index,
                Some(e) => {
                    let m = old(self).logs@[e as int].1@.len();
                    if m == 0 {
                        final(self).item_index == old(self).item_index
                    } else {
                        final(self).item_index == Some(
                            prev_index(norm_index(old(self).item_index, m), m),
                        )
                    }
                },
            },
    {
        let n = self.logs.len();
        let e = match self.selected_index {
            Some(e) => if e < n {
                e
            } else {
                return ;
            },
            None => {
                return ;
            },
        };
        let m = self.logs[e].1.len();
        if m == 0 {
            return ;
        }
        let i = match self.item_index {
            Some(i) => if i < m {
                if i == 0 {
                    m - 1
                } else {
                    i - 1
                }
            } else {
                0
            },
            None => 0,
        };
        self.item_index = Some(i);
    }
}

/// With no earlier filter active, a single filter keeps exactly the
/// entries with at least one line containing it.
pub proof fn lemma_first_filter(e: (String, Vec<String>), f: String)
    ensures
        entry_matches_any(e, Seq::<String>::empty().push(f)) == entry_matches(e, f@),
{
    let fs = Seq::<String>::empty().push(f);
    if entry_matches_any(e, fs) {
        let i = choose|i: int| 0 <= i < fs.len() && entry_matches(e, fs[i]@);
        assert(fs[i] == f);
    }
    if entry_matches(e, f@) {
        assert(fs[0] == f);
        assert(entry_matches_any(e, fs));
    }
}

/// Filtering never restores a dropped entry: everything in the reduced
/// buffer was already in the buffer before the filter was applied, and it
/// matches at least one of the active filters.
pub proof fn lemma_filter_never_restores(
    s: Seq<(String, Vec<String>)>,
    fs: Seq<String>,
    i: int,
)
    requires
        0 <= i < s.filter((|e: (String, Vec<String>)| entry_matches_any(e, fs))).len(),
    ensures
        s.contains(s.filter((|e: (String, Vec<String>)| entry_matches_any(e, fs)))[i]),
        entry_matches_any(
            s.filter((|e: (String, Vec<String>)| entry_matches_any(e, fs)))[i],
            fs,
        ),
    decreases s.len(),
{
    let pred = (|e: (String, Vec<String>)| entry_matches_any(e, fs));
    reveal_with_fuel(Seq::<(String, Vec<String>)>::filter, 2);
    if s.len() == 0 {
        assert(s.filter(pred).len() == 0);
    } else {
        let head = s.drop_last();
        let x = s.filter(pred)[i];
        if pred(s.last()) && i == s.filter(pred).len() - 1 {
            assert(x == s.last());
            assert(s[s.len() - 1] == x);
        } else {
            assert(s.filter(pred)[i] == head.filter(pred)[i]);
            lemma_filter_never_restores(head, fs, i);
            let k = choose|k: int| 0 <= k < head.len() && head[k] == x;
            assert(s[k] == x);
        }
    }
}

/// The per-group colour table: a colour is assigned to a group key the
/// first time the key is observed and never changes afterwards.
pub struct FacetColors {
    pub entries: Vec<(String, (u8, u8, u8))>,
}

impl FacetColors {
    /// The mathematical value of the table: keys and colours in assignment
    /// order.
    pub open spec fn model(self) -> Seq<(Seq<char>, (u8, u8, u8))> {
        Seq::new(self.entries@.len(), |i: int| (self.entries@[i].0@, self.entries@[i].1))
    }

    /// A key already has a colour.
    pub open spec fn has_key(self, q: Seq<char>) -> bool {
        exists|i: int| 0 <= i < self.model().len() && self.model()[i].0 == q
    }

    /// Keys are pairwise distinct.
    pub open spec fn wf(self) -> bool {
        forall|i: int, j: int|
            0 <= i < j < self.model().len() ==> self.model()[i].0 != self.model()[j].0
    }

    /// An empty colour table.
    pub fn new() -> (r: FacetColors)
        ensures
            r.wf(),
            r.model() == Seq::<(Seq<char>, (u8, u8, u8))>::empty(),
    {
        let r = FacetColors { entries: Vec::new() };
        proof {
            assert(r.model() =~= Seq::<(Seq<char>, (u8, u8, u8))>::empty());
        }
        r
    }

    /// Whether `key` already has a colour.
    pub fn contains_key(&self, key: &String) -> (r: bool)
        ensures
            r == self.has_key(key@),
    {
        let n = self.entries.len();
        let mut i: usize = 0;
        while i < n
            invariant
                i <= n,
                n == self.entries@.len(),
                forall|j: int| 0 <= j < i ==> self.model()[j].0 != key@,
            decreases n - i,
        {
            if self.entries[i].0 == *key {
                proof {
                    assert(self.model()[i as int].0 == key@);
                }
                return true;
            }
            i += 1;
        }
        false
    }

    /// Assign a colour to a newly observed group key; a key that already
    /// has one keeps it, and entries for other keys are never touched.
    pub fn assign(&mut self, key: String, color: (u8, u8, u8))
        requires
            old(self).wf(),
        ensures
            final(self).wf(),
            final(self).has_key(key@),
            old(self).has_key(key@) ==> final(self).model() == old(self).model(),
            !old(self).has_key(key@) ==> final(self).model() == old(self).model().push(
                (key@, color),
            ),
    {
        if self.contains_key(&key) {
            return ;
        }
        let ghost s = self.model();
        self.entries.push((key, color));
        proof {
            assert(self.model() =~= s.push((key@, color)));
            assert(self.model()[self.model().len() - 1].0 == key@);
            assert forall|i: int, j: int|
                0 <= i < j < self.model().len() implies self.model()[i].0 != self.model()[j].0 by {
                if j == self.model().len() - 1 {
                    assert(s[i].0 != key@);
                }
            }
        }
    }
}

/// Applying the same payload twice leaves the store exactly as one
/// application does: the second pass finds the entry it wrote and writes
/// the same record again.
pub proof fn lemma_upsert_idempotent(
    s: Seq<(Seq<char>, DataModel)>,
    q: Seq<char>,
    facets: Seq<(Seq<char>, Seq<(u64, u64)>)>,
    bounds: Bounds,
)
    requires
        model_unique_keys(s),
    ensures
        spec_upsert(spec_upsert(s, q, facets, bounds), q, facets, bounds) == spec_upsert(
            s,
            q,
            facets,
            bounds,
        ),
{
    let s1 = spec_upsert(s, q, facets, bounds);
    if model_has_key(s, q) {
        let i = model_key_index(s, q);
        assert(0 <= i < s.len() && s[i].0 == q);
        assert(s1[i].0 == q);
        assert(model_has_key(s1, q));
        let j = model_key_index(s1, q);
        assert(0 <= j < s1.len() && s1[j].0 == q);
        assert(s[j].0 == s1[j].0);
        assert(j == i);
        assert(upserted_entry(s1[i], facets, bounds) == s1[i]);
        assert(spec_upsert(s1, q, facets, bounds) =~= s1);
    } else {
        assert(s1.last() == fresh_entry(q, facets, bounds));
        assert(model_has_key(s1, q));
        let j = model_key_index(s1, q);
        assert(0 <= j < s1.len() && s1[j].0 == q);
        assert forall|k: int| 0 <= k < s.len() implies s1[k].0 != q by {
            assert(s1[k] == s[k]);
        }
        assert(j == s1.len() - 1);
        assert(upserted_entry(s1[j], facets, bounds) == s1[j]);
        assert(spec_upsert(s1, q, facets, bounds) =~= s1);
    }
}

/// A rename issued before any data creates a placeholder that shows the
/// alias with no data; the first payload for that key then flips the data
/// flag and fills the series without erasing the alias.
pub proof fn lemma_rename_then_upsert(
    s: Seq<(Seq<char>, DataModel)>,
    q: Seq<char>,
    alias: Seq<char>,
    facets: Seq<(Seq<char>, Seq<(u64, u64)>)>,
    bounds: Bounds,
)
    requires
        model_unique_keys(s),
        !model_has_key(s, q),
    ensures
        ({
            let s1 = spec_rename(s, q, alias);
            let s2 = spec_upsert(s1, q, facets, bounds);
            &&& s1.len() == s.len() + 1
            &&& s1.last() == placeholder_entry(q, alias)
            &&& !s1.last().1.has_data
            &&& s2.len() == s1.len()
            &&& s2.last().1.alias == Some(alias)
            &&& s2.last().1.has_data
            &&& s2.last().1.facets == facets
            &&& s2.last().1.bounds == bounds
            &&& forall|i: int| 0 <= i < s.len() ==> s2[i] == s[i]
        }),
{
    let s1 = spec_rename(s, q, alias);
    assert(s1.last() == placeholder_entry(q, alias));
    assert(s1[s.len() as int].0 == q);
    assert(model_has_key(s1, q));
    let j = model_key_index(s1, q);
    assert(0 <= j < s1.len() && s1[j].0 == q);
    assert forall|k: int| 0 <= k < s.len() implies s1[k].0 != q by {
        assert(s1[k] == s[k]);
    }
    assert(j == s1.len() - 1);
    let s2 = spec_upsert(s1, q, facets, bounds);
    assert(s2 == s1.update(j, upserted_entry(s1[j], facets, bounds)));
    assert(s2.last() == upserted_entry(placeholder_entry(q, alias), facets, bounds));
}

} // verus!
