//! The record operations: one logical collection of plant records, and the
//! add, view, update, and remove operations against it, each a single
//! storage action.
use vstd::prelude::*;
use crate::error::PlantError;
use crate::filter::{build_filter, selected_by, plant_matches, PlantFilter, PlantFilterV};
use crate::ident::{hex_value, id_hex, is_valid_object_id, lemma_id_hex_round_trip, parse_plant_id};
use crate::model::{
    clone_plant, lemma_filter_push, AddArgs, Plant, PlantId, PlantV, Timestamp, UpdateArgs, PLANT_ID_LIMIT,
    UpdateV,
};
use crate::render::{render_view, view_text};
use crate::text::{split_and_trim_tags, split_tags};
use crate::update_doc::{apply_if_id, apply_update_doc, build_update_doc, spec_update_doc};

verus! {

/// The reported outcome of the update operation: a mutation was applied, or
/// no change was supplied and storage was not touched. Both are successes.
#[derive(Clone, Copy, PartialEq, Eq, Structural, Debug)]
pub enum UpdateOutcome {
    Updated,
    NoChanges,
}

/// The reported outcome of the remove operation: the record was deleted, or
/// no record carries that identifier. Both are successes.
#[derive(Clone, Copy, PartialEq, Eq, Structural, Debug)]
pub enum RemoveOutcome {
    Removed,
    NotFound,
}

/// Keeping every record other than the one an identifier names.
pub open spec fn without_id(v: int) -> spec_fn(PlantV) -> bool {
    |p: PlantV| p.id != Some(v)
}

/// Every element of a filtered sequence is an element of the original.
pub proof fn lemma_filter_subset<A>(s: Seq<A>, pred: spec_fn(A) -> bool)
    ensures
        forall|i: int| 0 <= i < s.filter(pred).len() ==> s.contains(#[trigger] s.filter(pred)[i]),
    decreases s.len(),
{
    reveal(Seq::filter);
    if s.len() > 0 {
        lemma_filter_subset(s.drop_last(), pred);
        assert forall|i: int| 0 <= i < s.filter(pred).len() implies s.contains(
            #[trigger] s.filter(pred)[i],
        ) by {
            let x = s.filter(pred)[i];
            if i < s.drop_last().filter(pred).len() {
                assert(s.drop_last().contains(x));
                let j = choose|j: int| 0 <= j < s.drop_last().len() && s.drop_last()[j] == x;
                assert(s[j] == x);
            } else {
                assert(x == s.last());
                assert(s[s.len() - 1] == x);
            }
        }
    }
}

/// One logical collection of plant records. Identifiers are assigned here,
/// exactly once, at insertion; the operations mirror single calls against a
/// backing document store.
pub struct PlantStore {
    pub plants: Vec<Plant>,
    pub next_id: u64,
}

impl View for PlantStore {
    type V = Seq<PlantV>;

    open spec fn view(&self) -> Seq<PlantV> {
        self.plants.deep_view()
    }
}

impl PlantStore {
    /// Every record carries a distinct well-formed identifier below the next
    /// one to assign, and well-formed timestamps.
    pub open spec fn wf(self) -> bool {
        &&& forall|i: int| 0 <= i < self@.len() ==> (#[trigger] self@[i]).wf()
        &&& forall|i: int|
            0 <= i < self@.len() ==> ((#[trigger] self@[i]).id matches Some(v) && 0 <= v
                < self.next_id as int)
        &&& forall|i: int, j: int|
            0 <= i < j < self@.len() ==> (#[trigger] self@[i]).id != (#[trigger] self@[j]).id
    }

    /// An empty collection.
    pub fn new() -> (s: PlantStore)
        ensures
            s.wf(),
            s@ == Seq::<PlantV>::empty(),
    {
        let s = PlantStore { plants: Vec::new(), next_id: 0 };
        proof {
            assert(s@ =~~= Seq::<PlantV>::empty());
        }
        s
    }

    /// Adds a new plant: the tags are split on commas and trimmed, the
    /// creation time is set to `now`, the history starts empty, and the
    /// store assigns a fresh identifier, which is returned.
    pub fn add_plant(&mut self, args: AddArgs, now: Timestamp) -> (r: PlantId)
        requires
            old(self).wf(),
            now.wf(),
            old(self).next_id < u64::MAX,
        ensures
            final(self).wf(),
            r.wf(),
            forall|i: int|
                0 <= i < old(self)@.len() ==> (#[trigger] old(self)@[i]).id != Some(
                    r.value as int,
                ),
            final(self)@ == old(self)@.push(
                PlantV {
                    id: Some(r.value as int),
                    name: args.name@,
                    species: args.species@,
                    tags: split_tags(args.tags@),
                    notes: args.notes@,
                    updates: Seq::<UpdateV>::empty(),
                    created_at: now.millis as int,
                },
            ),
    {
        let id = PlantId { value: self.next_id as u128 };
        let plant = Plant {
            id: Some(id),
            name: args.name,
            species: args.species,
            tags: split_and_trim_tags(args.tags.as_str()),
            notes: args.notes,
            updates: Vec::new(),
            created_at: now,
        };
        let ghost before = self@;
        self.plants.push(plant);
        self.next_id = self.next_id + 1;
        proof {
            assert(self@ =~~= before.push(
                PlantV {
                    id: Some(id.value as int),
                    name: args.name@,
                    species: args.species@,
                    tags: split_tags(args.tags@),
                    notes: args.notes@,
                    updates: Seq::<UpdateV>::empty(),
                    created_at: now.millis as int,
                },
            ));
        }
        id
    }

    /// All records the filter selects, in insertion order.
    pub fn find_plants(&self, f: &PlantFilter) -> (r: Vec<Plant>)
        ensures
            r.deep_view() == self@.filter(selected_by(f@)),
    {
        let ghost pred = selected_by(f@);
        let mut out: Vec<Plant> = Vec::new();
        let mut i: usize = 0;
        proof {
            assert(out.deep_view() =~~= self@.take(0).filter(pred));
        }
        while i < self.plants.len()
            invariant
                0 <= i <= self.plants.len(),
                pred == selected_by(f@),
                self@ == self.plants.deep_view(),
                out.deep_view() == self@.take(i as int).filter(pred),
            decreases self.plants.len() - i,
        {
            let ghost prefix = self@.take(i as int);
            proof {
                assert(self@[i as int] == self.plants@[i as int]@);
                assert(self@.take(i + 1) =~~= prefix.push(self@[i as int]));
                lemma_filter_push(prefix, pred, self@[i as int]);
            }
            if plant_matches(&self.plants[i], f) {
                let ghost before = out.deep_view();
                out.push(clone_plant(&self.plants[i]));
                proof {
                    assert(out.deep_view() =~~= before.push(self@[i as int]));
                }
            }
            i = i + 1;
        }
        proof {
            assert(self@.take(self.plants@.len() as int) =~~= self@);
        }
        out
    }

    /// Resolves the view operation's arguments into a filter, finds the
    /// matching records, and renders the result text: compact identifier and
    /// name lines under `ids`, verbose blocks otherwise, or the "none found"
    /// message. When the arguments are rejected no query is performed.
    pub fn view_plant(&self, search_param: &Option<String>, id: &Option<String>, ids: bool) -> (r:
        Result<String, PlantError>)
        requires
            self.wf(),
        ensures
            (search_param is Some && id is Some) ==> (r matches Err(e) && e is ExclusiveViewArgs),
            id matches Some(s) ==> search_param is None ==> {
                &&& (r is Err <==> !is_valid_object_id(s@))
                &&& (r matches Err(e) ==> e matches PlantError::InvalidId(t) && t@ == s@)
                &&& (r matches Ok(out) ==> out@ == view_text(
                    self@.filter(selected_by(PlantFilterV::ById(hex_value(s@)))),
                    ids,
                ))
            },
            search_param matches Some(t) ==> id is None ==> (r matches Ok(out) && out@
                == view_text(self@.filter(selected_by(PlantFilterV::ByTerm(t@))), ids)),
            (search_param is None && id is None) ==> (r matches Ok(out) && out@ == view_text(
                self@.filter(selected_by(PlantFilterV::All)),
                ids,
            )),
    {
        let f = match build_filter(search_param, id) {
            Ok(f) => f,
            Err(e) => {
                return Err(e);
            },
        };
        let found = self.find_plants(&f);
        proof {
            lemma_filter_subset(self@, selected_by(f@));
            assert forall|i: int| 0 <= i < found.deep_view().len() implies (
            #[trigger] found.deep_view()[i]).wf() by {
                assert(self@.contains(found.deep_view()[i]));
                let j = choose|j: int| 0 <= j < self@.len() && self@[j] == found.deep_view()[i];
                assert(self@[j].wf());
            }
        }
        Ok(render_view(&found, ids))
    }

    /// Resolves the identifier, builds the update document, and applies it
    /// as one atomic update keyed by the identifier. An empty document is
    /// the distinct "no changes" outcome and does not touch storage.
    pub fn update_plant(&mut self, args: &UpdateArgs, now: Timestamp) -> (r: Result<
        UpdateOutcome,
        PlantError,
    >)
        requires
            old(self).wf(),
            now.wf(),
        ensures
            final(self).wf(),
            r is Err <==> (!is_valid_object_id(args.id@) || (args.add_tag is Some
                && args.remove_tag is Some)),
            !is_valid_object_id(args.id@) ==> (r matches Err(e) && e matches PlantError::InvalidId(
                t,
            ) && t@ == args.id@),
            (is_valid_object_id(args.id@) && args.add_tag is Some && args.remove_tag is Some) ==> (
            r matches Err(e) && e is ExclusiveTagArgs),
            r is Err ==> final(self)@ == old(self)@,
            r matches Ok(o) ==> {
                &&& (o is NoChanges <==> spec_update_doc(args@, now.millis as int).is_empty())
                &&& (o is NoChanges ==> final(self)@ == old(self)@)
                &&& (o is Updated ==> final(self)@ == old(self)@.map_values(
                    apply_if_id(hex_value(args.id@), spec_update_doc(args@, now.millis as int)),
                ))
            },
    {
        let pid = match parse_plant_id(args.id.as_str()) {
            Ok(p) => p,
            Err(e) => {
                return Err(e);
            },
        };
        let doc = match build_update_doc(args, now) {
            Ok(d) => d,
            Err(e) => {
                return Err(e);
            },
        };
        if doc.is_empty() {
            return Ok(UpdateOutcome::NoChanges);
        }
        let ghost f = apply_if_id(pid.value as int, doc@);
        let mut out: Vec<Plant> = Vec::new();
        let mut i: usize = 0;
        proof {
            assert(out.deep_view() =~~= old(self)@.take(0).map_values(f));
        }
        while i < self.plants.len()
            invariant
                0 <= i <= self.plants.len(),
                self.plants@ == old(self).plants@,
                f == apply_if_id(pid.value as int, doc@),
                out.deep_view() == old(self)@.take(i as int).map_values(f),
            decreases self.plants.len() - i,
        {
            proof {
                assert(old(self)@[i as int] == self.plants@[i as int]@);
            }
            let matches_id = match &self.plants[i].id {
                Some(x) => x.value == pid.value,
                None => false,
            };
            let newp = if matches_id {
                apply_update_doc(&self.plants[i], &doc)
            } else {
                clone_plant(&self.plants[i])
            };
            let ghost before = out.deep_view();
            out.push(newp);
            proof {
                assert(out.deep_view() =~~= before.push(newp@));
                assert(newp@ == f(old(self)@[i as int]));
                assert(out.deep_view() =~~= old(self)@.take(i + 1).map_values(f));
            }
            i = i + 1;
        }
        self.plants = out;
        proof {
            assert(old(self)@.take(old(self)@.len() as int) =~~= old(self)@);
            assert(self@ =~~= old(self)@.map_values(f));
            assert forall|k: int| 0 <= k < self@.len() implies (#[trigger] self@[k]).wf()
                && self@[k].id == old(self)@[k].id by {
                assert(old(self)@[k].wf());
                assert(self@[k] == f(old(self)@[k]));
            }
        }
        Ok(UpdateOutcome::Updated)
    }

    /// Resolves the identifier and deletes the record carrying it, if any.
    /// Reports whether a record was removed or none carries the identifier;
    /// both are plain outcomes, not errors.
    pub fn remove_plant(&mut self, id: &String) -> (r: Result<RemoveOutcome, PlantError>)
        requires
            old(self).wf(),
        ensures
            final(self).wf(),
            r is Err <==> !is_valid_object_id(id@),
            r matches Err(e) ==> e matches PlantError::InvalidId(t) && t@ == id@ && final(self)@
                == old(self)@,
            r matches Ok(o) ==> {
                &&& final(self)@ == old(self)@.filter(without_id(hex_value(id@)))
                &&& (o is Removed <==> exists|i: int|
                    0 <= i < old(self)@.len() && (#[trigger] old(self)@[i]).id == Some(
                        hex_value(id@),
                    ))
            },
    {
        let pid = match parse_plant_id(id.as_str()) {
            Ok(p) => p,
            Err(e) => {
                return Err(e);
            },
        };
        let ghost pred = without_id(pid.value as int);
        let mut out: Vec<Plant> = Vec::new();
        let mut found = false;
        let mut i: usize = 0;
        proof {
            assert(out.deep_view() =~~= old(self)@.take(0).filter(pred));
        }
        while i < self.plants.len()
            invariant
                0 <= i <= self.plants.len(),
                self.plants@ == old(self).plants@,
                pred == without_id(pid.value as int),
                out.deep_view() == old(self)@.take(i as int).filter(pred),
                found <==> exists|k: int|
                    0 <= k < i && (#[trigger] old(self)@[k]).id == Some(pid.value as int),
            decreases self.plants.len() - i,
        {
            let ghost prefix = old(self)@.take(i as int);
            proof {
                assert(old(self)@[i as int] == self.plants@[i as int]@);
                assert(old(self)@.take(i + 1) =~~= prefix.push(old(self)@[i as int]));
                lemma_filter_push(prefix, pred, old(self)@[i as int]);
            }
            let matches_id = match &self.plants[i].id {
                Some(x) => x.value == pid.value,
                None => false,
            };
            if matches_id {
                found = true;
            } else {
                let ghost before = out.deep_view();
                out.push(clone_plant(&self.plants[i]));
                proof {
                    assert(out.deep_view() =~~= before.push(old(self)@[i as int]));
                }
            }
            i = i + 1;
        }
        self.plants = out;
        proof {
            assert(old(self)@.take(old(self)@.len() as int) =~~= old(self)@);
            assert(self@ =~~= old(self)@.filter(pred));
            lemma_filter_subset(old(self)@, pred);
            assert forall|k: int| 0 <= k < self@.len() implies (#[trigger] self@[k]).wf() && (
            self@[k].id matches Some(v) && 0 <= v < self.next_id as int) by {
                assert(old(self)@.contains(self@[k]));
                let j = choose|j: int| 0 <= j < old(self)@.len() && old(self)@[j] == self@[k];
                assert(old(self)@[j].wf());
            }
            assert forall|a: int, b: int| 0 <= a < b < self@.len() implies (#[trigger] self@[a]).id
                != (#[trigger] self@[b]).id by {
                lemma_filter_distinct(old(self)@, pred, a, b);
            }
        }
        if found {
            Ok(RemoveOutcome::Removed)
        } else {
            Ok(RemoveOutcome::NotFound)
        }
    }
}

/// Law: a record added under a fresh identifier is exactly what a view by
/// that identifier then selects.
pub proof fn lemma_add_then_view_by_id(pre: Seq<PlantV>, p: PlantV, v: int)
    requires
        p.id == Some(v),
        forall|i: int| 0 <= i < pre.len() ==> (#[trigger] pre[i]).id != Some(v),
    ensures
        pre.push(p).filter(selected_by(PlantFilterV::ById(v))) == seq![p],
{
    let pred = selected_by(PlantFilterV::ById(v));
    lemma_filter_push(pre, pred, p);
    assert(forall|i: int| 0 <= i < pre.len() ==> !pred(#[trigger] pre[i]));
    pre.lemma_all_neg_filter_empty(pred);
    assert(pre.filter(pred).push(p) =~~= seq![p]);
}

/// Law: after adding a record, a view by the rendered text of the returned
/// identifier selects exactly the new record: its fields are what the add
/// supplied.
pub proof fn lemma_add_then_view_rendered(pre: Seq<PlantV>, p: PlantV, v: int)
    requires
        p.id == Some(v),
        0 <= v < PLANT_ID_LIMIT as int,
        forall|i: int| 0 <= i < pre.len() ==> (#[trigger] pre[i]).id != Some(v),
    ensures
        is_valid_object_id(id_hex(v)),
        pre.push(p).filter(selected_by(PlantFilterV::ById(hex_value(id_hex(v))))) == seq![p],
{
    lemma_id_hex_round_trip(v);
    lemma_add_then_view_by_id(pre, p, v);
}

/// Law: after a record's removal, a view by its identifier selects nothing,
/// whatever else the collection holds.
pub proof fn lemma_remove_then_view_empty(ps: Seq<PlantV>, v: int)
    ensures
        ps.filter(without_id(v)).filter(selected_by(PlantFilterV::ById(v))) == Seq::<
            PlantV,
        >::empty(),
{
    let kept = ps.filter(without_id(v));
    let pred = selected_by(PlantFilterV::ById(v));
    assert forall|i: int| 0 <= i < kept.len() implies !pred(#[trigger] kept[i]) by {
        ps.lemma_filter_pred(without_id(v), i);
    }
    kept.lemma_all_neg_filter_empty(pred);
}

/// Filtering keeps the records' identifiers pairwise distinct.
proof fn lemma_filter_distinct(s: Seq<PlantV>, pred: spec_fn(PlantV) -> bool, a: int, b: int)
    requires
        forall|i: int, j: int|
            0 <= i < j < s.len() ==> (#[trigger] s[i]).id != (#[trigger] s[j]).id,
        0 <= a < b < s.filter(pred).len(),
    ensures
        s.filter(pred)[a].id != s.filter(pred)[b].id,
    decreases s.len(),
{
    reveal(Seq::filter);
    if s.len() > 0 {
        let dl = s.drop_last();
        assert(forall|i: int, j: int|
            0 <= i < j < dl.len() ==> (#[trigger] dl[i]).id != (#[trigger] dl[j]).id);
        if b < dl.filter(pred).len() {
            lemma_filter_distinct(dl, pred, a, b);
        } else {
            assert(pred(s.last()));
            assert(b == dl.filter(pred).len());
            assert(s.filter(pred)[b] == s.last());
            lemma_filter_subset(dl, pred);
            assert(dl.contains(dl.filter(pred)[a]));
            let j = choose|j: int| 0 <= j < dl.len() && dl[j] == dl.filter(pred)[a];
            assert(s[j].id != s[s.len() - 1].id);
        }
    }
}

} // verus!
