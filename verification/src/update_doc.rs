//! The partial-update document: a closed set of update operations built from
//! the update operation's optional fields, and its meaning as a function from
//! a plant record to the changed record.
use vstd::prelude::*;
use crate::error::PlantError;
use crate::model::{
    lemma_filter_push, clone_string, clone_update, clone_updates, Plant, PlantV, Timestamp, Update,
    UpdateArgs, UpdateArgsV, UpdateV,
};

verus! {

/// A partial-update document: every way one update call may change a stored
/// record. Scalar overwrites, one tag-list append or removal, and one
/// growth-entry append.
pub struct UpdateDoc {
    pub set_name: Option<String>,
    pub set_species: Option<String>,
    pub push_tag: Option<String>,
    pub pull_tag: Option<String>,
    pub push_update: Option<Update>,
}

/// The mathematical value of an `UpdateDoc`.
#[verifier::ext_equal]
pub ghost struct UpdateDocV {
    pub set_name: Option<Seq<char>>,
    pub set_species: Option<Seq<char>>,
    pub push_tag: Option<Seq<char>>,
    pub pull_tag: Option<Seq<char>>,
    pub push_update: Option<UpdateV>,
}

impl View for UpdateDoc {
    type V = UpdateDocV;

    open spec fn view(&self) -> UpdateDocV {
        UpdateDocV {
            set_name: self.set_name.deep_view(),
            set_species: self.set_species.deep_view(),
            push_tag: self.push_tag.deep_view(),
            pull_tag: self.pull_tag.deep_view(),
            push_update: match self.push_update {
                Some(u) => Some(u@),
                None => None,
            },
        }
    }
}

impl UpdateDocV {
    /// A document holding no operation at all: applying it is a no-op, and
    /// the operation reports "no changes" without touching storage.
    pub open spec fn is_empty(self) -> bool {
        &&& self.set_name is None
        &&& self.set_species is None
        &&& self.push_tag is None
        &&& self.pull_tag is None
        &&& self.push_update is None
    }
}

impl UpdateDoc {
    /// Whether this document holds no operation at all.
    pub fn is_empty(&self) -> (r: bool)
        ensures
            r == self@.is_empty(),
    {
        self.set_name.is_none() && self.set_species.is_none() && self.push_tag.is_none()
            && self.pull_tag.is_none() && self.push_update.is_none()
    }
}

/// The update document that a set of optional update arguments denotes: any
/// present scalar becomes a field overwrite, the tag arguments become one
/// list append or one list removal, and if any of the height, image, or
/// comment fields is present a growth entry is synthesized at `now`, with the
/// missing fields defaulted to zero height and empty text.
pub open spec fn spec_update_doc(a: UpdateArgsV, now: int) -> UpdateDocV {
    UpdateDocV {
        set_name: a.name,
        set_species: a.species,
        push_tag: a.add_tag,
        pull_tag: a.remove_tag,
        push_update: if a.height_cm_hundredths is Some || a.image_url is Some || a.comment
            is Some {
            Some(
                UpdateV {
                    date: now,
                    height_cm_hundredths: match a.height_cm_hundredths {
                        Some(h) => h,
                        None => 0,
                    },
                    image_url: match a.image_url {
                        Some(s) => s,
                        None => Seq::<char>::empty(),
                    },
                    comment: match a.comment {
                        Some(s) => s,
                        None => Seq::<char>::empty(),
                    },
                },
            )
        } else {
            None
        },
    }
}

/// Builds the update document for the given arguments, synthesizing the
/// growth entry at `now`. A tag to add and a tag to remove are mutually
/// exclusive: one update call can apply at most one tag-list mutation.
pub fn build_update_doc(args: &UpdateArgs, now: Timestamp) -> (r: Result<UpdateDoc, PlantError>)
    ensures
        r is Err <==> (args.add_tag is Some && args.remove_tag is Some),
        r matches Err(e) ==> e is ExclusiveTagArgs,
        r matches Ok(d) ==> d@ == spec_update_doc(args@, now.millis as int),
{
    if args.add_tag.is_some() && args.remove_tag.is_some() {
        return Err(PlantError::ExclusiveTagArgs);
    }
    let push_update = if args.height_cm_hundredths.is_some() || args.image_url.is_some()
        || args.comment.is_some() {
        Some(
            Update {
                date: now,
                height_cm_hundredths: match args.height_cm_hundredths {
                    Some(h) => h,
                    None => 0,
                },
                image_url: match &args.image_url {
                    Some(s) => s.clone(),
                    None => String::new(),
                },
                comment: match &args.comment {
                    Some(s) => s.clone(),
                    None => String::new(),
                },
            },
        )
    } else {
        None
    };
    let d = UpdateDoc {
        set_name: match &args.name {
            Some(s) => Some(s.clone()),
            None => None,
        },
        set_species: match &args.species {
            Some(s) => Some(s.clone()),
            None => None,
        },
        push_tag: match &args.add_tag {
            Some(s) => Some(s.clone()),
            None => None,
        },
        pull_tag: match &args.remove_tag {
            Some(s) => Some(s.clone()),
            None => None,
        },
        push_update,
    };
    proof {
        assert(d@ =~~= spec_update_doc(args@, now.millis as int));
    }
    Ok(d)
}

/// Keeping every tag other than the one a removal names.
pub open spec fn keeps_tag(t: Seq<char>) -> spec_fn(Seq<char>) -> bool {
    |x: Seq<char>| x != t
}

/// The tag list after the update's tag operations: a removal drops every tag
/// equal to the given one, an append adds the given tag at the end.
pub open spec fn spec_apply_tags(
    tags: Seq<Seq<char>>,
    push: Option<Seq<char>>,
    pull: Option<Seq<char>>,
) -> Seq<Seq<char>> {
    let pulled = match pull {
        Some(t) => tags.filter(keeps_tag(t)),
        None => tags,
    };
    match push {
        Some(t) => pulled.push(t),
        None => pulled,
    }
}

/// The record after an update document is applied: scalar overwrites replace
/// their fields, the tag operations rewrite the tag list, a synthesized
/// growth entry is appended to the history. Identifier, notes, and creation
/// time never change.
pub open spec fn spec_apply_update(p: PlantV, d: UpdateDocV) -> PlantV {
    PlantV {
        id: p.id,
        name: match d.set_name {
            Some(n) => n,
            None => p.name,
        },
        species: match d.set_species {
            Some(s) => s,
            None => p.species,
        },
        tags: spec_apply_tags(p.tags, d.push_tag, d.pull_tag),
        notes: p.notes,
        updates: match d.push_update {
            Some(u) => p.updates.push(u),
            None => p.updates,
        },
        created_at: p.created_at,
    }
}

/// The change one atomic update call makes to the whole collection: the
/// record keyed by the identifier gets the document applied, every other
/// record stays as it is.
pub open spec fn apply_if_id(idv: int, d: UpdateDocV) -> spec_fn(PlantV) -> PlantV {
    |p: PlantV| if p.id == Some(idv) {
        spec_apply_update(p, d)
    } else {
        p
    }
}

/// Law: an update that supplies only a height appends exactly one growth
/// entry, carrying that height, an empty image reference, an empty comment,
/// and the supplied moment; name, species, tags, notes, identifier, and
/// creation time stay as they were.
pub proof fn lemma_update_height_only(p: PlantV, a: UpdateArgsV, now: int, h: int)
    requires
        a.name is None,
        a.species is None,
        a.add_tag is None,
        a.remove_tag is None,
        a.image_url is None,
        a.comment is None,
        a.height_cm_hundredths == Some(h),
    ensures
        spec_apply_update(p, spec_update_doc(a, now)) == (PlantV {
            updates: p.updates.push(
                UpdateV {
                    date: now,
                    height_cm_hundredths: h,
                    image_url: Seq::<char>::empty(),
                    comment: Seq::<char>::empty(),
                },
            ),
            ..p
        }),
{
    assert(spec_apply_update(p, spec_update_doc(a, now)) =~~= PlantV {
        updates: p.updates.push(
            UpdateV {
                date: now,
                height_cm_hundredths: h,
                image_url: Seq::<char>::empty(),
                comment: Seq::<char>::empty(),
            },
        ),
        ..p
    });
}

/// Law: an update that supplies nothing at all denotes the empty document,
/// whose application changes nothing.
pub proof fn lemma_update_nothing(p: PlantV, a: UpdateArgsV, now: int)
    requires
        a.name is None,
        a.species is None,
        a.add_tag is None,
        a.remove_tag is None,
        a.height_cm_hundredths is None,
        a.image_url is None,
        a.comment is None,
    ensures
        spec_update_doc(a, now).is_empty(),
        spec_apply_update(p, spec_update_doc(a, now)) == p,
{
    assert(spec_apply_update(p, spec_update_doc(a, now)) =~~= p);
}

/// Applies an update document to one record, returning the changed record.
pub fn apply_update_doc(p: &Plant, d: &UpdateDoc) -> (r: Plant)
    ensures
        r@ == spec_apply_update(p@, d@),
{
    let mut tags: Vec<String> = match &d.pull_tag {
        Some(t) => {
            let ghost pred = keeps_tag(t@);
            let mut out: Vec<String> = Vec::new();
            let mut i: usize = 0;
            proof {
                assert(out.deep_view() =~~= p.tags.deep_view().take(0).filter(pred));
            }
            while i < p.tags.len()
                invariant
                    0 <= i <= p.tags.len(),
                    pred == keeps_tag(t@),
                    out.deep_view() == p.tags.deep_view().take(i as int).filter(pred),
                decreases p.tags.len() - i,
            {
                let ghost prefix = p.tags.deep_view().take(i as int);
                proof {
                    assert(p.tags.deep_view().take(i + 1) =~~= prefix.push(p.tags@[i as int]@));
                    lemma_filter_push(prefix, pred, p.tags@[i as int]@);
                }
                let keep = !(p.tags[i] == *t);
                if keep {
                    let ghost before = out.deep_view();
                    out.push(p.tags[i].clone());
                    proof {
                        assert(out.deep_view() =~~= before.push(p.tags@[i as int]@));
                    }
                }
                i = i + 1;
            }
            proof {
                assert(p.tags.deep_view().take(p.tags@.len() as int) =~~= p.tags.deep_view());
            }
            out
        },
        None => crate::model::clone_tags(&p.tags),
    };
    match &d.push_tag {
        Some(t) => {
            let ghost before = tags.deep_view();
            tags.push(t.clone());
            proof {
                assert(tags.deep_view() =~~= before.push(t@));
            }
        },
        None => {},
    }
    let mut updates: Vec<Update> = clone_updates(&p.updates);
    match &d.push_update {
        Some(u) => {
            updates.push(clone_update(u));
        },
        None => {},
    }
    let r = Plant {
        id: p.id,
        name: match &d.set_name {
            Some(n) => n.clone(),
            None => clone_string(&p.name),
        },
        species: match &d.set_species {
            Some(s) => s.clone(),
            None => clone_string(&p.species),
        },
        tags,
        notes: clone_string(&p.notes),
        updates,
        created_at: p.created_at,
    };
    proof {
        assert(r@.updates =~~= spec_apply_update(p@, d@).updates);
        assert(r@ =~~= spec_apply_update(p@, d@));
    }
    r
}

} // verus!
