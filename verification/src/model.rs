//! The data model: a plant record with its embedded growth-update history,
//! the argument bundles of the add and update operations, and their views.
use vstd::prelude::*;

verus! {

/// One more than the largest identifier value: identifiers are 96-bit tokens,
/// written as 24 hexadecimal digits.
pub const PLANT_ID_LIMIT: u128 = 0x1000000000000000000000000;

/// The last representable moment: the final millisecond of year 9999 UTC.
pub const MAX_TIMESTAMP_MILLIS: i64 = 253_402_300_799_999;

/// The opaque token under which the storage layer addresses one plant record.
#[derive(Clone, Copy, PartialEq, Eq, Structural, Debug)]
pub struct PlantId {
    pub value: u128,
}

impl PlantId {
    pub open spec fn wf(self) -> bool {
        self.value < PLANT_ID_LIMIT
    }
}

/// A moment in time, in milliseconds since the Unix epoch.
#[derive(Clone, Copy, PartialEq, Eq, Structural, Debug)]
pub struct Timestamp {
    pub millis: i64,
}

impl Timestamp {
    pub open spec fn wf(self) -> bool {
        0 <= self.millis <= MAX_TIMESTAMP_MILLIS
    }
}

/// One growth-log entry of a plant. Heights are kept in hundredths of a
/// centimeter, so a whole number of hundredths stands for every height the
/// command line accepts with two decimals.
pub struct Update {
    pub date: Timestamp,
    pub height_cm_hundredths: i64,
    pub image_url: String,
    pub comment: String,
}

/// The mathematical value of an `Update`.
#[verifier::ext_equal]
pub ghost struct UpdateV {
    pub date: int,
    pub height_cm_hundredths: int,
    pub image_url: Seq<char>,
    pub comment: Seq<char>,
}

impl UpdateV {
    pub open spec fn wf(self) -> bool {
        0 <= self.date <= MAX_TIMESTAMP_MILLIS as int
    }
}

impl View for Update {
    type V = UpdateV;

    open spec fn view(&self) -> UpdateV {
        UpdateV {
            date: self.date.millis as int,
            height_cm_hundredths: self.height_cm_hundredths as int,
            image_url: self.image_url@,
            comment: self.comment@,
        }
    }
}

impl DeepView for Update {
    type V = UpdateV;

    open spec fn deep_view(&self) -> UpdateV {
        self.view()
    }
}

/// A tracked plant: a named specimen with species, tags, notes, and its
/// growth history. The identifier is empty until the storage layer assigns
/// one at insertion.
pub struct Plant {
    pub id: Option<PlantId>,
    pub name: String,
    pub species: String,
    pub tags: Vec<String>,
    pub notes: String,
    pub updates: Vec<Update>,
    pub created_at: Timestamp,
}

/// The mathematical value of a `Plant`.
#[verifier::ext_equal]
pub ghost struct PlantV {
    pub id: Option<int>,
    pub name: Seq<char>,
    pub species: Seq<char>,
    pub tags: Seq<Seq<char>>,
    pub notes: Seq<char>,
    pub updates: Seq<UpdateV>,
    pub created_at: int,
}

impl PlantV {
    pub open spec fn wf(self) -> bool {
        &&& (self.id matches Some(v) ==> 0 <= v < PLANT_ID_LIMIT as int)
        &&& 0 <= self.created_at <= MAX_TIMESTAMP_MILLIS as int
        &&& forall|i: int| 0 <= i < self.updates.len() ==> (#[trigger] self.updates[i]).wf()
    }
}

impl View for Plant {
    type V = PlantV;

    open spec fn view(&self) -> PlantV {
        PlantV {
            id: match self.id {
                Some(i) => Some(i.value as int),
                None => None,
            },
            name: self.name@,
            species: self.species@,
            tags: self.tags.deep_view(),
            notes: self.notes@,
            updates: self.updates.deep_view(),
            created_at: self.created_at.millis as int,
        }
    }
}

impl DeepView for Plant {
    type V = PlantV;

    open spec fn deep_view(&self) -> PlantV {
        self.view()
    }
}

/// The inputs of the add operation, as they come from the command line.
pub struct AddArgs {
    pub name: String,
    pub species: String,
    pub tags: String,
    pub notes: String,
}

/// The inputs of the update operation: the identifier of the record to
/// change and the optional fields to change on it.
pub struct UpdateArgs {
    pub id: String,
    pub name: Option<String>,
    pub species: Option<String>,
    pub add_tag: Option<String>,
    pub remove_tag: Option<String>,
    pub height_cm_hundredths: Option<i64>,
    pub image_url: Option<String>,
    pub comment: Option<String>,
}

/// The mathematical value of an `UpdateArgs`.
#[verifier::ext_equal]
pub ghost struct UpdateArgsV {
    pub id: Seq<char>,
    pub name: Option<Seq<char>>,
    pub species: Option<Seq<char>>,
    pub add_tag: Option<Seq<char>>,
    pub remove_tag: Option<Seq<char>>,
    pub height_cm_hundredths: Option<int>,
    pub image_url: Option<Seq<char>>,
    pub comment: Option<Seq<char>>,
}

impl View for UpdateArgs {
    type V = UpdateArgsV;

    open spec fn view(&self) -> UpdateArgsV {
        UpdateArgsV {
            id: self.id@,
            name: self.name.deep_view(),
            species: self.species.deep_view(),
            add_tag: self.add_tag.deep_view(),
            remove_tag: self.remove_tag.deep_view(),
            height_cm_hundredths: match self.height_cm_hundredths {
                Some(h) => Some(h as int),
                None => None,
            },
            image_url: self.image_url.deep_view(),
            comment: self.comment.deep_view(),
        }
    }
}

/// Filtering a sequence one pushed element at a time.
pub proof fn lemma_filter_push<A>(s: Seq<A>, pred: spec_fn(A) -> bool, x: A)
    ensures
        s.push(x).filter(pred) == if pred(x) {
            s.filter(pred).push(x)
        } else {
            s.filter(pred)
        },
{
    reveal(Seq::filter);
    assert(s.push(x).drop_last() =~= s);
    assert(s.push(x).last() == x);
}

pub fn clone_string(s: &String) -> (r: String)
    ensures
        r == *s,
{
    s.clone()
}

pub fn clone_tags(v: &Vec<String>) -> (r: Vec<String>)
    ensures
        r@ == v@,
{
    let mut out: Vec<String> = Vec::new();
    let mut i: usize = 0;
    while i < v.len()
        invariant
            0 <= i <= v.len(),
            out@ == v@.take(i as int),
        decreases v.len() - i,
    {
        out.push(v[i].clone());
        proof {
            assert(out@ =~= v@.take(i + 1));
        }
        i = i + 1;
    }
    proof {
        assert(v@.take(v@.len() as int) =~= v@);
    }
    out
}

pub fn clone_update(u: &Update) -> (r: Update)
    ensures
        r == *u,
{
    Update {
        date: u.date,
        height_cm_hundredths: u.height_cm_hundredths,
        image_url: u.image_url.clone(),
        comment: u.comment.clone(),
    }
}

pub fn clone_updates(v: &Vec<Update>) -> (r: Vec<Update>)
    ensures
        r@ == v@,
{
    let mut out: Vec<Update> = Vec::new();
    let mut i: usize = 0;
    while i < v.len()
        invariant
            0 <= i <= v.len(),
            out@ == v@.take(i as int),
        decreases v.len() - i,
    {
        out.push(clone_update(&v[i]));
        proof {
            assert(out@ =~= v@.take(i + 1));
        }
        i = i + 1;
    }
    proof {
        assert(v@.take(v@.len() as int) =~= v@);
    }
    out
}

pub fn clone_plant(p: &Plant) -> (r: Plant)
    ensures
        r@ == p@,
{
    let r = Plant {
        id: p.id,
        name: p.name.clone(),
        species: p.species.clone(),
        tags: clone_tags(&p.tags),
        notes: p.notes.clone(),
        updates: clone_updates(&p.updates),
        created_at: p.created_at,
    };
    proof {
        assert(r@ =~= p@);
    }
    r
}

} // verus!
