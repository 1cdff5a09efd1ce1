//! Search filters: the disjunctive case-insensitive term search over name,
//! species and tags, the exact identifier match, and the filter builder that
//! resolves the view operation's optional arguments.
use vstd::prelude::*;
use crate::error::PlantError;
use crate::ident::{hex_value, is_valid_object_id, parse_plant_id};
use crate::model::{Plant, PlantId, PlantV};

verus! {

/// The character code with an ASCII upper-case letter folded to lower case.
pub open spec fn lower_code(c: char) -> int {
    let v = c as int;
    if 65 <= v <= 90 {
        v + 32
    } else {
        v
    }
}

/// Character equality with ASCII cases folded together.
pub open spec fn chars_eq_ci(a: char, b: char) -> bool {
    lower_code(a) == lower_code(b)
}

/// `pat` occurs at position `k` of `text`, ignoring ASCII case.
pub open spec fn matches_at(text: Seq<char>, pat: Seq<char>, k: int) -> bool {
    forall|j: int| 0 <= j < pat.len() ==> chars_eq_ci(text[k + j], #[trigger] pat[j])
}

/// `pat` occurs somewhere in `text`, ignoring ASCII case. The empty pattern
/// occurs in every text.
pub open spec fn contains_ci(text: Seq<char>, pat: Seq<char>) -> bool {
    exists|k: int| 0 <= k <= text.len() - pat.len() && matches_at(text, pat, k)
}

fn lower_u32(c: char) -> (r: u32)
    ensures
        r as int == lower_code(c),
{
    let v: u32 = c as u32;
    if 65 <= v && v <= 90 {
        v + 32
    } else {
        v
    }
}

fn str_chars(s: &str) -> (r: Vec<char>)
    ensures
        r@ == s@,
{
    let n: usize = s.unicode_len();
    let mut out: Vec<char> = Vec::new();
    let mut i: usize = 0;
    while i < n
        invariant
            0 <= i <= n,
            n == s@.len(),
            out@ == s@.take(i as int),
        decreases n - i,
    {
        out.push(s.get_char(i));
        proof {
            assert(out@ =~= s@.take(i + 1));
        }
        i = i + 1;
    }
    proof {
        assert(s@.take(n as int) =~= s@);
    }
    out
}

/// Whether `pat` occurs in `text` as a substring, ignoring ASCII case.
pub fn str_contains_ci(text: &str, pat: &str) -> (r: bool)
    ensures
        r == contains_ci(text@, pat@),
{
    let t = str_chars(text);
    let p = str_chars(pat);
    let tn: usize = t.len();
    let pn: usize = p.len();
    if pn > tn {
        return false;
    }
    let last: usize = tn - pn;
    let mut k: usize = 0;
    while k <= last
        invariant
            0 <= k <= last + 1,
            last == t@.len() - p@.len(),
            t@ == text@,
            p@ == pat@,
            t@.len() <= usize::MAX,
            forall|m: int| 0 <= m < k ==> !matches_at(text@, pat@, m),
        decreases last + 1 - k,
    {
        let mut j: usize = 0;
        let mut matched = true;
        while matched && j < p.len()
            invariant
                0 <= j <= p@.len(),
                0 <= k,
                k + p@.len() <= t@.len(),
                t@.len() <= usize::MAX,
                t@ == text@,
                p@ == pat@,
                matched ==> forall|m: int| 0 <= m < j ==> chars_eq_ci(
                    text@[k + m],
                    #[trigger] pat@[m],
                ),
                !matched ==> !matches_at(text@, pat@, k as int),
            decreases p@.len() - j + (if matched {
                1int
            } else {
                0int
            }),
        {
            if lower_u32(t[k + j]) == lower_u32(p[j]) {
                j = j + 1;
            } else {
                proof {
                    assert(!chars_eq_ci(text@[k + j], pat@[j as int]));
                }
                matched = false;
            }
        }
        if matched {
            proof {
                assert(matches_at(text@, pat@, k as int));
            }
            return true;
        }
        k = k + 1;
    }
    false
}

/// A query expression selecting zero or more plant records.
pub enum PlantFilter {
    /// Matches every record.
    All,
    /// Matches only the record carrying exactly this identifier.
    ById(PlantId),
    /// Matches the records whose name, species, or any tag contains this
    /// term, ignoring ASCII case.
    ByTerm(String),
}

/// The mathematical value of a `PlantFilter`.
pub ghost enum PlantFilterV {
    All,
    ById(int),
    ByTerm(Seq<char>),
}

impl View for PlantFilter {
    type V = PlantFilterV;

    open spec fn view(&self) -> PlantFilterV {
        match self {
            PlantFilter::All => PlantFilterV::All,
            PlantFilter::ById(id) => PlantFilterV::ById(id.value as int),
            PlantFilter::ByTerm(t) => PlantFilterV::ByTerm(t@),
        }
    }
}

/// The search term occurs in the record's name, species, or one of its tags.
pub open spec fn term_matches(p: PlantV, term: Seq<char>) -> bool {
    ||| contains_ci(p.name, term)
    ||| contains_ci(p.species, term)
    ||| exists|i: int| 0 <= i < p.tags.len() && contains_ci(#[trigger] p.tags[i], term)
}

/// Whether a record is selected by a filter.
pub open spec fn filter_matches(p: PlantV, f: PlantFilterV) -> bool {
    match f {
        PlantFilterV::All => true,
        PlantFilterV::ById(v) => p.id == Some(v),
        PlantFilterV::ByTerm(t) => term_matches(p, t),
    }
}

/// Selection by a fixed filter, as a predicate on records.
pub open spec fn selected_by(f: PlantFilterV) -> spec_fn(PlantV) -> bool {
    |p: PlantV| filter_matches(p, f)
}

/// Whether this plant is selected by the filter.
pub fn plant_matches(p: &Plant, f: &PlantFilter) -> (r: bool)
    ensures
        r == filter_matches(p@, f@),
{
    match f {
        PlantFilter::All => true,
        PlantFilter::ById(id) => match p.id {
            Some(pid) => pid.value == id.value,
            None => false,
        },
        PlantFilter::ByTerm(t) => {
            if str_contains_ci(p.name.as_str(), t.as_str()) {
                return true;
            }
            if str_contains_ci(p.species.as_str(), t.as_str()) {
                return true;
            }
            let mut i: usize = 0;
            while i < p.tags.len()
                invariant
                    0 <= i <= p.tags.len(),
                    f@ == PlantFilterV::ByTerm(t@),
                    p@.tags == p.tags.deep_view(),
                    forall|m: int| 0 <= m < i ==> !contains_ci(#[trigger] p@.tags[m], t@),
                decreases p.tags.len() - i,
            {
                if str_contains_ci(p.tags[i].as_str(), t.as_str()) {
                    proof {
                        assert(p@.tags.len() == p.tags@.len());
                        assert(p@.tags[i as int] == p.tags@[i as int]@);
                        assert(contains_ci(p@.tags[i as int], t@));
                        assert(term_matches(p@, t@));
                        assert(f@ == PlantFilterV::ByTerm(t@));
                        assert(filter_matches(p@, f@));
                    }
                    return true;
                }
                proof {
                    assert(p@.tags[i as int] == p.tags@[i as int]@);
                }
                i = i + 1;
            }
            false
        },
    }
}

/// Resolves the view operation's optional search term and identifier into a
/// filter. The two are mutually exclusive; an identifier must be well formed;
/// giving neither selects every record.
pub fn build_filter(search_param: &Option<String>, id: &Option<String>) -> (r: Result<
    PlantFilter,
    PlantError,
>)
    ensures
        (search_param is Some && id is Some) ==> (r matches Err(e) && e is ExclusiveViewArgs),
        search_param matches Some(t) ==> id is None ==> (r matches Ok(f) && f@
            == PlantFilterV::ByTerm(t@)),
        id matches Some(s) ==> search_param is None ==> {
            &&& (r is Ok <==> is_valid_object_id(s@))
            &&& (r matches Ok(f) ==> f@ == PlantFilterV::ById(hex_value(s@)))
            &&& (r matches Err(e) ==> e matches PlantError::InvalidId(t) && t@ == s@)
        },
        (search_param is None && id is None) ==> (r matches Ok(f) && f@ == PlantFilterV::All),
{
    match (search_param, id) {
        (Some(_), Some(_)) => Err(PlantError::ExclusiveViewArgs),
        (Some(t), None) => Ok(PlantFilter::ByTerm(t.clone())),
        (None, Some(s)) => match parse_plant_id(s.as_str()) {
            Ok(pid) => Ok(PlantFilter::ById(pid)),
            Err(e) => Err(e),
        },
        (None, None) => Ok(PlantFilter::All),
    }
}

} // verus!
