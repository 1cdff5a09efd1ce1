//! Presentation: rendering query results as text, either as compact
//! "identifier, name" lines or as a verbose block with the full growth
//! history.
use vstd::prelude::*;
use crate::ident::{hex_digit_char, hex_digit_str, id_hex, render_plant_id};
use crate::model::{Plant, PlantId, PlantV, Update, UpdateV};
use crate::time::{format_rfc3339, rfc3339_of};

verus! {

/// The decimal digits of a number, most significant first.
pub open spec fn dec_digits(n: nat) -> Seq<char>
    decreases n,
{
    if n < 10 {
        seq![hex_digit_char(n as int)]
    } else {
        dec_digits(n / 10) + seq![hex_digit_char((n % 10) as int)]
    }
}

pub open spec fn abs_of(v: int) -> nat {
    if v < 0 {
        (-v) as nat
    } else {
        v as nat
    }
}

/// A height in hundredths of a centimeter written in centimeters, with the
/// fractional part only where it is not zero, and without a trailing zero.
pub open spec fn height_text(h: int) -> Seq<char> {
    let a = abs_of(h);
    let whole = a / 100;
    let frac = a % 100;
    let sign: Seq<char> = if h < 0 {
        seq!['-']
    } else {
        Seq::<char>::empty()
    };
    let frac_part: Seq<char> = if frac == 0 {
        Seq::<char>::empty()
    } else if frac % 10 == 0 {
        seq!['.', hex_digit_char((frac / 10) as int)]
    } else {
        seq!['.', hex_digit_char((frac / 10) as int), hex_digit_char((frac % 10) as int)]
    };
    sign + dec_digits(whole) + frac_part
}

/// A number written in decimal.
pub fn render_u64(n: u64) -> (r: String)
    ensures
        r@ == dec_digits(n as nat),
    decreases n,
{
    if n < 10 {
        String::from_str(hex_digit_str(n as u128))
    } else {
        proof {
            assert(n / 10 < n);
        }
        let mut s = render_u64(n / 10);
        s.append(hex_digit_str((n % 10) as u128));
        s
    }
}

/// A height in hundredths of a centimeter written in centimeters.
pub fn render_height(h: i64) -> (r: String)
    ensures
        r@ == height_text(h as int),
{
    let m: u64 = if h < 0 {
        ((-(h + 1)) as u64) + 1
    } else {
        h as u64
    };
    proof {
        assert(m as int == abs_of(h as int) as int);
        reveal_strlit("-");
        reveal_strlit(".");
    }
    let mut s = if h < 0 {
        String::from_str("-")
    } else {
        String::new()
    };
    s.append(render_u64(m / 100).as_str());
    let frac: u64 = m % 100;
    if frac != 0 {
        s.append(".");
        if frac % 10 == 0 {
            s.append(hex_digit_str((frac / 10) as u128));
        } else {
            s.append(hex_digit_str((frac / 10) as u128));
            s.append(hex_digit_str((frac % 10) as u128));
        }
    }
    proof {
        assert(s@ =~= height_text(h as int));
    }
    s
}

/// The identifier text of a record: its 24 hexadecimal digits, or the
/// all-zero identifier where none was assigned yet.
pub open spec fn id_text(id: Option<int>) -> Seq<char> {
    match id {
        Some(v) => id_hex(v),
        None => id_hex(0),
    }
}

fn render_id_of(p: &Plant) -> (r: String)
    ensures
        r@ == id_text(p@.id),
{
    match &p.id {
        Some(pid) => render_plant_id(pid),
        None => render_plant_id(&PlantId { value: 0 }),
    }
}

/// The compact line of one record: identifier and name.
pub open spec fn line_text(p: PlantV) -> Seq<char> {
    id_text(p.id) + ", '"@ + p.name + "'\n"@
}

/// Renders one record as its compact "identifier, name" line.
pub fn render_plant_line(p: &Plant) -> (r: String)
    ensures
        r@ == line_text(p@),
{
    let mut s = render_id_of(p);
    s.append(", '");
    s.append(p.name.as_str());
    s.append("'\n");
    proof {
        assert(s@ =~= line_text(p@));
    }
    s
}

/// One tag in its quotes.
pub open spec fn quoted(t: Seq<char>) -> Seq<char> {
    "\""@ + t + "\""@
}

/// The tags between the brackets, separated by comma and space.
pub open spec fn tags_list_text(tags: Seq<Seq<char>>) -> Seq<char>
    decreases tags.len(),
{
    if tags.len() == 0 {
        Seq::<char>::empty()
    } else if tags.len() == 1 {
        quoted(tags[0])
    } else {
        tags_list_text(tags.drop_last()) + ", "@ + quoted(tags.last())
    }
}

/// A tag list written as a bracketed, quoted list.
pub open spec fn tags_text(tags: Seq<Seq<char>>) -> Seq<char> {
    "["@ + tags_list_text(tags) + "]"@
}

fn render_tags(tags: &Vec<String>) -> (r: String)
    ensures
        r@ == tags_text(tags.deep_view()),
{
    let mut inner = String::new();
    let mut i: usize = 0;
    proof {
        assert(tags.deep_view().take(0) =~~= Seq::<Seq<char>>::empty());
    }
    while i < tags.len()
        invariant
            0 <= i <= tags.len(),
            inner@ == tags_list_text(tags.deep_view().take(i as int)),
        decreases tags.len() - i,
    {
        if i > 0 {
            inner.append(", ");
        }
        inner.append("\"");
        inner.append(tags[i].as_str());
        inner.append("\"");
        proof {
            let ghost dv = tags.deep_view();
            assert(dv.take(i + 1).drop_last() =~~= dv.take(i as int));
            assert(dv.take(i + 1).last() == dv[i as int]);
            assert(dv[i as int] == tags@[i as int]@);
            assert(inner@ =~= tags_list_text(dv.take(i + 1)));
        }
        i = i + 1;
    }
    let mut s = String::from_str("[");
    s.append(inner.as_str());
    s.append("]");
    proof {
        assert(tags.deep_view().take(tags@.len() as int) =~~= tags.deep_view());
        assert(s@ =~= tags_text(tags.deep_view()));
    }
    s
}

/// One numbered growth entry of the verbose block.
pub open spec fn update_text(u: UpdateV, idx: nat) -> Seq<char> {
    "  Update "@ + dec_digits(idx) + ":\n    Fecha: "@ + rfc3339_of(u.date) + "\n    Altura: "@
        + height_text(u.height_cm_hundredths) + " cm\n    Imagen: "@ + u.image_url
        + "\n    Comentario: '"@ + u.comment + "'\n"@
}

/// Every growth entry in order, numbered from one.
pub open spec fn updates_cat(us: Seq<UpdateV>) -> Seq<char>
    decreases us.len(),
{
    if us.len() == 0 {
        Seq::<char>::empty()
    } else {
        updates_cat(us.drop_last()) + update_text(us.last(), us.len())
    }
}

/// The growth-history part of the verbose block: the numbered entries, or an
/// explicit marker when there is none.
pub open spec fn updates_text(us: Seq<UpdateV>) -> Seq<char> {
    if us.len() == 0 {
        "Updates: Ninguno\n"@
    } else {
        updates_cat(us)
    }
}

fn render_update_entry(u: &Update, idx: u64) -> (r: String)
    requires
        u@.wf(),
    ensures
        r@ == update_text(u@, idx as nat),
{
    let mut s = String::from_str("  Update ");
    s.append(render_u64(idx).as_str());
    s.append(":\n    Fecha: ");
    s.append(format_rfc3339(u.date).as_str());
    s.append("\n    Altura: ");
    s.append(render_height(u.height_cm_hundredths).as_str());
    s.append(" cm\n    Imagen: ");
    s.append(u.image_url.as_str());
    s.append("\n    Comentario: '");
    s.append(u.comment.as_str());
    s.append("'\n");
    proof {
        assert(s@ =~= update_text(u@, idx as nat));
    }
    s
}

/// The verbose block of one record: name, species, tags, notes, identifier,
/// and its growth history, with a blank line after.
pub open spec fn block_text(p: PlantV) -> Seq<char> {
    "Name: '"@ + p.name + "'\nEspecie: '"@ + p.species + "'\nTags: "@ + tags_text(p.tags)
        + "\nNotas: "@ + p.notes + "\nID: '"@ + id_text(p.id) + "',\n"@ + updates_text(p.updates)
        + "\n"@
}

/// Renders one record as its verbose block.
pub fn render_plant_block(p: &Plant) -> (r: String)
    requires
        p@.wf(),
    ensures
        r@ == block_text(p@),
{
    let mut s = String::from_str("Name: '");
    s.append(p.name.as_str());
    s.append("'\nEspecie: '");
    s.append(p.species.as_str());
    s.append("'\nTags: ");
    s.append(render_tags(&p.tags).as_str());
    s.append("\nNotas: ");
    s.append(p.notes.as_str());
    s.append("\nID: '");
    s.append(render_id_of(p).as_str());
    s.append("',\n");
    if p.updates.len() == 0 {
        s.append("Updates: Ninguno\n");
        proof {
            assert(p@.updates.len() == 0);
        }
    } else {
        let mut i: usize = 0;
        proof {
            assert(updates_cat(p@.updates.take(0)) =~= Seq::<char>::empty());
        }
        while i < p.updates.len()
            invariant
                0 <= i <= p.updates.len(),
                p@.updates == p.updates.deep_view(),
                forall|k: int| 0 <= k < p@.updates.len() ==> (#[trigger] p@.updates[k]).wf(),
                s@ == "Name: '"@ + p@.name + "'\nEspecie: '"@ + p@.species + "'\nTags: "@
                    + tags_text(p@.tags) + "\nNotas: "@ + p@.notes + "\nID: '"@ + id_text(p@.id)
                    + "',\n"@ + updates_cat(p@.updates.take(i as int)),
            decreases p.updates.len() - i,
        {
            proof {
                assert(p@.updates[i as int] == p.updates@[i as int]@);
            }
            let entry = render_update_entry(&p.updates[i], (i as u64) + 1);
            s.append(entry.as_str());
            proof {
                let ghost us = p@.updates;
                assert(us.take(i + 1).drop_last() =~~= us.take(i as int));
                assert(us.take(i + 1).last() == us[i as int]);
                assert(us.take(i + 1).len() == i + 1);
            }
            i = i + 1;
        }
        proof {
            assert(p@.updates.take(p@.updates.len() as int) =~~= p@.updates);
        }
    }
    s.append("\n");
    proof {
        assert(s@ =~= block_text(p@));
    }
    s
}

/// Every matched record rendered in order, compactly or verbosely.
pub open spec fn plants_cat(ps: Seq<PlantV>, ids: bool) -> Seq<char>
    decreases ps.len(),
{
    if ps.len() == 0 {
        Seq::<char>::empty()
    } else {
        plants_cat(ps.drop_last(), ids) + (if ids {
            line_text(ps.last())
        } else {
            block_text(ps.last())
        })
    }
}

/// The full text of a view: the rendered records, or the "none found"
/// message when no record matched.
pub open spec fn view_text(ps: Seq<PlantV>, ids: bool) -> Seq<char> {
    if ps.len() == 0 {
        "No se encontraron plantas\n"@
    } else {
        plants_cat(ps, ids)
    }
}

/// Renders a sequence of matched records, compactly (`ids`) or verbosely.
pub fn render_view(plants: &Vec<Plant>, ids: bool) -> (r: String)
    requires
        forall|i: int| 0 <= i < plants.deep_view().len() ==> (#[trigger] plants.deep_view()[i]).wf(),
    ensures
        r@ == view_text(plants.deep_view(), ids),
{
    if plants.len() == 0 {
        return String::from_str("No se encontraron plantas\n");
    }
    let mut s = String::new();
    let mut i: usize = 0;
    proof {
        assert(plants_cat(plants.deep_view().take(0), ids) =~= Seq::<char>::empty());
    }
    while i < plants.len()
        invariant
            0 <= i <= plants.len(),
            forall|k: int| 0 <= k < plants.deep_view().len() ==> (#[trigger] plants.deep_view()[k]).wf(),
            s@ == plants_cat(plants.deep_view().take(i as int), ids),
        decreases plants.len() - i,
    {
        proof {
            assert(plants.deep_view()[i as int] == plants@[i as int]@);
        }
        let entry = if ids {
            render_plant_line(&plants[i])
        } else {
            render_plant_block(&plants[i])
        };
        s.append(entry.as_str());
        proof {
            let ghost dv = plants.deep_view();
            assert(dv.take(i + 1).drop_last() =~~= dv.take(i as int));
            assert(dv.take(i + 1).last() == dv[i as int]);
            assert(s@ =~= plants_cat(dv.take(i + 1), ids));
        }
        i = i + 1;
    }
    proof {
        assert(plants.deep_view().take(plants@.len() as int) =~~= plants.deep_view());
    }
    s
}

} // verus!
