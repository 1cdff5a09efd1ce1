//! Comma-separated tag lists: splitting, whitespace trimming, joining, and the
//! idempotence law that ties them together.
use vstd::prelude::*;

verus! {

/// The whitespace characters that trimming removes from either end of a tag.
pub open spec fn is_space(c: char) -> bool {
    c == ' ' || c == '\t' || c == '\n' || c == '\r'
}

/// A tag piece holds no separator of its own.
pub open spec fn comma_free(s: Seq<char>) -> bool {
    forall|i: int| 0 <= i < s.len() ==> s[i] != ','
}

/// The characters left after removing every leading whitespace character.
pub open spec fn trim_start(s: Seq<char>) -> Seq<char>
    decreases s.len(),
{
    if s.len() > 0 && is_space(s.first()) {
        trim_start(s.drop_first())
    } else {
        s
    }
}

/// The characters left after removing every trailing whitespace character.
pub open spec fn trim_end(s: Seq<char>) -> Seq<char>
    decreases s.len(),
{
    if s.len() > 0 && is_space(s.last()) {
        trim_end(s.drop_last())
    } else {
        s
    }
}

/// The characters left after removing whitespace from both ends.
pub open spec fn trim(s: Seq<char>) -> Seq<char> {
    trim_end(trim_start(s))
}

/// The index of the first comma of `s`, or `s.len()` if there is none.
pub open spec fn first_comma(s: Seq<char>) -> int
    decreases s.len(),
{
    if s.len() == 0 {
        0
    } else if s.first() == ',' {
        0
    } else {
        1 + first_comma(s.drop_first())
    }
}

pub proof fn lemma_first_comma(s: Seq<char>)
    ensures
        0 <= first_comma(s) <= s.len(),
        forall|j: int| 0 <= j < first_comma(s) ==> s[j] != ',',
        first_comma(s) < s.len() ==> s[first_comma(s)] == ',',
    decreases s.len(),
{
    if s.len() > 0 && s.first() != ',' {
        lemma_first_comma(s.drop_first());
        assert forall|j: int| 0 <= j < first_comma(s) implies s[j] != ',' by {
            if j > 0 {
                assert(s.drop_first()[j - 1] != ',');
            }
        }
        if first_comma(s) < s.len() {
            assert(s[first_comma(s)] == s.drop_first()[first_comma(s.drop_first())]);
        }
    }
}

/// The pieces of `s` between its commas, in order. An input without a comma is
/// one piece, so the empty input is one empty piece.
pub open spec fn split_commas(s: Seq<char>) -> Seq<Seq<char>>
    decreases s.len(),
    via split_commas_decreases
{
    let i = first_comma(s);
    if i >= s.len() {
        seq![s]
    } else {
        seq![s.take(i)] + split_commas(s.skip(i + 1))
    }
}

#[via_fn]
proof fn split_commas_decreases(s: Seq<char>) {
    lemma_first_comma(s);
}

/// The pieces of a comma-separated tag string, each trimmed of surrounding
/// whitespace.
pub open spec fn split_tags(s: Seq<char>) -> Seq<Seq<char>> {
    split_commas(s).map_values(|p: Seq<char>| trim(p))
}

pub proof fn lemma_trim_start_skip(s: Seq<char>, k: int)
    requires
        0 <= k <= s.len(),
        forall|j: int| 0 <= j < k ==> is_space(s[j]),
        k == s.len() || !is_space(s[k]),
    ensures
        trim_start(s) == s.skip(k),
    decreases k,
{
    if k == 0 {
        assert(s.skip(0) =~= s);
    } else {
        assert(is_space(s.first()));
        lemma_trim_start_skip(s.drop_first(), k - 1);
        assert(s.drop_first().skip(k - 1) =~= s.skip(k));
    }
}

pub proof fn lemma_trim_end_take(s: Seq<char>, k: int)
    requires
        0 <= k <= s.len(),
        forall|j: int| k <= j < s.len() ==> is_space(s[j]),
        k == 0 || !is_space(s[k - 1]),
    ensures
        trim_end(s) == s.take(k),
    decreases s.len() - k,
{
    if k == s.len() {
        assert(s.take(k) =~= s);
    } else {
        assert(is_space(s.last()));
        lemma_trim_end_take(s.drop_last(), k);
        assert(s.drop_last().take(k) =~= s.take(k));
    }
}

pub proof fn lemma_first_comma_is(s: Seq<char>, k: int)
    requires
        0 <= k <= s.len(),
        forall|j: int| 0 <= j < k ==> s[j] != ',',
        k == s.len() || s[k] == ',',
    ensures
        first_comma(s) == k,
    decreases k,
{
    if s.len() > 0 {
        if k == 0 {
        } else {
            lemma_first_comma_is(s.drop_first(), k - 1);
        }
    }
}

/// Whether `c` counts as whitespace for tag trimming.
pub fn is_space_char(c: char) -> (r: bool)
    ensures
        r == is_space(c),
{
    c == ' ' || c == '\t' || c == '\n' || c == '\r'
}

/// Removes the whitespace characters at both ends of `s`.
pub fn trim_str(s: &str) -> (r: String)
    ensures
        r@ == trim(s@),
{
    let n: usize = s.unicode_len();
    let mut a: usize = 0;
    while a < n && is_space_char(s.get_char(a))
        invariant
            0 <= a <= n,
            n == s@.len(),
            forall|j: int| 0 <= j < a ==> is_space(s@[j]),
        decreases n - a,
    {
        a = a + 1;
    }
    if a == n {
        proof {
            lemma_trim_start_skip(s@, a as int);
            assert(trim_start(s@) =~= Seq::<char>::empty());
            assert(trim(s@) =~= Seq::<char>::empty());
        }
        String::new()
    } else {
        let mut b: usize = n;
        while b > a + 1 && is_space_char(s.get_char(b - 1))
            invariant
                a < b <= n,
                n == s@.len(),
                !is_space(s@[a as int]),
                forall|j: int| b <= j < n ==> is_space(s@[j]),
            decreases b,
        {
            b = b - 1;
        }
        let b: usize = if is_space_char(s.get_char(b - 1)) { b - 1 } else { b };
        proof {
            lemma_trim_start_skip(s@, a as int);
            lemma_trim_end_take(s@.skip(a as int), b - a);
            assert(s@.skip(a as int).take(b - a) =~= s@.subrange(a as int, b as int));
        }
        String::from_str(s.substring_char(a, b))
    }
}

/// Splits a comma-separated tag string into its pieces, each trimmed of
/// surrounding whitespace. An input without a comma is a single tag, so the
/// empty input yields one empty tag.
pub fn split_and_trim_tags(s: &str) -> (r: Vec<String>)
    ensures
        r.deep_view() == split_tags(s@),
{
    let n: usize = s.unicode_len();
    let mut out: Vec<String> = Vec::new();
    let mut pos: usize = 0;
    let mut done = false;
    proof {
        assert(s@.skip(0) =~= s@);
        assert(out.deep_view() =~~= Seq::<Seq<char>>::empty());
        assert(split_tags(s@) =~~= out.deep_view() + split_commas(s@.skip(0)).map_values(
            |p: Seq<char>| trim(p),
        ));
    }
    while !done
        invariant
            0 <= pos <= n,
            n == s@.len(),
            !done ==> split_tags(s@) == out.deep_view() + split_commas(s@.skip(pos as int)).map_values(|p: Seq<char>| trim(p)),
            done ==> split_tags(s@) == out.deep_view(),
        decreases 2 * (n - pos) + (if done { 0int } else { 1int }),
    {
        let mut j: usize = pos;
        while j < n && !(s.get_char(j) == ',')
            invariant
                pos <= j <= n,
                n == s@.len(),
                forall|m: int| pos <= m < j ==> s@[m] != ',',
            decreases n - j,
        {
            j = j + 1;
        }
        let piece = trim_str(s.substring_char(pos, j));
        proof {
            let ghost rem = s@.skip(pos as int);
            lemma_first_comma_is(rem, j - pos);
            let ghost f = |p: Seq<char>| trim(p);
            if j == n {
                assert(split_commas(rem) =~~= seq![rem]);
                assert(split_commas(rem).map_values(f) =~~= seq![trim(rem)]);
                assert(piece@ == trim(rem)) by {
                    assert(s@.subrange(pos as int, j as int) =~= rem);
                }
            } else {
                assert(rem.take(j - pos) =~= s@.subrange(pos as int, j as int));
                assert(rem.skip(j - pos + 1) =~= s@.skip(j + 1));
                assert(split_commas(rem).map_values(f) =~~= seq![trim(rem.take(j - pos))]
                    + split_commas(s@.skip(j + 1)).map_values(f));
            }
        }
        let ghost old_out = out.deep_view();
        out.push(piece);
        proof {
            assert(out.deep_view() =~~= old_out.push(piece@));
            if j == n {
                assert(split_tags(s@) =~~= out.deep_view());
            } else {
                assert(split_tags(s@) =~~= out.deep_view()
                    + split_commas(s@.skip(j + 1)).map_values(|p: Seq<char>| trim(p)));
            }
        }
        if j == n {
            done = true;
        } else {
            pos = j + 1;
        }
    }
    out
}

/// The pieces joined back into one string with "," between them.
pub open spec fn join_commas(ps: Seq<Seq<char>>) -> Seq<char>
    decreases ps.len(),
{
    if ps.len() == 0 {
        Seq::<char>::empty()
    } else if ps.len() == 1 {
        ps[0]
    } else {
        ps[0] + seq![','] + join_commas(ps.drop_first())
    }
}

pub proof fn lemma_split_commas_comma_free(s: Seq<char>)
    ensures
        forall|i: int| 0 <= i < split_commas(s).len() ==> comma_free(#[trigger] split_commas(s)[i]),
    decreases s.len(),
{
    lemma_first_comma(s);
    let k = first_comma(s);
    if k < s.len() {
        lemma_split_commas_comma_free(s.skip(k + 1));
        assert forall|i: int| 0 <= i < split_commas(s).len() implies comma_free(
            #[trigger] split_commas(s)[i],
        ) by {
            if i > 0 {
                assert(split_commas(s)[i] == split_commas(s.skip(k + 1))[i - 1]);
            }
        }
    }
}

pub proof fn lemma_trim_comma_free(s: Seq<char>)
    requires
        comma_free(s),
    ensures
        comma_free(trim(s)),
{
    lemma_trim_start_comma_free(s);
    lemma_trim_end_comma_free(trim_start(s));
}

proof fn lemma_trim_start_comma_free(s: Seq<char>)
    requires
        comma_free(s),
    ensures
        comma_free(trim_start(s)),
    decreases s.len(),
{
    if s.len() > 0 && is_space(s.first()) {
        assert(comma_free(s.drop_first()));
        lemma_trim_start_comma_free(s.drop_first());
    }
}

proof fn lemma_trim_end_comma_free(s: Seq<char>)
    requires
        comma_free(s),
    ensures
        comma_free(trim_end(s)),
    decreases s.len(),
{
    if s.len() > 0 && is_space(s.last()) {
        assert(comma_free(s.drop_last()));
        lemma_trim_end_comma_free(s.drop_last());
    }
}

proof fn lemma_trim_start_head(s: Seq<char>)
    ensures
        trim_start(s).len() > 0 ==> !is_space(trim_start(s).first()),
    decreases s.len(),
{
    if s.len() > 0 && is_space(s.first()) {
        lemma_trim_start_head(s.drop_first());
    }
}

proof fn lemma_trim_end_last(s: Seq<char>)
    ensures
        trim_end(s).len() > 0 ==> !is_space(trim_end(s).last()),
    decreases s.len(),
{
    if s.len() > 0 && is_space(s.last()) {
        lemma_trim_end_last(s.drop_last());
    }
}

proof fn lemma_trim_end_prefix(s: Seq<char>)
    ensures
        trim_end(s).len() <= s.len(),
        trim_end(s) == s.take(trim_end(s).len() as int),
    decreases s.len(),
{
    if s.len() > 0 && is_space(s.last()) {
        lemma_trim_end_prefix(s.drop_last());
        assert(s.drop_last().take(trim_end(s).len() as int) =~= s.take(trim_end(s).len() as int));
    } else {
        assert(s.take(s.len() as int) =~= s);
    }
}

pub proof fn lemma_trim_idempotent(s: Seq<char>)
    ensures
        trim(trim(s)) == trim(s),
{
    let u = trim_start(s);
    let t = trim_end(u);
    if t.len() == 0 {
    } else {
        lemma_trim_end_prefix(u);
        lemma_trim_start_head(s);
        assert(t.first() == u.first());
        assert(!is_space(t.first()));
        assert(trim_start(t) == t);
        lemma_trim_end_last(u);
        assert(trim_end(t) == t);
    }
}

/// Law: splitting a comma-separated tag string and trimming each piece is
/// idempotent. Joining the trimmed pieces with "," and splitting and trimming
/// again yields the same pieces.
pub proof fn lemma_split_trim_idempotent(s: Seq<char>)
    ensures
        split_tags(join_commas(split_tags(s))) == split_tags(s),
{
    let ps = split_commas(s);
    let f = |p: Seq<char>| trim(p);
    let ts = ps.map_values(f);
    lemma_split_commas_comma_free(s);
    assert forall|i: int| 0 <= i < ts.len() implies comma_free(#[trigger] ts[i]) by {
        lemma_trim_comma_free(ps[i]);
    }
    assert(ps.len() >= 1);
    lemma_split_join(ts);
    assert forall|i: int| 0 <= i < ts.len() implies #[trigger] f(ts[i]) == ts[i] by {
        lemma_trim_idempotent(ps[i]);
    }
    assert(ts.map_values(f) =~~= ts);
}

pub proof fn lemma_split_join(ps: Seq<Seq<char>>)
    requires
        ps.len() >= 1,
        forall|i: int| 0 <= i < ps.len() ==> comma_free(#[trigger] ps[i]),
    ensures
        split_commas(join_commas(ps)) == ps,
    decreases ps.len(),
{
    if ps.len() == 1 {
        lemma_first_comma_is(ps[0], ps[0].len() as int);
        assert(split_commas(join_commas(ps)) =~~= ps);
    } else {
        let j = join_commas(ps);
        let rest = join_commas(ps.drop_first());
        assert(j == ps[0] + seq![','] + rest);
        assert forall|m: int| 0 <= m < ps[0].len() implies j[m] != ',' by {
            assert(j[m] == ps[0][m]);
        }
        assert(j[ps[0].len() as int] == ',');
        lemma_first_comma_is(j, ps[0].len() as int);
        assert(j.take(ps[0].len() as int) =~= ps[0]);
        assert(j.skip(ps[0].len() as int + 1) =~= rest);
        assert forall|i: int| 0 <= i < ps.drop_first().len() implies comma_free(
            #[trigger] ps.drop_first()[i],
        ) by {
            assert(ps.drop_first()[i] == ps[i + 1]);
        }
        lemma_split_join(ps.drop_first());
        assert(split_commas(j) =~~= seq![ps[0]] + ps.drop_first());
        assert(seq![ps[0]] + ps.drop_first() =~~= ps);
    }
}

} // verus!
