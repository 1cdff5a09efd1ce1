//! Reading and writing plant identifiers: 24 hexadecimal digits naming a
//! 96-bit token.
use vstd::prelude::*;
use crate::error::PlantError;
use crate::model::{PlantId, PLANT_ID_LIMIT};

verus! {

pub open spec fn pow16(n: nat) -> int
    decreases n,
{
    if n == 0 {
        1int
    } else {
        16 * pow16((n - 1) as nat)
    }
}

pub proof fn lemma_pow16_pos(n: nat)
    ensures
        pow16(n) >= 1,
    decreases n,
{
    if n > 0 {
        lemma_pow16_pos((n - 1) as nat);
    }
}

pub proof fn lemma_pow16_le(a: nat, b: nat)
    requires
        a <= b,
    ensures
        pow16(a) <= pow16(b),
    decreases b,
{
    if a < b {
        lemma_pow16_le(a, (b - 1) as nat);
        lemma_pow16_pos((b - 1) as nat);
    }
}

pub proof fn lemma_pow16_limit()
    ensures
        pow16(24) == PLANT_ID_LIMIT as int,
        pow16(23) == 0x100000000000000000000000int,
{
    reveal_with_fuel(pow16, 25);
}

/// Whether `c` is a hexadecimal digit, in either case.
pub open spec fn is_hex_digit(c: char) -> bool {
    let v = c as int;
    (48 <= v <= 57) || (97 <= v <= 102) || (65 <= v <= 70)
}

/// The value of one hexadecimal digit.
pub open spec fn hex_digit_val(c: char) -> int {
    let v = c as int;
    if 48 <= v <= 57 {
        v - 48
    } else if 97 <= v <= 102 {
        v - 87
    } else if 65 <= v <= 70 {
        v - 55
    } else {
        0
    }
}

/// A well-formed identifier text: exactly 24 hexadecimal digits.
pub open spec fn is_valid_object_id(s: Seq<char>) -> bool {
    s.len() == 24 && forall|i: int| 0 <= i < s.len() ==> is_hex_digit(#[trigger] s[i])
}

/// The number named by a sequence of hexadecimal digits.
pub open spec fn hex_value(s: Seq<char>) -> int
    decreases s.len(),
{
    if s.len() == 0 {
        0int
    } else {
        16 * hex_value(s.drop_last()) + hex_digit_val(s.last())
    }
}

/// Resolves the textual identifier of a record, as the storage backend does:
/// it must be exactly 24 hexadecimal digits, in either case.
pub fn parse_plant_id(s: &str) -> (r: Result<PlantId, PlantError>)
    ensures
        r is Ok <==> is_valid_object_id(s@),
        r matches Ok(id) ==> id.value as int == hex_value(s@) && id.wf(),
        r matches Err(e) ==> e matches PlantError::InvalidId(t) && t@ == s@,
{
    let n: usize = s.unicode_len();
    if n != 24 {
        return Err(PlantError::InvalidId(String::from_str(s)));
    }
    let mut acc: u128 = 0;
    let mut i: usize = 0;
    while i < 24
        invariant
            0 <= i <= 24,
            s@.len() == 24,
            forall|j: int| 0 <= j < i ==> is_hex_digit(#[trigger] s@[j]),
            acc as int == hex_value(s@.take(i as int)),
            (acc as int) < pow16(i as nat),
        decreases 24 - i,
    {
        let c = s.get_char(i);
        let v: u32 = c as u32;
        let d: u128 = if 48 <= v && v <= 57 {
            (v - 48) as u128
        } else if 97 <= v && v <= 102 {
            (v - 87) as u128
        } else if 65 <= v && v <= 70 {
            (v - 55) as u128
        } else {
            proof {
                assert(!is_hex_digit(s@[i as int]));
            }
            return Err(PlantError::InvalidId(String::from_str(s)));
        };
        proof {
            lemma_pow16_le(i as nat + 1, 24);
            lemma_pow16_limit();
            assert(s@.take(i as int + 1).drop_last() =~= s@.take(i as int));
            assert(s@.take(i as int + 1).last() == s@[i as int]);
        }
        acc = acc * 16 + d;
        i = i + 1;
    }
    proof {
        assert(s@.take(24) =~= s@);
        lemma_pow16_limit();
    }
    Ok(PlantId { value: acc })
}

/// The digit characters of a number written as 24 lowercase hexadecimal
/// digits.
pub open spec fn hex_digit_char(d: int) -> char {
    if d == 0 {
        '0'
    } else if d == 1 {
        '1'
    } else if d == 2 {
        '2'
    } else if d == 3 {
        '3'
    } else if d == 4 {
        '4'
    } else if d == 5 {
        '5'
    } else if d == 6 {
        '6'
    } else if d == 7 {
        '7'
    } else if d == 8 {
        '8'
    } else if d == 9 {
        '9'
    } else if d == 10 {
        'a'
    } else if d == 11 {
        'b'
    } else if d == 12 {
        'c'
    } else if d == 13 {
        'd'
    } else if d == 14 {
        'e'
    } else {
        'f'
    }
}

/// An identifier value written as 24 lowercase hexadecimal digits.
pub open spec fn id_hex(v: int) -> Seq<char> {
    Seq::new(24, |i: int| hex_digit_char((v / pow16((23 - i) as nat)) % 16))
}

pub(crate) fn hex_digit_str(d: u128) -> (r: &'static str)
    requires
        d < 16,
    ensures
        r@ == seq![hex_digit_char(d as int)],
{
    proof {
        reveal_strlit("0");
        reveal_strlit("1");
        reveal_strlit("2");
        reveal_strlit("3");
        reveal_strlit("4");
        reveal_strlit("5");
        reveal_strlit("6");
        reveal_strlit("7");
        reveal_strlit("8");
        reveal_strlit("9");
        reveal_strlit("a");
        reveal_strlit("b");
        reveal_strlit("c");
        reveal_strlit("d");
        reveal_strlit("e");
        reveal_strlit("f");
    }
    match d {
        0 => "0",
        1 => "1",
        2 => "2",
        3 => "3",
        4 => "4",
        5 => "5",
        6 => "6",
        7 => "7",
        8 => "8",
        9 => "9",
        10 => "a",
        11 => "b",
        12 => "c",
        13 => "d",
        14 => "e",
        _ => "f",
    }
}

spec fn hex_seq(v: int, n: nat) -> Seq<char> {
    Seq::new(n, |i: int| hex_digit_char((v / pow16((n - 1 - i) as nat)) % 16))
}

proof fn lemma_hex_seq_value(v: int, n: nat)
    requires
        v >= 0,
    ensures
        hex_value(hex_seq(v, n)) == v % pow16(n),
    decreases n,
{
    lemma_pow16_pos(n);
    if n == 0 {
        assert(hex_seq(v, 0) =~= Seq::<char>::empty());
        assert(v % 1 == 0) by (nonlinear_arith)
            requires
                v >= 0,
        ;
    } else {
        let s = hex_seq(v, n);
        let s2 = hex_seq(v / 16, (n - 1) as nat);
        assert forall|i: int| 0 <= i < n - 1 implies s[i] == s2[i] by {
            let k = (n - 1 - i - 1) as nat;
            lemma_pow16_pos(k);
            vstd::arithmetic::div_mod::lemma_div_denominator(v, 16, pow16(k));
            assert(16 * pow16(k) == pow16((k + 1) as nat));
        }
        assert(s.drop_last() =~= s2);
        lemma_hex_seq_value(v / 16, (n - 1) as nat);
        assert(v / pow16(0) == v);
        assert(s.last() == hex_digit_char(v % 16));
        assert(hex_digit_val(hex_digit_char(v % 16)) == v % 16);
        lemma_pow16_pos((n - 1) as nat);
        vstd::arithmetic::div_mod::lemma_mod_breakdown(v, 16, pow16((n - 1) as nat));
        assert(16 * pow16((n - 1) as nat) == pow16(n));
    }
}

/// Law: rendering an identifier and reading the text back yields the same
/// identifier, and the rendered text is itself well formed.
pub proof fn lemma_id_hex_round_trip(v: int)
    requires
        0 <= v < PLANT_ID_LIMIT as int,
    ensures
        is_valid_object_id(id_hex(v)),
        hex_value(id_hex(v)) == v,
{
    assert(id_hex(v) =~= hex_seq(v, 24));
    lemma_hex_seq_value(v, 24);
    lemma_pow16_limit();
    vstd::arithmetic::div_mod::lemma_small_mod(v as nat, pow16(24) as nat);
    assert forall|i: int| 0 <= i < 24 implies is_hex_digit(#[trigger] id_hex(v)[i]) by {
        lemma_pow16_pos((23 - i) as nat);
        let d = (v / pow16((23 - i) as nat)) % 16;
        assert(0 <= d < 16);
        assert(is_hex_digit(hex_digit_char(d)));
    }
}

/// Renders an identifier as the storage backend writes it: 24 lowercase
/// hexadecimal digits.
pub fn render_plant_id(id: &PlantId) -> (r: String)
    ensures
        r@ == id_hex(id.value as int),
{
    let v: u128 = id.value;
    let mut out = String::new();
    let mut p: u128 = 0x100000000000000000000000;
    proof {
        lemma_pow16_limit();
        assert(out@ =~= id_hex(v as int).take(0));
    }
    let mut i: usize = 0;
    while i < 24
        invariant
            0 <= i <= 24,
            v == id.value,
            i < 24 ==> p as int == pow16((23 - i) as nat),
            p >= 1,
            out@ == id_hex(v as int).take(i as int),
        decreases 24 - i,
    {
        let d: u128 = (v / p) % 16;
        out.append(hex_digit_str(d));
        proof {
            assert(out@ =~= id_hex(v as int).take(i as int + 1));
        }
        if i < 23 {
            proof {
                let k = (23 - i) as nat;
                assert(pow16(k) == 16 * pow16((k - 1) as nat));
                assert(16 * pow16((k - 1) as nat) / 16 == pow16((k - 1) as nat)) by (nonlinear_arith);
                lemma_pow16_pos((k - 1) as nat);
            }
            p = p / 16;
        }
        i = i + 1;
    }
    proof {
        assert(id_hex(v as int).take(24) =~= id_hex(v as int));
    }
    out
}

} // verus!
