//! The stored text form of a repeat rule's day list.
//!
//! Weekday and day-of-month lists are kept in the store as one text column:
//! the numbers in decimal, comma-separated, in brackets, with nothing else —
//! `[1,3]` for Monday and Wednesday. The writer produces exactly that form,
//! the reader accepts exactly that form, and reading back what was written
//! yields the original list.

use vstd::prelude::*;

verus! {

use crate::dates::{append_digit, digit_char, digit_val, is_digit_char};

/// The decimal text of a day value.
pub open spec fn dec_u8_text(v: int) -> Seq<char> {
    if v < 10 {
        seq![digit_char(v)]
    } else if v < 100 {
        seq![digit_char(v / 10), digit_char(v % 10)]
    } else {
        seq![digit_char(v / 100), digit_char((v / 10) % 10), digit_char(v % 10)]
    }
}

/// The comma-separated decimal texts of the days, in order.
pub open spec fn days_items_text(s: Seq<u8>) -> Seq<char>
    decreases s.len(),
{
    if s.len() == 0 {
        Seq::<char>::empty()
    } else if s.len() == 1 {
        dec_u8_text(s[0] as int)
    } else {
        days_items_text(s.drop_last()) + seq![','] + dec_u8_text(s.last() as int)
    }
}

/// The stored text of a day list: the items in brackets.
pub open spec fn days_json_text(s: Seq<u8>) -> Seq<char> {
    seq!['['] + days_items_text(s) + seq![']']
}

fn append_day_value(s: &mut String, v: u8)
    ensures
        final(s)@ == old(s)@ + dec_u8_text(v as int),
{
    if v >= 100 {
        append_digit(s, v / 100);
        append_digit(s, (v / 10) % 10);
        append_digit(s, v % 10);
        proof {
            assert(s@ =~= old(s)@ + dec_u8_text(v as int));
        }
    } else if v >= 10 {
        append_digit(s, v / 10);
        append_digit(s, v % 10);
        proof {
            assert(s@ =~= old(s)@ + dec_u8_text(v as int));
        }
    } else {
        append_digit(s, v);
        proof {
            assert(s@ =~= old(s)@ + dec_u8_text(v as int));
        }
    }
}

/// Writes a day list in its stored text form.
pub fn encode_days(days: &Vec<u8>) -> (r: String)
    ensures
        r@ == days_json_text(days@),
{
    let mut s: String = String::new();
    proof {
        reveal_strlit("[");
        reveal_strlit("]");
        reveal_strlit(",");
    }
    s.append("[");
    let mut i: usize = 0;
    while i < days.len()
        invariant
            i <= days@.len(),
            i == 0 ==> s@ == seq!['['],
            i > 0 ==> s@ == seq!['['] + days_items_text(days@.take(i as int)),
        decreases days@.len() - i,
    {
        proof {
            reveal_strlit(",");
            assert(days@.take(i + 1).drop_last() =~= days@.take(i as int));
            assert(days@.take(i + 1).last() == days@[i as int]);
        }
        if i > 0 {
            s.append(",");
        }
        append_day_value(&mut s, days[i]);
        proof {
            if i == 0 {
                assert(days@.take(1int)[0] == days@[0]);
                assert(s@ =~= seq!['['] + days_items_text(days@.take(1int)));
            } else {
                assert(s@ =~= seq!['['] + days_items_text(days@.take(i + 1)));
            }
        }
        i = i + 1;
    }
    s.append("]");
    proof {
        assert(days@.take(days@.len() as int) =~= days@);
        assert(s@ =~= days_json_text(days@));
    }
    s
}

/// One stored item: one to three digits, no leading zero, at most 255.
pub open spec fn parse_dec_spec(t: Seq<char>) -> Option<u8> {
    if t.len() == 1 && is_digit_char(t[0]) {
        Some(digit_val(t[0]) as u8)
    } else if t.len() == 2 && is_digit_char(t[0]) && is_digit_char(t[1]) && t[0] != '0' {
        Some((digit_val(t[0]) * 10 + digit_val(t[1])) as u8)
    } else if t.len() == 3 && is_digit_char(t[0]) && is_digit_char(t[1]) && is_digit_char(t[2])
        && t[0] != '0' && digit_val(t[0]) * 100 + digit_val(t[1]) * 10 + digit_val(t[2]) <= 255 {
        Some((digit_val(t[0]) * 100 + digit_val(t[1]) * 10 + digit_val(t[2])) as u8)
    } else {
        None
    }
}

/// The index of the last comma in `t`, or -1 when there is none.
pub open spec fn last_sep_spec(t: Seq<char>) -> int
    decreases t.len(),
{
    if t.len() == 0 {
        -1
    } else if t.last() == ',' {
        t.len() - 1
    } else {
        last_sep_spec(t.drop_last())
    }
}

/// What a bracket-free item list denotes: the items split at the last
/// comma, each a well-formed decimal, and no stray separators.
pub open spec fn parse_items_spec(t: Seq<char>) -> Option<Seq<u8>>
    decreases t.len(),
{
    if t.len() == 0 {
        Some(Seq::<u8>::empty())
    } else {
        let k = last_sep_spec(t);
        if !(-1 <= k < t.len()) {
            None
        } else {
            match parse_dec_spec(t.subrange(k + 1, t.len() as int)) {
                None => None,
                Some(v) => if k < 0 {
                    Some(seq![v])
                } else {
                    match parse_items_spec(t.subrange(0, k)) {
                        Some(vs) => if vs.len() > 0 {
                            Some(vs.push(v))
                        } else {
                            None
                        },
                        None => None,
                    }
                },
            }
        }
    }
}

/// What a stored day-list text denotes, or nothing when it is not in the
/// stored form.
pub open spec fn parse_days_spec(s: Seq<char>) -> Option<Seq<u8>> {
    if s.len() >= 2 && s[0] == '[' && s.last() == ']' {
        parse_items_spec(s.subrange(1, s.len() - 1))
    } else {
        None
    }
}

fn find_last_sep(s: &str, lo: usize, hi: usize) -> (r: Option<usize>)
    requires
        lo <= hi <= s@.len(),
    ensures
        match r {
            Some(k) => lo <= k < hi && last_sep_spec(s@.subrange(lo as int, hi as int)) == k - lo,
            None => last_sep_spec(s@.subrange(lo as int, hi as int)) == -1,
        },
{
    let mut j: usize = hi;
    while j > lo
        invariant
            lo <= j <= hi <= s@.len(),
            last_sep_spec(s@.subrange(lo as int, hi as int)) == last_sep_spec(
                s@.subrange(lo as int, j as int),
            ),
        decreases j,
    {
        if s.get_char(j - 1) == ',' {
            proof {
                assert(s@.subrange(lo as int, j as int).last() == s@[j - 1]);
            }
            return Some(j - 1);
        }
        proof {
            assert(s@.subrange(lo as int, j as int).drop_last() =~= s@.subrange(
                lo as int,
                j - 1,
            ));
        }
        j = j - 1;
    }
    None
}

fn parse_dec(s: &str, lo: usize, hi: usize) -> (r: Option<u8>)
    requires
        lo <= hi <= s@.len(),
    ensures
        r == parse_dec_spec(s@.subrange(lo as int, hi as int)),
{
    let ghost t = s@.subrange(lo as int, hi as int);
    if hi - lo == 1 {
        let c0: char = s.get_char(lo);
        proof {
            assert(t[0] == s@[lo as int]);
        }
        let v0: u32 = c0 as u32;
        if 48 <= v0 && v0 <= 57 {
            Some((v0 - 48) as u8)
        } else {
            None
        }
    } else if hi - lo == 2 {
        let c0: char = s.get_char(lo);
        let c1: char = s.get_char(lo + 1);
        proof {
            assert(t[0] == s@[lo as int] && t[1] == s@[lo + 1]);
        }
        let v0: u32 = c0 as u32;
        let v1: u32 = c1 as u32;
        if 49 <= v0 && v0 <= 57 && 48 <= v1 && v1 <= 57 {
            Some(((v0 - 48) * 10 + (v1 - 48)) as u8)
        } else {
            None
        }
    } else if hi - lo == 3 {
        let c0: char = s.get_char(lo);
        let c1: char = s.get_char(lo + 1);
        let c2: char = s.get_char(lo + 2);
        proof {
            assert(t[0] == s@[lo as int] && t[1] == s@[lo + 1] && t[2] == s@[lo + 2]);
        }
        let v0: u32 = c0 as u32;
        let v1: u32 = c1 as u32;
        let v2: u32 = c2 as u32;
        if 49 <= v0 && v0 <= 57 && 48 <= v1 && v1 <= 57 && 48 <= v2 && v2 <= 57 {
            let value: u32 = (v0 - 48) * 100 + (v1 - 48) * 10 + (v2 - 48);
            if value <= 255 {
                Some(value as u8)
            } else {
                None
            }
        } else {
            None
        }
    } else {
        None
    }
}

fn parse_items(s: &str, lo: usize, hi: usize) -> (r: Option<Vec<u8>>)
    requires
        lo <= hi <= s@.len(),
    ensures
        match parse_items_spec(s@.subrange(lo as int, hi as int)) {
            Some(v) => r matches Some(w) && w@ == v,
            None => r is None,
        },
    decreases hi - lo,
{
    let ghost t = s@.subrange(lo as int, hi as int);
    if lo == hi {
        return Some(Vec::new());
    }
    match find_last_sep(s, lo, hi) {
        Some(k) => {
            proof {
                assert(t.subrange(k - lo + 1, t.len() as int) =~= s@.subrange(k + 1, hi as int));
                assert(t.subrange(0, k - lo) =~= s@.subrange(lo as int, k as int));
            }
            let v: u8 = match parse_dec(s, k + 1, hi) {
                Some(v) => v,
                None => {
                    return None;
                },
            };
            let mut vs: Vec<u8> = match parse_items(s, lo, k) {
                Some(vs) => vs,
                None => {
                    return None;
                },
            };
            if vs.len() == 0 {
                return None;
            }
            vs.push(v);
            Some(vs)
        },
        None => {
            proof {
                assert(t.subrange(0, t.len() as int) =~= t);
            }
            let v: u8 = match parse_dec(s, lo, hi) {
                Some(v) => v,
                None => {
                    return None;
                },
            };
            let mut w: Vec<u8> = Vec::new();
            w.push(v);
            proof {
                assert(w@ =~= seq![v]);
            }
            Some(w)
        },
    }
}

/// Reads a day list back from its stored text form.
pub fn parse_days(s: &str) -> (r: Option<Vec<u8>>)
    ensures
        match parse_days_spec(s@) {
            Some(v) => r matches Some(w) && w@ == v,
            None => r is None,
        },
{
    let n: usize = s.unicode_len();
    if n < 2 {
        return None;
    }
    if s.get_char(0) != '[' || s.get_char(n - 1) != ']' {
        return None;
    }
    parse_items(s, 1, n - 1)
}

proof fn lemma_digit_char_props(d: int)
    requires
        0 <= d <= 9,
    ensures
        is_digit_char(digit_char(d)),
        digit_val(digit_char(d)) == d,
        digit_char(d) != ',',
        d != 0 ==> digit_char(d) != '0',
{
}

proof fn lemma_dec_no_comma(v: int)
    requires
        0 <= v <= 255,
    ensures
        forall|i: int| 0 <= i < dec_u8_text(v).len() ==> dec_u8_text(v)[i] != ',',
{
    if v < 10 {
        lemma_digit_char_props(v);
    } else if v < 100 {
        lemma_digit_char_props(v / 10);
        lemma_digit_char_props(v % 10);
    } else {
        lemma_digit_char_props(v / 100);
        lemma_digit_char_props((v / 10) % 10);
        lemma_digit_char_props(v % 10);
    }
}

proof fn lemma_parse_dec_roundtrip(v: u8)
    ensures
        parse_dec_spec(dec_u8_text(v as int)) == Some(v),
{
    let n = v as int;
    if n < 10 {
        lemma_digit_char_props(n);
    } else if n < 100 {
        lemma_digit_char_props(n / 10);
        lemma_digit_char_props(n % 10);
    } else {
        lemma_digit_char_props(n / 100);
        lemma_digit_char_props((n / 10) % 10);
        lemma_digit_char_props(n % 10);
    }
}

proof fn lemma_last_sep_none(t: Seq<char>)
    requires
        forall|i: int| 0 <= i < t.len() ==> t[i] != ',',
    ensures
        last_sep_spec(t) == -1,
    decreases t.len(),
{
    if t.len() > 0 {
        lemma_last_sep_none(t.drop_last());
    }
}

proof fn lemma_last_sep_append(a: Seq<char>, b: Seq<char>)
    requires
        forall|i: int| 0 <= i < b.len() ==> b[i] != ',',
    ensures
        last_sep_spec(a + seq![','] + b) == a.len(),
    decreases b.len(),
{
    let t = a + seq![','] + b;
    if b.len() == 0 {
        assert(t.last() == ',');
    } else {
        assert(t.last() == b.last());
        assert(t.drop_last() =~= a + seq![','] + b.drop_last());
        lemma_last_sep_append(a, b.drop_last());
    }
}

proof fn lemma_items_text_len(s: Seq<u8>)
    requires
        s.len() > 0,
    ensures
        days_items_text(s).len() >= 1,
    decreases s.len(),
{
    if s.len() > 1 {
        lemma_items_text_len(s.drop_last());
    }
}

proof fn lemma_items_roundtrip(s: Seq<u8>)
    ensures
        parse_items_spec(days_items_text(s)) == Some(s),
    decreases s.len(),
{
    if s.len() == 0 {
        assert(days_items_text(s) =~= Seq::<char>::empty());
        assert(s =~= Seq::<u8>::empty());
    } else if s.len() == 1 {
        let t = days_items_text(s);
        assert(t == dec_u8_text(s[0] as int));
        lemma_dec_no_comma(s[0] as int);
        lemma_last_sep_none(t);
        assert(t.subrange(0, t.len() as int) =~= t);
        lemma_parse_dec_roundtrip(s[0]);
        assert(seq![s[0]] =~= s);
    } else {
        let prefix = days_items_text(s.drop_last());
        let item = dec_u8_text(s.last() as int);
        let t = days_items_text(s);
        assert(t == prefix + seq![','] + item);
        lemma_dec_no_comma(s.last() as int);
        lemma_last_sep_append(prefix, item);
        let k = last_sep_spec(t);
        assert(k == prefix.len());
        lemma_items_text_len(s.drop_last());
        assert(t.subrange(k + 1, t.len() as int) =~= item);
        lemma_parse_dec_roundtrip(s.last());
        assert(t.subrange(0, k) =~= prefix);
        lemma_items_roundtrip(s.drop_last());
        assert(s.drop_last().push(s.last()) =~= s);
    }
}

/// Round trip: what was written for a day list reads back as the same list.
pub proof fn lemma_day_list_round_trip(s: Seq<u8>)
    ensures
        parse_days_spec(days_json_text(s)) == Some(s),
{
    let t = days_json_text(s);
    assert(t[0] == '[');
    assert(t.last() == ']');
    assert(t.subrange(1, t.len() - 1) =~= days_items_text(s));
    lemma_items_roundtrip(s);
}

} // verus!
