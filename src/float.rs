use vstd::prelude::*;
use vstd::string::StrSliceExecFns;
use crate::text::first_index;

verus! {

/// Whether `c` is an ASCII decimal digit.
pub open spec fn is_digit(c: char) -> bool {
    '0' <= c && c <= '9'
}

/// Whether every character of `s` is an ASCII decimal digit.
pub open spec fn all_digits(s: Seq<char>) -> bool {
    forall|i: int| 0 <= i < s.len() ==> is_digit(#[trigger] s[i])
}

/// `c` with an ASCII capital letter lowered.
pub open spec fn ascii_lower(c: char) -> char {
    if 'A' <= c && c <= 'Z' {
        ((c as u8) + 32) as u8 as char
    } else {
        c
    }
}

/// `s` without one leading `+` or `-`.
pub open spec fn unsigned_part(s: Seq<char>) -> Seq<char> {
    if s.len() > 0 && (s[0] == '+' || s[0] == '-') {
        s.drop_first()
    } else {
        s
    }
}

/// Whether lowered text `l` is a decimal number: digits with at most one point and at
/// least one digit, then optionally `e`, a sign and one or more digits.
pub open spec fn is_decimal_number(l: Seq<char>) -> bool {
    let e = first_index(l, 'e') as int;
    let m = l.take(e);
    let d = first_index(m, '.') as int;
    let whole = m.take(d);
    let frac = if d < m.len() {
        m.skip(d + 1)
    } else {
        seq![]
    };
    &&& all_digits(whole)
    &&& all_digits(frac)
    &&& whole.len() + frac.len() > 0
    &&& e < l.len() ==> {
        let x = unsigned_part(l.skip(e + 1));
        x.len() > 0 && all_digits(x)
    }
}

/// Whether `s` is in the syntax of floating-point numbers of the standard library: an
/// optional sign, then `inf`, `infinity`, `nan` (in any ASCII case) or a decimal number.
pub open spec fn is_float_text(s: Seq<char>) -> bool {
    let l = unsigned_part(s).map_values(|c: char| ascii_lower(c));
    l == seq!['i', 'n', 'f'] || l == seq!['i', 'n', 'f', 'i', 'n', 'i', 't', 'y'] || l == seq![
        'n',
        'a',
        'n',
    ] || is_decimal_number(l)
}

proof fn lemma_first_index_at(s: Seq<char>, c: char, i: int)
    requires
        0 <= i <= s.len(),
        forall|k: int| 0 <= k < i ==> s[k] != c,
        i == s.len() || s[i] == c,
    ensures
        first_index(s, c) == i,
    decreases i,
{
    if i > 0 {
        assert(s[0] != c);
        assert forall|k: int| 0 <= k < i - 1 implies s.drop_first()[k] != c by {
            assert(s.drop_first()[k] == s[k + 1]);
        }
        lemma_first_index_at(s.drop_first(), c, i - 1);
    }
}

/// The position of the first `c` among the first `end` characters of `v`, or `end`.
fn find_char(v: &Vec<char>, c: char, end: usize) -> (r: usize)
    requires
        end <= v@.len(),
    ensures
        r == first_index(v@.take(end as int), c),
{
    let mut i: usize = 0;
    while i < end && v[i] != c
        invariant
            i <= end <= v@.len(),
            forall|k: int| 0 <= k < i ==> v@[k] != c,
        decreases end - i,
    {
        i = i + 1;
    }
    proof {
        lemma_first_index_at(v@.take(end as int), c, i as int);
    }
    i
}

/// Whether the characters of `v` from `a` up to `b` are all digits.
fn digits_between(v: &Vec<char>, a: usize, b: usize) -> (r: bool)
    requires
        a <= b <= v@.len(),
    ensures
        r == all_digits(v@.subrange(a as int, b as int)),
{
    let mut i = a;
    while i < b
        invariant
            a <= i <= b <= v@.len(),
            forall|k: int| a <= k < i ==> is_digit(v@[k]),
        decreases b - i,
    {
        if !('0' <= v[i] && v[i] <= '9') {
            assert(v@.subrange(a as int, b as int)[i - a] == v@[i as int]);
            return false;
        }
        i = i + 1;
    }
    assert forall|k: int| 0 <= k < b - a implies is_digit(
        #[trigger] v@.subrange(a as int, b as int)[k],
    ) by {
        assert(v@.subrange(a as int, b as int)[k] == v@[a + k]);
    }
    true
}

fn lower(c: char) -> (r: char)
    ensures
        r == ascii_lower(c),
{
    if 'A' <= c && c <= 'Z' {
        ((c as u8) + 32) as char
    } else {
        c
    }
}

/// Whether `s` is in the syntax of floating-point numbers of the standard library.
pub fn is_float(s: &str) -> (r: bool)
    ensures
        r == is_float_text(s@),
{
    let n = s.unicode_len();
    let mut start: usize = 0;
    if n > 0 {
        let c0 = s.get_char(0);
        if c0 == '+' || c0 == '-' {
            start = 1;
        }
    }
    let ghost t = unsigned_part(s@);
    assert(t == s@.subrange(start as int, n as int));
    let mut l: Vec<char> = Vec::new();
    let mut i = start;
    while i < n
        invariant
            start <= i <= n,
            n == s@.len(),
            t == s@.subrange(start as int, n as int),
            l@ == s@.subrange(start as int, i as int).map_values(|c: char| ascii_lower(c)),
        decreases n - i,
    {
        let c = lower(s.get_char(i));
        l.push(c);
        i = i + 1;
        assert(l@ =~= s@.subrange(start as int, i as int).map_values(|c: char| ascii_lower(c)));
    }
    let len = l.len();
    if len == 3 && l[0] == 'i' && l[1] == 'n' && l[2] == 'f' {
        assert(l@ =~= seq!['i', 'n', 'f']);
        return true;
    }
    if len == 8 && l[0] == 'i' && l[1] == 'n' && l[2] == 'f' && l[3] == 'i' && l[4] == 'n'
        && l[5] == 'i' && l[6] == 't' && l[7] == 'y' {
        assert(l@ =~= seq!['i', 'n', 'f', 'i', 'n', 'i', 't', 'y']);
        return true;
    }
    if len == 3 && l[0] == 'n' && l[1] == 'a' && l[2] == 'n' {
        assert(l@ =~= seq!['n', 'a', 'n']);
        return true;
    }
    proof {
        assert(l@ == unsigned_part(s@).map_values(|c: char| ascii_lower(c)));
    }
    is_decimal(&l)
}

/// Whether the lowered text `l` is a decimal number.
fn is_decimal(l: &Vec<char>) -> (r: bool)
    ensures
        r == is_decimal_number(l@),
{
    let ghost lv = l@;
    let len = l.len();
    let e = find_char(l, 'e', len);
    assert(lv.take(len as int) == lv);
    proof {
        crate::text::lemma_first_index_bound(lv, 'e');
    }
    let d = find_char(l, '.', e);
    let ghost m = lv.take(e as int);
    proof {
        crate::text::lemma_first_index_bound(m, '.');
    }
    assert(m.take(d as int) =~= lv.subrange(0, d as int));
    let whole_ok = digits_between(l, 0, d);
    let frac_ok = if d < e {
        assert(m.skip(d + 1) =~= lv.subrange(d + 1, e as int));
        digits_between(l, d + 1, e)
    } else {
        assert(all_digits(Seq::<char>::empty()));
        true
    };
    let count = if d < e {
        d + (e - d - 1)
    } else {
        d
    };
    if !(whole_ok && frac_ok && count > 0) {
        return false;
    }
    if e < len {
        let mut a = e + 1;
        if a < len && (l[a] == '+' || l[a] == '-') {
            a = a + 1;
        }
        assert(unsigned_part(lv.skip(e + 1)) =~= lv.subrange(a as int, len as int));
        a < len && digits_between(l, a, len)
    } else {
        true
    }
}

} // verus!
