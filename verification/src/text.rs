//! Character-level text operations used by the parsers, specified over the
//! `Seq<char>` view of strings.

use vstd::prelude::*;

verus! {

/// Appending a character to a `String` appends it to the string's view.
pub assume_specification[ String::push ](string: &mut String, ch: char)
    ensures
        final(string)@ == old(string)@.push(ch),
;

/// The characters of `s`, in order.
pub fn chars_of(s: &str) -> (r: Vec<char>)
    ensures
        r@ == s@,
{
    let mut r: Vec<char> = Vec::new();
    for c in it: s.chars()
        invariant
            r@ == it.seq().take(it.index() as int),
            it.seq() == s@,
    {
        r.push(c);
    }
    r
}

/// A copy of `cs[from..to]`.
pub fn sub_chars(cs: &Vec<char>, from: usize, to: usize) -> (r: Vec<char>)
    requires
        from <= to <= cs@.len(),
    ensures
        r@ == cs@.subrange(from as int, to as int),
{
    let mut r: Vec<char> = Vec::new();
    let mut i = from;
    while i < to
        invariant
            from <= i <= to <= cs@.len(),
            r@ == cs@.subrange(from as int, i as int),
        decreases to - i,
    {
        r.push(cs[i]);
        i = i + 1;
    }
    r
}

/// A `String` holding exactly the characters `cs[from..to]`.
pub fn string_of(cs: &Vec<char>, from: usize, to: usize) -> (r: String)
    requires
        from <= to <= cs@.len(),
    ensures
        r@ == cs@.subrange(from as int, to as int),
{
    let mut r = String::new();
    let mut i = from;
    while i < to
        invariant
            from <= i <= to <= cs@.len(),
            r@ == cs@.subrange(from as int, i as int),
        decreases to - i,
    {
        r.push(cs[i]);
        i = i + 1;
    }
    r
}

} // verus!

verus! {

/// Unicode `White_Space`: the characters for which `char::is_whitespace` holds.
pub open spec fn is_ws(c: char) -> bool {
    ||| '\u{9}' <= c <= '\u{d}'
    ||| c == ' '
    ||| c == '\u{85}'
    ||| c == '\u{a0}'
    ||| c == '\u{1680}'
    ||| '\u{2000}' <= c <= '\u{200a}'
    ||| c == '\u{2028}'
    ||| c == '\u{2029}'
    ||| c == '\u{202f}'
    ||| c == '\u{205f}'
    ||| c == '\u{3000}'
}

/// Whether `c` is Unicode white space.
pub fn is_whitespace(c: char) -> (r: bool)
    ensures
        r == is_ws(c),
{
    ('\u{9}' <= c && c <= '\u{d}') || c == ' ' || c == '\u{85}' || c == '\u{a0}' || c == '\u{1680}'
        || ('\u{2000}' <= c && c <= '\u{200a}') || c == '\u{2028}' || c == '\u{2029}' || c
        == '\u{202f}' || c == '\u{205f}' || c == '\u{3000}'
}

/// `s` without its leading white space.
pub open spec fn trim_start(s: Seq<char>) -> Seq<char>
    decreases s.len(),
{
    if s.len() > 0 && is_ws(s[0]) {
        trim_start(s.drop_first())
    } else {
        s
    }
}

/// `s` without its trailing white space.
pub open spec fn trim_end(s: Seq<char>) -> Seq<char>
    decreases s.len(),
{
    if s.len() > 0 && is_ws(s.last()) {
        trim_end(s.drop_last())
    } else {
        s
    }
}

/// `s` without leading and trailing white space, as `str::trim` gives it.
pub open spec fn trim(s: Seq<char>) -> Seq<char> {
    trim_end(trim_start(s))
}

/// `s` starts with `p`.
pub open spec fn has_prefix(s: Seq<char>, p: Seq<char>) -> bool {
    p.len() <= s.len() && s.take(p.len() as int) == p
}

/// `pat` occurs in `s` at index `i`.
pub open spec fn occurs_at(s: Seq<char>, pat: Seq<char>, i: int) -> bool {
    0 <= i && i + pat.len() <= s.len() && s.subrange(i, i + pat.len()) == pat
}

/// `i` is the index of the first occurrence of `pat` in `s`.
pub open spec fn first_occurrence(s: Seq<char>, pat: Seq<char>, i: int) -> bool {
    occurs_at(s, pat, i) && forall|j: int| 0 <= j < i ==> !occurs_at(s, pat, j)
}

/// The index of the first occurrence of `pat` in `s`, as `str::find` finds it
/// (counted in characters).
pub open spec fn find(s: Seq<char>, pat: Seq<char>) -> Option<int> {
    if exists|i: int| first_occurrence(s, pat, i) {
        Some(choose|i: int| first_occurrence(s, pat, i))
    } else {
        None
    }
}

/// `i` is the index of the last `c` in `s`.
pub open spec fn last_index_of(s: Seq<char>, c: char, i: int) -> bool {
    0 <= i < s.len() && s[i] == c && forall|j: int| i < j < s.len() ==> s[j] != c
}

/// The index of the last `c` in `s`, as `str::rfind` finds it (counted in characters).
pub open spec fn rfind(s: Seq<char>, c: char) -> Option<int> {
    if exists|i: int| last_index_of(s, c, i) {
        Some(choose|i: int| last_index_of(s, c, i))
    } else {
        None
    }
}

/// Index of the first non-white-space character of `cs[from..to]` (or `to`).
fn skip_ws_forward(cs: &Vec<char>, from: usize, to: usize) -> (r: usize)
    requires
        from <= to <= cs@.len(),
    ensures
        from <= r <= to,
        trim_start(cs@.subrange(from as int, to as int)) == cs@.subrange(r as int, to as int),
{
    let mut i = from;
    while i < to && is_whitespace(cs[i])
        invariant
            from <= i <= to <= cs@.len(),
            trim_start(cs@.subrange(from as int, to as int)) == trim_start(
                cs@.subrange(i as int, to as int),
            ),
        decreases to - i,
    {
        assert(cs@.subrange(i as int, to as int).drop_first() =~= cs@.subrange(
            i + 1,
            to as int,
        ));
        i = i + 1;
    }
    i
}

/// End of `cs[from..to]` once trailing white space is dropped.
fn skip_ws_backward(cs: &Vec<char>, from: usize, to: usize) -> (r: usize)
    requires
        from <= to <= cs@.len(),
    ensures
        from <= r <= to,
        trim_end(cs@.subrange(from as int, to as int)) == cs@.subrange(from as int, r as int),
{
    let mut j = to;
    while j > from && is_whitespace(cs[j - 1])
        invariant
            from <= j <= to <= cs@.len(),
            trim_end(cs@.subrange(from as int, to as int)) == trim_end(
                cs@.subrange(from as int, j as int),
            ),
        decreases j,
    {
        assert(cs@.subrange(from as int, j as int).drop_last() =~= cs@.subrange(
            from as int,
            j - 1,
        ));
        j = j - 1;
    }
    j
}

/// Bounds of `trim(cs[from..to])` within `cs`.
pub fn trim_bounds(cs: &Vec<char>, from: usize, to: usize) -> (r: (usize, usize))
    requires
        from <= to <= cs@.len(),
    ensures
        from <= r.0 <= r.1 <= to,
        trim(cs@.subrange(from as int, to as int)) == cs@.subrange(r.0 as int, r.1 as int),
{
    let a = skip_ws_forward(cs, from, to);
    let b = skip_ws_backward(cs, a, to);
    (a, b)
}

/// Whether `pat` occurs in `cs` at index `i`.
pub fn occurs_at_exec(cs: &Vec<char>, pat: &Vec<char>, i: usize) -> (r: bool)
    ensures
        r == occurs_at(cs@, pat@, i as int),
{
    if i > cs.len() || pat.len() > cs.len() - i {
        return false;
    }
    let mut k: usize = 0;
    while k < pat.len()
        invariant
            i + pat@.len() <= cs@.len(),
            cs@.len() == cs.len(),
            k <= pat@.len(),
            forall|m: int| 0 <= m < k ==> cs@[i + m] == pat@[m],
        decreases pat@.len() - k,
    {
        if cs[i + k] != pat[k] {
            assert(cs@.subrange(i as int, i + pat@.len())[k as int] != pat@[k as int]);
            return false;
        }
        k = k + 1;
    }
    assert(cs@.subrange(i as int, i + pat@.len()) =~= pat@);
    true
}

/// First occurrence of `pat` in `cs[from..]`, counted from the start of `cs`.
pub fn find_from(cs: &Vec<char>, pat: &Vec<char>, from: usize) -> (r: Option<usize>)
    requires
        from <= cs@.len(),
    ensures
        r is Some <==> find(cs@.subrange(from as int, cs@.len() as int), pat@) is Some,
        r matches Some(j) ==> from <= j && find(cs@.subrange(from as int, cs@.len() as int), pat@)
            == Some(j - from),
{
    let ghost t = cs@.subrange(from as int, cs@.len() as int);
    let mut i = from;
    loop
        invariant
            from <= i <= cs@.len(),
            t == cs@.subrange(from as int, cs@.len() as int),
            forall|j: int| 0 <= j < i - from ==> !occurs_at(t, pat@, j),
        decreases cs@.len() - i,
    {
        let hit = occurs_at_exec(cs, pat, i);
        proof {
            if i + pat@.len() <= cs@.len() {
                assert(t.subrange(i - from, i - from + pat@.len()) =~= cs@.subrange(
                    i as int,
                    i + pat@.len(),
                ));
            }
            assert(occurs_at(t, pat@, i - from) == occurs_at(cs@, pat@, i as int));
        }
        if hit {
            proof {
                assert(first_occurrence(t, pat@, i - from));
                let c = choose|j: int| first_occurrence(t, pat@, j);
                assert(c == i - from);
            }
            return Some(i);
        }
        if i == cs.len() {
            proof {
                assert forall|j: int| !first_occurrence(t, pat@, j) by {
                    if 0 <= j && j <= i - from {
                    } else {
                        assert(!occurs_at(t, pat@, j));
                    }
                }
            }
            return None;
        }
        i = i + 1;
    }
}

/// Last occurrence of `c` in `cs[from..to]`.
pub fn rfind_in(cs: &Vec<char>, c: char, from: usize, to: usize) -> (r: Option<usize>)
    requires
        from <= to <= cs@.len(),
    ensures
        r is Some <==> rfind(cs@.subrange(from as int, to as int), c) is Some,
        r matches Some(j) ==> from <= j && rfind(cs@.subrange(from as int, to as int), c) == Some(
            j - from,
        ),
{
    let ghost t = cs@.subrange(from as int, to as int);
    let mut j = to;
    while j > from
        invariant
            from <= j <= to <= cs@.len(),
            t == cs@.subrange(from as int, to as int),
            forall|k: int| j - from <= k < t.len() ==> t[k] != c,
        decreases j,
    {
        if cs[j - 1] == c {
            proof {
                assert(last_index_of(t, c, j - 1 - from));
                let w = choose|i: int| last_index_of(t, c, i);
                assert(w == j - 1 - from);
            }
            return Some(j - 1);
        }
        j = j - 1;
    }
    proof {
        assert forall|i: int| !last_index_of(t, c, i) by {
            if 0 <= i < t.len() {
                assert(t[i] != c);
            }
        }
    }
    None
}

} // verus!

verus! {

/// What `find` finds is the first occurrence.
pub proof fn lemma_find_some(s: Seq<char>, pat: Seq<char>)
    ensures
        find(s, pat) matches Some(i) ==> first_occurrence(s, pat, i),
{
}

/// What `rfind` finds is the last occurrence.
pub proof fn lemma_rfind_some(s: Seq<char>, c: char)
    ensures
        rfind(s, c) matches Some(i) ==> last_index_of(s, c, i),
{
}

} // verus!

verus! {

/// The number of bytes of `c` in UTF-8.
pub open spec fn char_len(c: char) -> nat {
    if (c as u32) < 0x80 {
        1
    } else if (c as u32) < 0x800 {
        2
    } else if (c as u32) < 0x10000 {
        3
    } else {
        4
    }
}

/// The number of bytes of `s` in UTF-8 (what `str::len` counts).
pub open spec fn byte_len(s: Seq<char>) -> nat
    decreases s.len(),
{
    if s.len() == 0 {
        0
    } else {
        char_len(s[0]) + byte_len(s.drop_first())
    }
}

/// The number of characters before byte `k` of `s`, when `k` is a character
/// boundary of `s` in UTF-8 (where `s[..k]` and `s[k..]` do not panic).
pub open spec fn char_at_byte(s: Seq<char>, k: int) -> Option<int>
    decreases s.len(),
{
    if k == 0 {
        Some(0)
    } else if k < 0 || s.len() == 0 {
        None
    } else {
        match char_at_byte(s.drop_first(), k - char_len(s[0])) {
            Some(j) => Some(j + 1),
            None => None,
        }
    }
}

/// `byte_len` is the length of vstd's UTF-8 encoding.
pub proof fn lemma_byte_len_is_utf8_len(s: Seq<char>)
    ensures
        byte_len(s) == vstd::utf8::encode_utf8(s).len(),
    decreases s.len(),
{
    if s.len() > 0 {
        lemma_byte_len_is_utf8_len(s.drop_first());
        vstd::utf8::char_is_scalar(s[0]);
    }
}

/// The character index at byte `k` counts exactly the characters whose bytes
/// come before byte `k`.
pub proof fn lemma_char_at_byte(s: Seq<char>, k: int)
    ensures
        char_at_byte(s, k) matches Some(j) ==> 0 <= j <= s.len() && j <= k && byte_len(s.take(j))
            == k,
    decreases s.len(),
{
    if k != 0 && k >= 0 && s.len() > 0 {
        lemma_char_at_byte(s.drop_first(), k - char_len(s[0]));
        if let Some(j) = char_at_byte(s.drop_first(), k - char_len(s[0])) {
            assert(s.take(j + 1).drop_first() =~= s.drop_first().take(j));
        }
    } else if k == 0 {
        assert(s.take(0).len() == 0);
    }
}

/// A later byte boundary is at a later character, and a span of `n` bytes
/// holds at most `n` characters.
pub proof fn lemma_char_at_byte_mono(s: Seq<char>, k1: int, k2: int)
    requires
        k1 <= k2,
        char_at_byte(s, k1) is Some,
        char_at_byte(s, k2) is Some,
    ensures
        char_at_byte(s, k1)->0 <= char_at_byte(s, k2)->0,
        char_at_byte(s, k2)->0 - char_at_byte(s, k1)->0 <= k2 - k1,
    decreases s.len(),
{
    if k1 == 0 {
        lemma_char_at_byte(s, k2);
    } else {
        lemma_char_at_byte_mono(s.drop_first(), k1 - char_len(s[0]), k2 - char_len(s[0]));
    }
}

/// The UTF-8 width of `c`.
pub fn char_len_exec(c: char) -> (r: usize)
    ensures
        r == char_len(c),
{
    let u = c as u32;
    if u < 0x80 {
        1
    } else if u < 0x800 {
        2
    } else if u < 0x10000 {
        3
    } else {
        4
    }
}

/// Whether `s` has at least `k` bytes in UTF-8.
pub fn byte_len_at_least(s: &Vec<char>, k: usize) -> (r: bool)
    ensures
        r == (byte_len(s@) >= k),
{
    let mut i: usize = 0;
    let mut rem: usize = k;
    let ghost mut acc: int = 0;
    assert(s@.skip(0) =~= s@);
    while i < s.len()
        invariant
            i <= s@.len(),
            0 <= acc <= k,
            rem == k - acc,
            acc + byte_len(s@.skip(i as int)) == byte_len(s@),
        decreases s@.len() - i,
    {
        if rem == 0 {
            return true;
        }
        assert(s@.skip(i as int).drop_first() =~= s@.skip(i + 1));
        let c = char_len_exec(s[i]);
        if c >= rem {
            return true;
        }
        rem = rem - c;
        proof {
            acc = acc + c;
        }
        i = i + 1;
    }
    assert(s@.skip(i as int).len() == 0);
    rem == 0
}

/// The character index at byte `k` of `s` (see `char_at_byte`).
pub fn char_at_byte_exec(s: &Vec<char>, k: usize) -> (r: Option<usize>)
    ensures
        r is Some <==> char_at_byte(s@, k as int) is Some,
        r matches Some(j) ==> char_at_byte(s@, k as int) == Some(j as int),
{
    let mut i: usize = 0;
    let mut rem: usize = k;
    assert(s@.skip(0) =~= s@);
    while i < s.len() && rem > 0
        invariant
            i <= s@.len(),
            char_at_byte(s@, k as int) == (match char_at_byte(s@.skip(i as int), rem as int) {
                Some(j) => Some(j + i),
                None => None,
            }),
        decreases s@.len() - i,
    {
        assert(s@.skip(i as int).drop_first() =~= s@.skip(i + 1));
        let c = char_len_exec(s[i]);
        if c > rem {
            return None;
        }
        rem = rem - c;
        i = i + 1;
    }
    if rem == 0 {
        Some(i)
    } else {
        None
    }
}

/// Whether `c` is an ASCII digit.
pub open spec fn is_digit(c: char) -> bool {
    '0' <= c <= '9'
}

/// The value of the decimal digits `ds`.
pub open spec fn digits_value(ds: Seq<char>) -> int
    decreases ds.len(),
{
    if ds.len() == 0 {
        0
    } else {
        digits_value(ds.drop_last()) * 10 + (ds.last() as int - '0' as int)
    }
}

/// Every character of `ds` is an ASCII digit.
pub open spec fn all_digits(ds: Seq<char>) -> bool {
    forall|i: int| 0 <= i < ds.len() ==> is_digit(#[trigger] ds[i])
}

/// What `i64::from_str` gives for `s`: an optional `+` or `-` followed by at
/// least one ASCII digit, within the range of `i64`.
pub open spec fn std_parse_i64(s: Seq<char>) -> Option<int> {
    if s.len() == 0 || ((s[0] == '+' || s[0] == '-') && s.len() == 1) {
        None
    } else {
        let neg = s[0] == '-';
        let ds = if s[0] == '+' || s[0] == '-' {
            s.drop_first()
        } else {
            s
        };
        let v = if neg {
            -digits_value(ds)
        } else {
            digits_value(ds)
        };
        if all_digits(ds) && i64::MIN <= v <= i64::MAX {
            Some(v)
        } else {
            None
        }
    }
}

/// `i64::from_str` on a text of at most two characters (see `std_parse_i64`).
pub fn parse_short_i64(s: &Vec<char>) -> (r: Option<i64>)
    requires
        s@.len() <= 2,
    ensures
        r matches Some(v) ==> std_parse_i64(s@) == Some(v as int) && -9 <= v <= 99,
        r is None ==> std_parse_i64(s@) is None,
{
    if s.len() == 0 {
        return None;
    }
    let c0 = s[0];
    if s.len() == 1 {
        if '0' <= c0 && c0 <= '9' {
            assert(s@.drop_last() =~= Seq::<char>::empty());
            assert(digits_value(s@.drop_last()) == 0);
            assert(digits_value(s@) == c0 as int - '0' as int);
            assert(forall|i: int| 0 <= i < s@.len() ==> is_digit(#[trigger] s@[i]));
            return Some((c0 as u32 - '0' as u32) as i64);
        }
        proof {
            if c0 != '+' && c0 != '-' {
                let ds = s@;
                assert(!is_digit(ds[0]));
                assert(!(forall|i: int| 0 <= i < ds.len() ==> is_digit(#[trigger] ds[i])));
            }
        }
        return None;
    }
    let c1 = s[1];
    if !('0' <= c1 && c1 <= '9') {
        proof {
            if c0 == '+' || c0 == '-' {
                let ds = s@.drop_first();
                assert(!is_digit(ds[0]));
                assert(!(forall|i: int| 0 <= i < ds.len() ==> is_digit(#[trigger] ds[i])));
            } else {
                let ds = s@;
                assert(!is_digit(ds[1]));
                assert(!(forall|i: int| 0 <= i < ds.len() ==> is_digit(#[trigger] ds[i])));
            }
        }
        return None;
    }
    let d1 = (c1 as u32 - '0' as u32) as i64;
    if c0 == '+' || c0 == '-' {
        proof {
            let ds = s@.drop_first();
            assert(ds.drop_last() =~= Seq::<char>::empty());
            assert(digits_value(ds.drop_last()) == 0);
            assert(digits_value(ds) == d1);
            assert(all_digits(ds));
        }
        if c0 == '+' {
            Some(d1)
        } else {
            Some(-d1)
        }
    } else if '0' <= c0 && c0 <= '9' {
        proof {
            let ds = s@;
            assert(ds.drop_last().drop_last() =~= Seq::<char>::empty());
            assert(digits_value(ds.drop_last().drop_last()) == 0);
            assert(digits_value(ds.drop_last()) == c0 as int - '0' as int);
            assert(digits_value(ds) == (c0 as int - '0' as int) * 10 + d1);
            assert(all_digits(ds));
        }
        Some((c0 as u32 - '0' as u32) as i64 * 10 + d1)
    } else {
        assert(!is_digit(s@[0]));
        None
    }
}

} // verus!

verus! {

/// `s` without its leading run of `c`.
pub open spec fn trim_start_char(s: Seq<char>, c: char) -> Seq<char>
    decreases s.len(),
{
    if s.len() > 0 && s[0] == c {
        trim_start_char(s.drop_first(), c)
    } else {
        s
    }
}

/// `s` without its trailing run of `c` (`str::trim_end_matches(c)`).
pub open spec fn trim_end_char(s: Seq<char>, c: char) -> Seq<char>
    decreases s.len(),
{
    if s.len() > 0 && s.last() == c {
        trim_end_char(s.drop_last(), c)
    } else {
        s
    }
}

/// `s` without leading and trailing runs of `c` (`str::trim_matches(c)`).
pub open spec fn trim_char(s: Seq<char>, c: char) -> Seq<char> {
    trim_end_char(trim_start_char(s, c), c)
}

/// `s.trim_end_matches(c)` as a new string.
pub fn trim_end_matches(s: &str, c: char) -> (r: String)
    ensures
        r@ == trim_end_char(s@, c),
{
    let cs = chars_of(s);
    let mut j = cs.len();
    assert(cs@.subrange(0, cs@.len() as int) =~= cs@);
    while j > 0 && cs[j - 1] == c
        invariant
            j <= cs@.len(),
            trim_end_char(cs@, c) == trim_end_char(cs@.subrange(0, j as int), c),
        decreases j,
    {
        assert(cs@.subrange(0, j as int).drop_last() =~= cs@.subrange(0, j - 1));
        j = j - 1;
    }
    string_of(&cs, 0, j)
}

/// `s.trim_matches(c)` as a new string.
pub fn trim_matches(s: &str, c: char) -> (r: String)
    ensures
        r@ == trim_char(s@, c),
{
    let cs = chars_of(s);
    let mut i: usize = 0;
    assert(cs@.subrange(0, cs@.len() as int) =~= cs@);
    while i < cs.len() && cs[i] == c
        invariant
            i <= cs@.len(),
            trim_start_char(cs@, c) == trim_start_char(cs@.subrange(i as int, cs@.len() as int), c),
        decreases cs@.len() - i,
    {
        assert(cs@.subrange(i as int, cs@.len() as int).drop_first() =~= cs@.subrange(
            i + 1,
            cs@.len() as int,
        ));
        i = i + 1;
    }
    let mut j = cs.len();
    assert(cs@.subrange(i as int, j as int) == trim_start_char(cs@, c));
    while j > i && cs[j - 1] == c
        invariant
            i <= j <= cs@.len(),
            trim_char(cs@, c) == trim_end_char(cs@.subrange(i as int, j as int), c),
        decreases j,
    {
        assert(cs@.subrange(i as int, j as int).drop_last() =~= cs@.subrange(i as int, j - 1));
        j = j - 1;
    }
    string_of(&cs, i, j)
}

} // verus!

verus! {

/// `String::from_utf8`: the text that the bytes encode, none when they are not
/// UTF-8 (as its documentation states).
#[verifier::external_body]
pub(crate) fn utf8_string(bytes: &Vec<u8>) -> (r: Option<String>)
    ensures
        r is Some <==> vstd::utf8::valid_utf8(bytes@),
        r matches Some(s) ==> s@ == vstd::utf8::decode_utf8(bytes@),
{
    String::from_utf8(bytes.clone()).ok()
}

} // verus!

verus! {

/// Whether `a` and `b` are the same text.
pub fn str_eq(a: &str, b: &str) -> (r: bool)
    ensures
        r == (a@ == b@),
{
    let x = chars_of(a);
    let y = chars_of(b);
    if x.len() != y.len() {
        return false;
    }
    let mut i: usize = 0;
    while i < x.len()
        invariant
            x@ == a@,
            y@ == b@,
            x@.len() == y@.len(),
            i <= x@.len(),
            forall|j: int| 0 <= j < i ==> x@[j] == y@[j],
        decreases x@.len() - i,
    {
        if x[i] != y[i] {
            assert(x@[i as int] != y@[i as int]);
            return false;
        }
        i = i + 1;
    }
    assert(x@ =~= y@);
    true
}

} // verus!

verus! {

/// What `trim_end` leaves is a prefix of its argument.
pub proof fn lemma_trim_end_prefix(s: Seq<char>)
    ensures
        trim_end(s).len() <= s.len(),
        trim_end(s) == s.take(trim_end(s).len() as int),
    decreases s.len(),
{
    if s.len() > 0 && is_ws(s.last()) {
        lemma_trim_end_prefix(s.drop_last());
        assert(s.drop_last().take(trim_end(s).len() as int) =~= s.take(trim_end(s).len() as int));
    } else {
        assert(s.take(s.len() as int) =~= s);
    }
}

/// A trimmed text starts and ends with a character that is not white space.
pub proof fn lemma_trim_ends(s: Seq<char>)
    ensures
        trim(s).len() > 0 ==> !is_ws(trim(s)[0]) && !is_ws(trim(s).last()),
{
    lemma_trim_start_first(s);
    lemma_trim_end_last(trim_start(s));
    lemma_trim_end_prefix(trim_start(s));
}

proof fn lemma_trim_start_first(s: Seq<char>)
    ensures
        trim_start(s).len() > 0 ==> !is_ws(trim_start(s)[0]),
    decreases s.len(),
{
    if s.len() > 0 && is_ws(s[0]) {
        lemma_trim_start_first(s.drop_first());
    }
}

proof fn lemma_trim_end_last(s: Seq<char>)
    ensures
        trim_end(s).len() > 0 ==> !is_ws(trim_end(s).last()),
    decreases s.len(),
{
    if s.len() > 0 && is_ws(s.last()) {
        lemma_trim_end_last(s.drop_last());
    }
}

/// Trimming a trimmed text changes nothing.
pub proof fn lemma_trim_idempotent(s: Seq<char>)
    ensures
        trim(trim(s)) == trim(s),
{
    let t = trim(s);
    lemma_trim_ends(s);
    assert(trim_start(t) == t);
    assert(trim_end(t) == t);
}

/// Every character of `s` is ASCII (one byte in UTF-8).
pub open spec fn is_ascii_text(s: Seq<char>) -> bool {
    forall|i: int| 0 <= i < s.len() ==> (#[trigger] s[i] as u32) < 0x80
}

/// An ASCII text has as many bytes as characters.
pub proof fn lemma_ascii_byte_len(s: Seq<char>)
    requires
        is_ascii_text(s),
    ensures
        byte_len(s) == s.len(),
    decreases s.len(),
{
    if s.len() > 0 {
        assert(is_ascii_text(s.drop_first())) by {
            assert forall|i: int| 0 <= i < s.drop_first().len() implies (
            #[trigger] s.drop_first()[i] as u32) < 0x80 by {
                assert(s.drop_first()[i] == s[i + 1]);
            }
        }
        assert((s[0] as u32) < 0x80);
        lemma_ascii_byte_len(s.drop_first());
    }
}

/// In an ASCII text every byte is a character boundary, at the character of
/// the same index.
pub proof fn lemma_ascii_char_at_byte(s: Seq<char>, k: int)
    requires
        is_ascii_text(s),
        0 <= k <= s.len(),
    ensures
        char_at_byte(s, k) == Some(k),
    decreases s.len(),
{
    if k > 0 {
        assert(is_ascii_text(s.drop_first())) by {
            assert forall|i: int| 0 <= i < s.drop_first().len() implies (
            #[trigger] s.drop_first()[i] as u32) < 0x80 by {
                assert(s.drop_first()[i] == s[i + 1]);
            }
        }
        assert((s[0] as u32) < 0x80);
        lemma_ascii_char_at_byte(s.drop_first(), k - 1);
    }
}

/// A text that starts and ends with a character that is not white space is
/// its own trim.
pub proof fn lemma_trim_unchanged(s: Seq<char>)
    requires
        s.len() > 0,
        !is_ws(s[0]),
        !is_ws(s.last()),
    ensures
        trim(s) == s,
{
    assert(trim_start(s) == s);
    assert(trim_end(s) == s);
}

} // verus!
