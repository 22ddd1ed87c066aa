use vstd::prelude::*;

verus! {

/// Characters with the Unicode `White_Space` property: those that `char::is_whitespace`
/// accepts and that `str::trim` and `str::split_whitespace` treat as separators.
pub open spec fn is_white_space(c: char) -> bool {
    let x = c as u32;
    ||| 0x09 <= x <= 0x0D
    ||| x == 0x20
    ||| x == 0x85
    ||| x == 0xA0
    ||| x == 0x1680
    ||| 0x2000 <= x <= 0x200A
    ||| x == 0x2028
    ||| x == 0x2029
    ||| x == 0x202F
    ||| x == 0x205F
    ||| x == 0x3000
}

/// `s` without its leading and trailing white space.
pub open spec fn trim(s: Seq<char>) -> Seq<char>
    decreases s.len(),
{
    if s.len() > 0 && is_white_space(s[0]) {
        trim(s.drop_first())
    } else if s.len() > 0 && is_white_space(s.last()) {
        trim(s.drop_last())
    } else {
        s
    }
}

/// The characters of `s`, in order.
pub fn chars_of(s: &str) -> (v: Vec<char>)
    ensures
        v@ == s@,
{
    let mut v: Vec<char> = Vec::new();
    for c in it: s.chars()
        invariant
            v@ == it.seq().take(it.index() as int),
    {
        v.push(c);
    }
    v
}

/// Whether `c` is white space.
pub fn is_white_space_char(c: char) -> (b: bool)
    ensures
        b == is_white_space(c),
{
    let x = c as u32;
    (0x09 <= x && x <= 0x0D) || x == 0x20 || x == 0x85 || x == 0xA0 || x == 0x1680 || (0x2000
        <= x && x <= 0x200A) || x == 0x2028 || x == 0x2029 || x == 0x202F || x == 0x205F || x
        == 0x3000
}

proof fn lemma_trim_bounds(s: Seq<char>, a: int, b: int)
    requires
        0 <= a <= b <= s.len(),
        forall|k: int| 0 <= k < a ==> is_white_space(#[trigger] s[k]),
        forall|k: int| b <= k < s.len() ==> is_white_space(#[trigger] s[k]),
        a < b ==> !is_white_space(s[a]) && !is_white_space(s[b - 1]),
    ensures
        trim(s) == s.subrange(a, b),
    decreases s.len(),
{
    if s.len() > 0 && is_white_space(s[0]) {
        if a == 0 {
            // then a == b and everything is white space
            assert(b == 0);
        }
        let t = s.drop_first();
        if a > 0 {
            lemma_trim_bounds(t, a - 1, b - 1);
            assert(t.subrange(a - 1, b - 1) =~= s.subrange(a, b));
        } else {
            lemma_trim_bounds(t, 0, 0);
            assert(t.subrange(0, 0) =~= s.subrange(a, b));
        }
    } else if s.len() > 0 && is_white_space(s.last()) {
        let t = s.drop_last();
        if b < s.len() {
            lemma_trim_bounds(t, a, b);
            assert(t.subrange(a, b) =~= s.subrange(a, b));
        } else {
            assert(a == b);
            lemma_trim_bounds(t, a - 1, a - 1);
            assert(false);
        }
    } else {
        if s.len() > 0 {
            assert(a == 0 && b == s.len());
        }
        assert(s.subrange(a, b) =~= s);
    }
}

/// The bounds of `s[start..end]` without its leading and trailing white space.
pub fn trim_range(s: &Vec<char>, start: usize, end: usize) -> (r: (usize, usize))
    requires
        start <= end <= s.len(),
    ensures
        start <= r.0 <= r.1 <= end,
        s@.subrange(r.0 as int, r.1 as int) == trim(s@.subrange(start as int, end as int)),
{
    let mut a = start;
    while a < end && is_white_space_char(s[a])
        invariant
            start <= a <= end <= s.len(),
            forall|k: int| start <= k < a ==> is_white_space(#[trigger] s@[k]),
        decreases end - a,
    {
        a = a + 1;
    }
    let mut b = end;
    while b > a && is_white_space_char(s[b - 1])
        invariant
            start <= a <= b <= end <= s.len(),
            forall|k: int| b <= k < end ==> is_white_space(#[trigger] s@[k]),
        decreases b - a,
    {
        b = b - 1;
    }
    proof {
        let t = s@.subrange(start as int, end as int);
        assert forall|k: int| 0 <= k < a - start implies is_white_space(#[trigger] t[k]) by {
            assert(t[k] == s@[k + start]);
        }
        assert forall|k: int| b - start <= k < t.len() implies is_white_space(#[trigger] t[k]) by {
            assert(t[k] == s@[k + start]);
        }
        if a < b {
            assert(t[a - start] == s@[a as int]);
            assert(t[b - 1 - start] == s@[b - 1]);
        }
        lemma_trim_bounds(t, a - start, b - start);
        assert(t.subrange(a - start, b - start) =~= s@.subrange(a as int, b as int));
    }
    (a, b)
}


/// The white-space separated words of `s`, as `str::split_whitespace` yields them.
pub open spec fn words(s: Seq<char>) -> Seq<Seq<char>>
    decreases s.len(),
{
    if s.len() == 0 {
        Seq::empty()
    } else {
        let w = words(s.drop_last());
        let c = s.last();
        if is_white_space(c) {
            w
        } else if s.len() >= 2 && !is_white_space(s[s.len() - 2]) {
            w.update(w.len() - 1, w.last().push(c))
        } else {
            w.push(seq![c])
        }
    }
}

/// The pieces of `s` between the sub-ranges listed in `r`.
pub open spec fn pieces(s: Seq<char>, r: Seq<(usize, usize)>) -> Seq<Seq<char>> {
    r.map_values(|p: (usize, usize)| s.subrange(p.0 as int, p.1 as int))
}

/// The bounds of the white-space separated words of `s`, in order.
pub fn word_ranges(s: &Vec<char>, start: usize, end: usize) -> (r: Vec<(usize, usize)>)
    requires
        start <= end <= s.len(),
    ensures
        pieces(s@, r@) == words(s@.subrange(start as int, end as int)),
        forall|k: int| 0 <= k < r.len() ==> start <= (#[trigger] r@[k]).0 <= r@[k].1 <= end,
{
    let mut r: Vec<(usize, usize)> = Vec::new();
    let mut i = start;
    while i < end
        invariant
            start <= i <= end <= s.len(),
            pieces(s@, r@) == words(s@.subrange(start as int, i as int)),
            forall|k: int| 0 <= k < r.len() ==> start <= (#[trigger] r@[k]).0 <= r@[k].1 <= i,
            i > start && !is_white_space(s@[i - 1]) ==> r.len() > 0 && r@.last().1 == i,
        decreases end - i,
    {
        let ghost old_r = r@;
        let ghost pre = s@.subrange(start as int, i as int);
        let ghost cur = s@.subrange(start as int, i + 1);
        assert(cur.drop_last() =~= pre);
        assert(cur.last() == s@[i as int]);
        let c = s[i];
        if is_white_space_char(c) {
        } else if i > start && !is_white_space_char(s[i - 1]) {
            assert(cur[cur.len() - 2] == s@[i - 1]);
            let n = r.len() - 1;
            let first = r[n].0;
            r.set(n, (first, i + 1));
            proof {
                let w = words(pre);
                assert(pieces(s@, old_r) == w);
                assert(w.len() == old_r.len());
                assert(w.last() == s@.subrange(first as int, i as int));
                assert(s@.subrange(first as int, i + 1) =~= w.last().push(c));
                assert(pieces(s@, r@) =~= w.update(w.len() - 1, w.last().push(c)));
            }
        } else {
            r.push((i, i + 1));
            proof {
                let w = words(pre);
                assert(s@.subrange(i as int, i + 1) =~= seq![c]);
                assert(pieces(s@, r@) =~= w.push(seq![c]));
            }
        }
        i = i + 1;
    }
    r
}

/// The pieces of `s` between its newlines (there is one more piece than newlines).
pub open spec fn newline_pieces(s: Seq<char>) -> Seq<Seq<char>>
    decreases s.len(),
{
    if s.len() == 0 {
        seq![Seq::empty()]
    } else {
        let p = newline_pieces(s.drop_last());
        if s.last() == '\n' {
            p.push(Seq::empty())
        } else {
            p.update(p.len() - 1, p.last().push(s.last()))
        }
    }
}

/// A line ended by a newline loses one carriage return before it.
pub open spec fn strip_cr(l: Seq<char>) -> Seq<char> {
    if l.len() > 0 && l.last() == '\r' {
        l.drop_last()
    } else {
        l
    }
}

/// The lines of `s`, as `str::lines` yields them: split at `\n` or `\r\n`, where the
/// last line ending is optional.
pub open spec fn lines(s: Seq<char>) -> Seq<Seq<char>> {
    let p = newline_pieces(s);
    let ended = p.drop_last().map_values(|l: Seq<char>| strip_cr(l));
    if p.last().len() > 0 {
        ended.push(p.last())
    } else {
        ended
    }
}

/// The bounds of the lines of `s[start..end]`, as `str::lines` yields them.
pub fn line_ranges(s: &Vec<char>, start: usize, end: usize) -> (r: Vec<(usize, usize)>)
    requires
        start <= end <= s.len(),
    ensures
        pieces(s@, r@) == lines(s@.subrange(start as int, end as int)),
        forall|k: int| 0 <= k < r.len() ==> start <= (#[trigger] r@[k]).0 <= r@[k].1 <= end,
{
    let mut done: Vec<(usize, usize)> = Vec::new();
    let mut cur = start;
    let mut i = start;
    proof {
        assert(s@.subrange(start as int, start as int) =~= Seq::<char>::empty());
    }
    while i < end
        invariant
            start <= cur <= i <= end <= s.len(),
            newline_pieces(s@.subrange(start as int, i as int)).len() >= 1,
            pieces(s@, done@) == newline_pieces(s@.subrange(start as int, i as int)).drop_last().map_values(
                |l: Seq<char>| strip_cr(l),
            ),
            newline_pieces(s@.subrange(start as int, i as int)).last() == s@.subrange(cur as int, i as int),
            forall|k: int| 0 <= k < done.len() ==> start <= (#[trigger] done@[k]).0 <= done@[k].1 <= i,
        decreases end - i,
    {
        let ghost pre = s@.subrange(start as int, i as int);
        let ghost next = s@.subrange(start as int, i + 1);
        let ghost p = newline_pieces(pre);
        assert(next.drop_last() =~= pre);
        assert(next.last() == s@[i as int]);
        if s[i] == '\n' {
            let e = if i > cur && s[i - 1] == '\r' { i - 1 } else { i };
            let ghost old_done = done@;
            done.push((cur, e));
            proof {
                let piece = s@.subrange(cur as int, i as int);
                if i > cur && s@[i - 1] == '\r' {
                    assert(piece.last() == s@[i - 1]);
                    assert(s@.subrange(cur as int, e as int) =~= piece.drop_last());
                }
                assert(s@.subrange(cur as int, e as int) == strip_cr(piece));
                let np = newline_pieces(next);
                assert(np == p.push(Seq::empty()));
                assert(np.drop_last() =~= p);
                assert(pieces(s@, done@) =~= pieces(s@, old_done).push(s@.subrange(cur as int, e as int)));
                assert(p.map_values(|l: Seq<char>| strip_cr(l)) =~= p.drop_last().map_values(
                    |l: Seq<char>| strip_cr(l),
                ).push(strip_cr(p.last())));
                assert(pieces(s@, done@) =~= p.map_values(|l: Seq<char>| strip_cr(l)));
                assert(np.last() =~= s@.subrange((i + 1) as int, (i + 1) as int));
            }
            cur = i + 1;
        } else {
            proof {
                let np = newline_pieces(next);
                assert(np == p.update(p.len() - 1, p.last().push(s@[i as int])));
                assert(np.drop_last() =~= p.drop_last());
                assert(np.last() =~= s@.subrange(cur as int, i + 1));
            }
        }
        i = i + 1;
    }
    let ghost p = newline_pieces(s@.subrange(start as int, end as int));
    if cur < end {
        done.push((cur, end));
        proof {
            assert(pieces(s@, done@) =~= lines(s@.subrange(start as int, end as int)));
        }
    } else {
        proof {
            assert(p.last().len() == 0);
            assert(pieces(s@, done@) =~= lines(s@.subrange(start as int, end as int)));
        }
    }
    done
}


/// A decimal digit.
pub open spec fn is_digit(c: char) -> bool {
    48 <= (c as u32) <= 57
}

/// The value of the decimal digit `c`.
pub open spec fn digit_value(c: char) -> nat {
    ((c as u32) - 48) as nat
}

/// Whether every character of `s` is a decimal digit.
pub open spec fn all_digits(s: Seq<char>) -> bool {
    forall|i: int| 0 <= i < s.len() ==> is_digit(#[trigger] s[i])
}

/// The number that the decimal digits `s` denote.
pub open spec fn digits_value(s: Seq<char>) -> nat
    decreases s.len(),
{
    if s.len() == 0 {
        0
    } else {
        digits_value(s.drop_last()) * 10 + digit_value(s.last())
    }
}

/// `s` without one leading `+`.
pub open spec fn unsigned_digits(s: Seq<char>) -> Seq<char> {
    if s.len() > 0 && s[0] == '+' {
        s.drop_first()
    } else {
        s
    }
}

/// What `from_str` of an unsigned integer type whose largest value is `max` gives for `s`:
/// an optional `+` followed by at least one decimal digit, denoting at most `max`.
pub open spec fn parse_unsigned(s: Seq<char>, max: nat) -> Option<nat> {
    let d = unsigned_digits(s);
    if d.len() > 0 && all_digits(d) && digits_value(d) <= max {
        Some(digits_value(d))
    } else {
        None
    }
}

/// What `from_str` of a signed integer type whose range is `min..=max` gives for `s`:
/// an optional sign followed by at least one decimal digit, denoting a value in range.
pub open spec fn parse_signed(s: Seq<char>, min: int, max: int) -> Option<int> {
    if s.len() > 0 && s[0] == '-' {
        let d = s.drop_first();
        if d.len() > 0 && all_digits(d) && min <= -digits_value(d) {
            Some(-digits_value(d))
        } else {
            None
        }
    } else {
        let d = unsigned_digits(s);
        if d.len() > 0 && all_digits(d) && digits_value(d) <= max {
            Some(digits_value(d) as int)
        } else {
            None
        }
    }
}

proof fn lemma_digits_value_prefix(s: Seq<char>, k: int)
    requires
        0 <= k <= s.len(),
    ensures
        digits_value(s.take(k)) <= digits_value(s),
    decreases s.len(),
{
    if k < s.len() {
        lemma_digits_value_prefix(s.drop_last(), k);
        assert(s.drop_last().take(k) =~= s.take(k));
    } else {
        assert(s.take(k) =~= s);
    }
}

/// The value of the decimal digits `s[start..end]`, when they are all digits, there is at
/// least one, and the value fits in a `u64`.
fn parse_digits(s: &Vec<char>, start: usize, end: usize) -> (r: Option<u64>)
    requires
        start <= end <= s.len(),
    ensures
        ({
            let d = s@.subrange(start as int, end as int);
            match r {
                Some(v) => d.len() > 0 && all_digits(d) && v == digits_value(d),
                None => !(d.len() > 0 && all_digits(d) && digits_value(d) <= u64::MAX),
            }
        }),
{
    if start == end {
        return None;
    }
    let ghost d = s@.subrange(start as int, end as int);
    let mut v: u64 = 0;
    let mut i = start;
    proof {
        assert(d.take(0) =~= Seq::<char>::empty());
    }
    while i < end
        invariant
            start <= i <= end <= s.len(),
            d == s@.subrange(start as int, end as int),
            all_digits(d.take(i - start)),
            v == digits_value(d.take(i - start)),
        decreases end - i,
    {
        let c = s[i];
        let x = c as u32;
        assert(d[i - start] == c);
        if x < 48 || x > 57 {
            return None;
        }
        let ghost next = d.take(i - start + 1);
        assert(next.drop_last() =~= d.take(i - start));
        assert(next.last() == c);
        let dv = (x - 48) as u64;
        match v.checked_mul(10) {
            Some(m) => match m.checked_add(dv) {
                Some(n) => {
                    v = n;
                },
                None => {
                    proof {
                        if all_digits(d) {
                            lemma_digits_value_prefix(d, i - start + 1);
                        }
                    }
                    return None;
                },
            },
            None => {
                proof {
                    if all_digits(d) {
                        lemma_digits_value_prefix(d, i - start + 1);
                    }
                }
                return None;
            },
        }
        i = i + 1;
    }
    proof {
        assert(d.take(end - start) =~= d);
    }
    Some(v)
}

/// What `u64::from_str` gives for `s[start..end]`.
pub fn parse_u64(s: &Vec<char>, start: usize, end: usize) -> (r: Option<u64>)
    requires
        start <= end <= s.len(),
    ensures
        r matches Some(v) ==> parse_unsigned(s@.subrange(start as int, end as int), u64::MAX as nat)
            == Some(v as nat),
        r is None ==> parse_unsigned(s@.subrange(start as int, end as int), u64::MAX as nat) is None,
{
    let ghost t = s@.subrange(start as int, end as int);
    let mut a = start;
    if start < end && s[start] == '+' {
        a = start + 1;
        assert(s@.subrange(a as int, end as int) =~= t.drop_first());
    } else {
        assert(s@.subrange(a as int, end as int) =~= t);
    }
    parse_digits(s, a, end)
}

/// What `u8::from_str` gives for `s[start..end]`.
pub fn parse_u8(s: &Vec<char>, start: usize, end: usize) -> (r: Option<u8>)
    requires
        start <= end <= s.len(),
    ensures
        r matches Some(v) ==> parse_unsigned(s@.subrange(start as int, end as int), u8::MAX as nat)
            == Some(v as nat),
        r is None ==> parse_unsigned(s@.subrange(start as int, end as int), u8::MAX as nat) is None,
{
    match parse_u64(s, start, end) {
        Some(v) => if v <= 255 {
            Some(v as u8)
        } else {
            None
        },
        None => None,
    }
}

/// What `u32::from_str` gives for `s[start..end]`.
pub fn parse_u32(s: &Vec<char>, start: usize, end: usize) -> (r: Option<u32>)
    requires
        start <= end <= s.len(),
    ensures
        r matches Some(v) ==> parse_unsigned(s@.subrange(start as int, end as int), u32::MAX as nat)
            == Some(v as nat),
        r is None ==> parse_unsigned(s@.subrange(start as int, end as int), u32::MAX as nat) is None,
{
    match parse_u64(s, start, end) {
        Some(v) => if v <= 0xFFFF_FFFF {
            Some(v as u32)
        } else {
            None
        },
        None => None,
    }
}

/// What `i64::from_str` gives for `s[start..end]`.
pub fn parse_i64(s: &Vec<char>, start: usize, end: usize) -> (r: Option<i64>)
    requires
        start <= end <= s.len(),
    ensures
        r matches Some(v) ==> parse_signed(s@.subrange(start as int, end as int), i64::MIN as int, i64::MAX as int)
            == Some(v as int),
        r is None ==> parse_signed(s@.subrange(start as int, end as int), i64::MIN as int, i64::MAX as int) is None,
{
    let ghost t = s@.subrange(start as int, end as int);
    if start < end && s[start] == '-' {
        assert(s@.subrange(start + 1, end as int) =~= t.drop_first());
        match parse_digits(s, start + 1, end) {
            Some(m) => if m <= 0x8000_0000_0000_0000 {
                if m == 0x8000_0000_0000_0000 {
                    Some(i64::MIN)
                } else {
                    Some(-(m as i64))
                }
            } else {
                None
            },
            None => None,
        }
    } else {
        match parse_u64(s, start, end) {
            Some(m) => if m <= 0x7FFF_FFFF_FFFF_FFFF {
                Some(m as i64)
            } else {
                None
            },
            None => None,
        }
    }
}


/// Calls `String::push`, which std documents as appending the character to the end of
/// the string; the contract takes that at its word: the characters of `s` become the old
/// ones followed by `c`.
#[verifier::external_body]
fn push_char(s: &mut String, c: char)
    ensures
        final(s)@ == old(s)@.push(c),
{
    s.push(c);
}

/// A string of the characters `v[start..end]`.
pub fn string_of(v: &Vec<char>, start: usize, end: usize) -> (r: String)
    requires
        start <= end <= v.len(),
    ensures
        r@ == v@.subrange(start as int, end as int),
{
    let mut r = String::new();
    let mut i = start;
    while i < end
        invariant
            start <= i <= end <= v.len(),
            r@ == v@.subrange(start as int, i as int),
        decreases end - i,
    {
        push_char(&mut r, v[i]);
        assert(r@ =~= v@.subrange(start as int, i + 1));
        i = i + 1;
    }
    r
}

/// `s` without its leading and trailing white space, as `str::trim` gives it.
pub fn trimmed(s: &str) -> (r: String)
    ensures
        r@ == trim(s@),
{
    let v = chars_of(s);
    let (a, b) = trim_range(&v, 0, v.len());
    assert(v@.subrange(0, v@.len() as int) =~= v@);
    string_of(&v, a, b)
}

/// The decimal digit character for `d` (0..=9).
pub open spec fn digit_char(d: nat) -> char {
    if d == 0 {
        '0'
    } else if d == 1 {
        '1'
    } else if d == 2 {
        '2'
    } else if d == 3 {
        '3'
    } else if d == 4 {
        '4'
    } else if d == 5 {
        '5'
    } else if d == 6 {
        '6'
    } else if d == 7 {
        '7'
    } else if d == 8 {
        '8'
    } else {
        '9'
    }
}

/// The decimal representation of `n`, as `to_string` gives it for an unsigned integer.
pub open spec fn decimal(n: nat) -> Seq<char>
    decreases n,
{
    if n < 10 {
        seq![digit_char(n)]
    } else {
        decimal(n / 10).push(digit_char(n % 10))
    }
}

fn digit_to_char(d: u64) -> (c: char)
    requires
        d < 10,
    ensures
        c == digit_char(d as nat),
{
    match d {
        0 => '0',
        1 => '1',
        2 => '2',
        3 => '3',
        4 => '4',
        5 => '5',
        6 => '6',
        7 => '7',
        8 => '8',
        _ => '9',
    }
}

/// The decimal representation of `n`.
pub fn decimal_string(n: u64) -> (r: String)
    ensures
        r@ == decimal(n as nat),
    decreases n,
{
    if n < 10 {
        let mut r = String::new();
        push_char(&mut r, digit_to_char(n));
        assert(r@ =~= seq![digit_char(n as nat)]);
        r
    } else {
        let mut r = decimal_string(n / 10);
        push_char(&mut r, digit_to_char(n % 10));
        r
    }
}

proof fn lemma_digit_char(d: nat)
    requires
        d < 10,
    ensures
        is_digit(digit_char(d)),
        digit_value(digit_char(d)) == d,
{
    assert('0' as u32 == 48 && '1' as u32 == 49 && '2' as u32 == 50 && '3' as u32 == 51 && '4' as u32
        == 52);
    assert('5' as u32 == 53 && '6' as u32 == 54 && '7' as u32 == 55 && '8' as u32 == 56 && '9' as u32
        == 57);
}

proof fn lemma_decimal_digits(n: nat)
    ensures
        decimal(n).len() > 0,
        all_digits(decimal(n)),
        digits_value(decimal(n)) == n,
        decimal(n)[0] != '+' && decimal(n)[0] != '-',
    decreases n,
{
    lemma_digit_char(n % 10);
    if n < 10 {
        let d = decimal(n);
        assert(d.drop_last() =~= Seq::<char>::empty());
        assert(n % 10 == n);
        assert(d.last() == digit_char(n));
        assert(digits_value(d) == digits_value(d.drop_last()) * 10 + digit_value(d.last()));
    } else {
        lemma_decimal_digits(n / 10);
        let d = decimal(n);
        assert(d.last() == digit_char(n % 10));
        assert(digits_value(d) == digits_value(d.drop_last()) * 10 + digit_value(d.last()));
        assert(n == (n / 10) * 10 + n % 10);
        assert(d.drop_last() =~= decimal(n / 10));
        assert(d[0] == decimal(n / 10)[0]);
    }
}

/// Reading back the decimal representation of a number gives the number, for any unsigned
/// type large enough to hold it.
pub proof fn lemma_parse_decimal(n: nat, max: nat)
    requires
        n <= max,
    ensures
        parse_unsigned(decimal(n), max) == Some(n),
        parse_unsigned(trim(decimal(n)), max) == Some(n),
{
    lemma_decimal_digits(n);
    let d = decimal(n);
    assert(!is_white_space(d[0]));
    assert(!is_white_space(d.last()));
    assert(is_digit(d.last()));
    lemma_trim_bounds(d, 0, d.len() as int);
    assert(d.subrange(0, d.len() as int) =~= d);
}

/// Whether `s[start..end]` begins with `prefix`.
pub fn starts_with(s: &Vec<char>, start: usize, end: usize, prefix: &Vec<char>) -> (r: bool)
    requires
        start <= end <= s.len(),
    ensures
        r == (prefix.len() <= end - start && s@.subrange(start as int, start + prefix.len())
            == prefix@),
{
    if prefix.len() > end - start {
        return false;
    }
    let mut i: usize = 0;
    while i < prefix.len()
        invariant
            prefix.len() <= end - start,
            start <= end <= s.len(),
            i <= prefix.len(),
            forall|k: int| 0 <= k < i ==> s@[start + k] == prefix@[k],
        decreases prefix.len() - i,
    {
        if s[start + i] != prefix[i] {
            assert(s@.subrange(start as int, start + prefix.len())[i as int] != prefix@[i as int]);
            return false;
        }
        i = i + 1;
    }
    assert(s@.subrange(start as int, start + prefix.len()) =~= prefix@);
    true
}

/// `pat` occurs in `s`.
pub open spec fn occurs_in(pat: Seq<char>, s: Seq<char>) -> bool {
    exists|i: int| 0 <= i && i + pat.len() <= s.len() && #[trigger] s.subrange(i, i + pat.len()) == pat
}

/// Whether `pat` occurs in `s[start..end]`.
pub fn contains(s: &Vec<char>, start: usize, end: usize, pat: &Vec<char>) -> (r: bool)
    requires
        start <= end <= s.len(),
    ensures
        r == occurs_in(pat@, s@.subrange(start as int, end as int)),
{
    let ghost t = s@.subrange(start as int, end as int);
    if pat.len() > end - start {
        return false;
    }
    let last = end - pat.len();
    let mut i = start;
    loop
        invariant_except_break
            start <= i <= last,
            last == end - pat.len(),
            start <= end <= s.len(),
            pat.len() <= end - start,
            t == s@.subrange(start as int, end as int),
            forall|k: int| 0 <= k < i - start ==> #[trigger] t.subrange(k, k + pat.len()) != pat@,
        ensures
            last == end - pat.len(),
            t == s@.subrange(start as int, end as int),
            forall|k: int| 0 <= k <= last - start ==> #[trigger] t.subrange(k, k + pat.len()) != pat@,
        decreases last - i,
    {
        assert(t.subrange(i - start, i - start + pat.len()) =~= s@.subrange(i as int, i + pat.len()));
        if starts_with(s, i, end, pat) {
            return true;
        }
        if i == last {
            break;
        }
        i = i + 1;
    }
    assert forall|k: int| 0 <= k && k + pat.len() <= t.len() implies #[trigger] t.subrange(k, k + pat.len()) != pat@ by {
        assert(k <= last - start);
    }
    false
}


/// The white-space separated words of `s`, as `str::split_whitespace` yields them.
pub fn split_words(s: &str) -> (r: Vec<String>)
    ensures
        crate::types::string_views(r@) == words(s@),
{
    let v = chars_of(s);
    let wr = word_ranges(&v, 0, v.len());
    assert(v@.subrange(0, v@.len() as int) =~= v@);
    let mut r: Vec<String> = Vec::new();
    for k in 0..wr.len()
        invariant
            forall|j: int| 0 <= j < wr.len() ==> 0 <= (#[trigger] wr@[j]).0 <= wr@[j].1 <= v.len(),
            crate::types::string_views(r@) == pieces(v@, wr@).take(k as int),
    {
        let (a, b) = wr[k];
        let w = string_of(&v, a, b);
        let ghost before = r@;
        r.push(w);
        assert(pieces(v@, wr@)[k as int] == v@.subrange(a as int, b as int));
        assert(crate::types::string_views(r@) =~= crate::types::string_views(before).push(w@));
        assert(crate::types::string_views(r@) =~= pieces(v@, wr@).take(k + 1));
    }
    assert(pieces(v@, wr@).take(wr.len() as int) =~= pieces(v@, wr@));
    r
}


/// The position of the first `c` in `s`, or its length when there is none.
pub open spec fn char_pos(s: Seq<char>, c: char) -> int
    decreases s.len(),
{
    if s.len() == 0 {
        0
    } else if s[0] == c {
        0
    } else {
        1 + char_pos(s.drop_first(), c)
    }
}

/// The part of `s` before its first `c` (all of it when there is none), as the first item
/// of `split(c)`.
pub open spec fn before_char(s: Seq<char>, c: char) -> Seq<char> {
    s.subrange(0, char_pos(s, c))
}

/// `char_pos` stays within `s` and finds `c` when it is below the length.
pub proof fn lemma_char_pos_bounds(s: Seq<char>, c: char)
    ensures
        0 <= char_pos(s, c) <= s.len(),
        char_pos(s, c) < s.len() ==> s[char_pos(s, c)] == c,
        forall|i: int| 0 <= i < char_pos(s, c) ==> s[i] != c,
    decreases s.len(),
{
    if s.len() > 0 && s[0] != c {
        lemma_char_pos_bounds(s.drop_first(), c);
        assert forall|i: int| 0 <= i < char_pos(s, c) implies s[i] != c by {
            if i > 0 {
                assert(s[i] == s.drop_first()[i - 1]);
            }
        }
    }
}

/// Where the first `c` of `v[a..b]` stands, or `b` when there is none.
pub fn find_char(v: &Vec<char>, a: usize, b: usize, c: char) -> (r: usize)
    requires
        a <= b <= v.len(),
    ensures
        a <= r <= b,
        r - a == char_pos(v@.subrange(a as int, b as int), c),
{
    let mut i = a;
    while i < b && v[i] != c
        invariant
            a <= i <= b <= v.len(),
            char_pos(v@.subrange(a as int, b as int), c) == (i - a) + char_pos(v@.subrange(i as int, b as int), c),
        decreases b - i,
    {
        assert(v@.subrange(i as int, b as int).drop_first() =~= v@.subrange(i + 1, b as int));
        i = i + 1;
    }
    i
}

} // verus!
