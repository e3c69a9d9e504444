//! Text handling over characters.
//!
//! Listings arrive as strings; everything the library decides about them is
//! stated over `Seq<char>` and computed over slices of `char`.

use vstd::prelude::*;

verus! {

/// `String::push` appends one character to the end of the string.
pub assume_specification[ String::push ](s: &mut String, c: char)
    ensures
        final(s)@ == old(s)@.push(c),
;

/// The characters of a string, in order.
pub fn chars_of(s: &str) -> (v: Vec<char>)
    ensures
        v@ == s@,
{
    broadcast use vstd::string::group_string_axioms;

    let mut v: Vec<char> = Vec::new();
    for c in it: s.chars()
        invariant
            it.seq() == s@,
            v@ == s@.take(it.index()),
    {
        assert(s@.take(it.index() + 1) =~= s@.take(it.index()).push(c));
        v.push(c);
    }
    assert(s@.take(s@.len() as int) =~= s@);
    v
}

/// The string made of the given characters.
pub fn string_of(v: &[char]) -> (s: String)
    ensures
        s@ == v@,
{
    let mut s = String::new();
    let mut i: usize = 0;
    while i < v.len()
        invariant
            i <= v.len(),
            s@ == v@.take(i as int),
        decreases v.len() - i,
    {
        s.push(v[i]);
        assert(v@.take(i + 1) =~= v@.take(i as int).push(v@[i as int]));
        i += 1;
    }
    assert(v@.take(v@.len() as int) =~= v@);
    s
}

/// Whether `c` is white space in the sense of Unicode's `White_Space` property.
pub open spec fn is_space(c: char) -> bool {
    let u = c as u32;
    ||| 0x09 <= u <= 0x0d
    ||| u == 0x20
    ||| u == 0x85
    ||| u == 0xa0
    ||| u == 0x1680
    ||| 0x2000 <= u <= 0x200a
    ||| u == 0x2028
    ||| u == 0x2029
    ||| u == 0x202f
    ||| u == 0x205f
    ||| u == 0x3000
}

/// Tests a character for white space.
pub fn is_whitespace(c: char) -> (b: bool)
    ensures
        b == is_space(c),
{
    let u: u32 = c as u32;
    (0x09 <= u && u <= 0x0d) || u == 0x20 || u == 0x85 || u == 0xa0 || u == 0x1680 || (0x2000 <= u
        && u <= 0x200a) || u == 0x2028 || u == 0x2029 || u == 0x202f || u == 0x205f || u == 0x3000
}

/// How many white-space characters `s` starts with.
pub open spec fn leading_spaces(s: Seq<char>) -> nat
    decreases s.len(),
{
    if s.len() > 0 && is_space(s[0]) {
        1 + leading_spaces(s.drop_first())
    } else {
        0
    }
}

/// How many white-space characters `s` ends with.
pub open spec fn trailing_spaces(s: Seq<char>) -> nat
    decreases s.len(),
{
    if s.len() > 0 && is_space(s.last()) {
        1 + trailing_spaces(s.drop_last())
    } else {
        0
    }
}

/// `s` without the white space at its two ends.
pub open spec fn trimmed(s: Seq<char>) -> Seq<char> {
    let rest = s.skip(leading_spaces(s) as int);
    rest.take(rest.len() - trailing_spaces(rest))
}

/// Removes the white space at both ends of `s`.
pub fn trim<'a>(s: &'a [char]) -> (r: &'a [char])
    ensures
        r@ == trimmed(s@),
{
    let n = s.len();
    let mut start: usize = 0;
    assert(s@.skip(0) =~= s@);
    while start < n && is_whitespace(s[start])
        invariant
            start <= n,
            n == s@.len(),
            leading_spaces(s@) == start + leading_spaces(s@.skip(start as int)),
        decreases n - start,
    {
        assert(s@.skip(start as int).drop_first() =~= s@.skip(start + 1));
        start += 1;
    }
    let ghost rest = s@.skip(start as int);
    let mut end: usize = n;
    assert(rest.take(n - start) =~= rest);
    while end > start && is_whitespace(s[end - 1])
        invariant
            start <= end <= n,
            n == s@.len(),
            rest == s@.skip(start as int),
            trailing_spaces(rest) == (n - end) + trailing_spaces(rest.take(end - start)),
        decreases end,
    {
        assert(rest.take(end - start).drop_last() =~= rest.take(end - start - 1));
        end -= 1;
    }
    let r = &s[start..end];
    assert(r@ =~= rest.take(end - start));
    r
}

/// The index of the first `c` in `s`, or the length of `s` where there is none.
pub open spec fn position(s: Seq<char>, c: char) -> int
    decreases s.len(),
{
    if s.len() == 0 {
        0
    } else if s[0] == c {
        0
    } else {
        1 + position(s.drop_first(), c)
    }
}

/// `position` is the least index that holds `c`.
pub proof fn lemma_position(s: Seq<char>, c: char)
    ensures
        0 <= position(s, c) <= s.len(),
        position(s, c) < s.len() ==> s[position(s, c)] == c,
        forall|i: int| 0 <= i < position(s, c) ==> s[i] != c,
    decreases s.len(),
{
    if s.len() > 0 && s[0] != c {
        let tail = s.drop_first();
        lemma_position(tail, c);
        assert forall|i: int| 0 <= i < position(s, c) implies s[i] != c by {
            if i > 0 {
                assert(s[i] == tail[i - 1]);
            }
        }
    }
}

/// Finds the first `c` in `s`.
pub fn find(s: &[char], c: char) -> (r: usize)
    ensures
        r == position(s@, c),
        r <= s@.len(),
{
    let mut i: usize = 0;
    assert(s@.skip(0) =~= s@);
    while i < s.len() && s[i] != c
        invariant
            i <= s.len(),
            position(s@, c) == i + position(s@.skip(i as int), c),
        decreases s.len() - i,
    {
        assert(s@.skip(i as int).drop_first() =~= s@.skip(i + 1));
        i += 1;
    }
    i
}

/// The pieces of `s` between occurrences of `c`; there is always at least one.
pub open spec fn split(s: Seq<char>, c: char) -> Seq<Seq<char>>
    decreases s.len(),
{
    let p = position(s, c);
    if 0 <= p < s.len() {
        seq![s.take(p)] + split(s.skip(p + 1), c)
    } else {
        seq![s]
    }
}

/// Cuts `s` at every `c`.
pub fn split_at_char<'a>(s: &'a [char], c: char) -> (pieces: Vec<&'a [char]>)
    ensures
        pieces@.len() == split(s@, c).len(),
        forall|i: int| 0 <= i < pieces@.len() ==> (#[trigger] pieces@[i])@ == split(s@, c)[i],
{
    let n = s.len();
    let mut pieces: Vec<&'a [char]> = Vec::new();
    let mut start: usize = 0;
    let ghost mut done: Seq<Seq<char>> = Seq::empty();
    assert(s@.skip(0) =~= s@);
    assert(done + split(s@, c) =~= split(s@, c));
    loop
        invariant_except_break
            start <= n,
            n == s@.len(),
            done.len() == pieces@.len(),
            forall|i: int| 0 <= i < pieces@.len() ==> (#[trigger] pieces@[i])@ == done[i],
            split(s@, c) == done + split(s@.skip(start as int), c),
        ensures
            pieces@.len() == split(s@, c).len(),
            forall|i: int| 0 <= i < pieces@.len() ==> (#[trigger] pieces@[i])@ == split(s@, c)[i],
        decreases n - start,
    {
        let rest = &s[start..n];
        assert(rest@ =~= s@.skip(start as int));
        let p = find(rest, c);
        if p < rest.len() {
            let piece = &rest[0..p];
            assert(piece@ =~= rest@.take(p as int));
            pieces.push(piece);
            proof {
                assert(rest@.skip(p + 1) =~= s@.skip(start + p + 1));
                assert((done + (seq![rest@.take(p as int)] + split(rest@.skip(p + 1), c))) =~= (
                done.push(rest@.take(p as int)) + split(rest@.skip(p + 1), c)));
                done = done.push(piece@);
            }
            start = start + p + 1;
        } else {
            pieces.push(rest);
            proof {
                assert(done + seq![rest@] =~= done.push(rest@));
                done = done.push(rest@);
            }
            break ;
        }
    }
    pieces
}

/// Whether `pat` stands in `s` at index `i`.
pub open spec fn occurs_at(s: Seq<char>, pat: Seq<char>, i: int) -> bool {
    &&& 0 <= i
    &&& i + pat.len() <= s.len()
    &&& s.subrange(i, i + pat.len()) == pat
}

/// Whether `pat` stands somewhere in `s`.
pub open spec fn has_sub(s: Seq<char>, pat: Seq<char>) -> bool {
    exists|i: int| occurs_at(s, pat, i)
}

fn matches_at(s: &[char], pat: &[char], i: usize) -> (b: bool)
    requires
        i + pat@.len() <= s@.len(),
    ensures
        b == occurs_at(s@, pat@, i as int),
{
    let n = s.len();
    let mut k: usize = 0;
    while k < pat.len()
        invariant
            k <= pat.len(),
            n == s@.len(),
            i + pat@.len() <= s@.len(),
            forall|j: int| 0 <= j < k ==> s@[i + j] == pat@[j],
        decreases pat.len() - k,
    {
        if s[i + k] != pat[k] {
            assert(s@.subrange(i as int, i + pat@.len())[k as int] == s@[i + k]);
            return false;
        }
        k += 1;
    }
    assert(s@.subrange(i as int, i + pat@.len()) =~= pat@);
    true
}

/// Searches `s` for `pat`.
pub fn contains(s: &[char], pat: &[char]) -> (b: bool)
    ensures
        b == has_sub(s@, pat@),
{
    if pat.len() > s.len() {
        return false;
    }
    let last = s.len() - pat.len();
    let mut i: usize = 0;
    loop
        invariant
            i <= last,
            last == s@.len() - pat@.len(),
            forall|j: int| 0 <= j < i ==> !occurs_at(s@, pat@, j),
        decreases last - i,
    {
        if matches_at(s, pat, i) {
            return true;
        }
        if i == last {
            return false;
        }
        i += 1;
    }
}

/// Whether `c` is one of the ten decimal digits.
pub open spec fn is_digit(c: char) -> bool {
    '0' <= c <= '9'
}

/// The number that the digit `c` stands for.
pub open spec fn digit_value(c: char) -> int {
    c as u32 - 0x30
}

/// Whether `s` holds digits only.
pub open spec fn all_digits(s: Seq<char>) -> bool {
    forall|i: int| 0 <= i < s.len() ==> is_digit(#[trigger] s[i])
}

/// The number that a run of digits writes out in base ten.
pub open spec fn digits_value(s: Seq<char>) -> nat
    decreases s.len(),
{
    if s.len() == 0 {
        0
    } else {
        (10 * digits_value(s.drop_last()) + digit_value(s.last())) as nat
    }
}

/// The integer that `s` writes out: an optional sign, then at least one digit.
pub open spec fn parse_int(s: Seq<char>) -> Option<int> {
    if s.len() > 0 && (s[0] == '-' || s[0] == '+') {
        let digits = s.drop_first();
        if digits.len() > 0 && all_digits(digits) {
            Some(if s[0] == '-' { -(digits_value(digits) as int) } else { digits_value(digits) as int })
        } else {
            None
        }
    } else if s.len() > 0 && all_digits(s) {
        Some(digits_value(s) as int)
    } else {
        None
    }
}

/// The `i32` that `s` writes out, if it writes one.
pub open spec fn parse_i32(s: Seq<char>) -> Option<i32> {
    match parse_int(s) {
        Some(v) => if i32::MIN <= v <= i32::MAX { Some(v as i32) } else { None },
        None => None,
    }
}

/// The `usize` that `s` writes out, if it writes one; a minus sign is not taken.
pub open spec fn parse_usize(s: Seq<char>) -> Option<usize> {
    if s.len() > 0 && s[0] == '-' {
        None
    } else {
        match parse_int(s) {
            Some(v) => if v <= usize::MAX { Some(v as usize) } else { None },
            None => None,
        }
    }
}

/// A longer run of digits writes no smaller number than its beginning.
pub proof fn lemma_digits_value_prefix(s: Seq<char>, k: int)
    requires
        0 <= k <= s.len(),
        all_digits(s),
    ensures
        digits_value(s.take(k)) <= digits_value(s),
    decreases s.len() - k,
{
    if k < s.len() {
        assert(s.take(k + 1).drop_last() =~= s.take(k));
        assert(is_digit(s[k]));
        lemma_digits_value_prefix(s, k + 1);
    } else {
        assert(s.take(k) =~= s);
    }
}

/// Reads a run of digits whose value is at most `limit`.
pub fn read_digits(s: &[char], limit: u64) -> (r: Option<u64>)
    ensures
        r == (if s@.len() > 0 && all_digits(s@) && digits_value(s@) <= limit {
            Some(digits_value(s@) as u64)
        } else {
            None
        }),
{
    if s.len() == 0 {
        return None;
    }
    let mut acc: u128 = 0;
    let mut i: usize = 0;
    while i < s.len()
        invariant
            i <= s.len(),
            all_digits(s@.take(i as int)),
            acc == digits_value(s@.take(i as int)),
            acc <= limit,
        decreases s.len() - i,
    {
        let c = s[i];
        if !('0' <= c && c <= '9') {
            assert(!is_digit(s@[i as int]));
            return None;
        }
        proof {
            assert(s@.take(i + 1).drop_last() =~= s@.take(i as int));
            assert forall|j: int| 0 <= j < i + 1 implies is_digit(#[trigger] s@.take(i + 1)[j]) by {
                if j < i {
                    assert(s@.take(i as int)[j] == s@.take(i + 1)[j]);
                }
            }
        }
        let next: u128 = 10 * acc + ((c as u32 - 0x30) as u128);
        if next > limit as u128 {
            proof {
                if all_digits(s@) {
                    lemma_digits_value_prefix(s@, i + 1);
                }
            }
            return None;
        }
        acc = next;
        i += 1;
    }
    assert(s@.take(s@.len() as int) =~= s@);
    Some(acc as u64)
}

/// Reads an `i32` written in base ten.
pub fn read_i32(s: &[char]) -> (r: Option<i32>)
    ensures
        r == parse_i32(s@),
{
    if s.len() == 0 {
        return None;
    }
    if s[0] == '-' || s[0] == '+' {
        let digits = &s[1..s.len()];
        assert(digits@ =~= s@.drop_first());
        if s[0] == '-' {
            match read_digits(digits, 0x8000_0000) {
                Some(v) => Some((-(v as i64)) as i32),
                None => None,
            }
        } else {
            match read_digits(digits, 0x7fff_ffff) {
                Some(v) => Some(v as i32),
                None => None,
            }
        }
    } else {
        match read_digits(s, 0x7fff_ffff) {
            Some(v) => Some(v as i32),
            None => None,
        }
    }
}

/// Reads a `usize` written in base ten.
pub fn read_usize(s: &[char]) -> (r: Option<usize>)
    ensures
        r == parse_usize(s@),
{
    if s.len() == 0 {
        return None;
    }
    if s[0] == '-' {
        return None;
    }
    let digits = if s[0] == '+' {
        let d = &s[1..s.len()];
        assert(d@ =~= s@.drop_first());
        d
    } else {
        s
    };
    match read_digits(digits, usize::MAX as u64) {
        Some(v) => Some(v as usize),
        None => None,
    }
}

/// The character that writes the digit `d`.
pub open spec fn digit_char(d: nat) -> char {
    (0x30 + d) as u8 as char
}

/// `n` written in base ten, without leading zeros.
pub open spec fn decimal_digits(n: nat) -> Seq<char>
    decreases n,
{
    if n < 10 {
        seq![digit_char(n)]
    } else {
        decimal_digits(n / 10).push(digit_char(n % 10))
    }
}

/// `n` written in base ten, with a minus sign where it is negative.
pub open spec fn decimal(n: int) -> Seq<char> {
    if n < 0 {
        seq!['-'] + decimal_digits((-n) as nat)
    } else {
        decimal_digits(n as nat)
    }
}

fn push_digits(out: &mut Vec<char>, n: u32)
    ensures
        final(out)@ == old(out)@ + decimal_digits(n as nat),
    decreases n,
{
    if n >= 10 {
        push_digits(out, n / 10);
    }
    let d: u8 = (n % 10) as u8;
    out.push((0x30 + d) as char);
    assert(final(out)@ =~= old(out)@ + decimal_digits(n as nat));
}

/// Appends `n`, written in base ten, to `out`.
pub fn push_decimal(out: &mut Vec<char>, n: i32)
    ensures
        final(out)@ == old(out)@ + decimal(n as int),
{
    if n < 0 {
        out.push('-');
        let m: u32 = (-(n as i64)) as u32;
        push_digits(out, m);
        assert(final(out)@ =~= old(out)@ + decimal(n as int));
    } else {
        push_digits(out, n as u32);
    }
}

/// `c` with an upper-case ASCII letter turned into its lower-case form.
pub open spec fn lower(c: char) -> char {
    if 'A' <= c <= 'Z' {
        ((c as u8) + 32) as char
    } else {
        c
    }
}

/// Whether `a` and `b` are the same text but for the case of ASCII letters.
pub open spec fn eq_ignore_case(a: Seq<char>, b: Seq<char>) -> bool {
    &&& a.len() == b.len()
    &&& forall|i: int| 0 <= i < a.len() ==> lower(#[trigger] a[i]) == lower(b[i])
}

fn to_lower(c: char) -> (r: char)
    ensures
        r == lower(c),
{
    if 'A' <= c && c <= 'Z' {
        ((c as u8) + 32) as char
    } else {
        c
    }
}

/// Compares two texts without regard to the case of ASCII letters.
pub fn eq_ignore_ascii_case(a: &str, b: &str) -> (r: bool)
    ensures
        r == eq_ignore_case(a@, b@),
{
    let x = chars_of(a);
    let y = chars_of(b);
    if x.len() != y.len() {
        return false;
    }
    let mut i: usize = 0;
    while i < x.len()
        invariant
            i <= x.len(),
            x.len() == y.len(),
            x@ == a@,
            y@ == b@,
            forall|j: int| 0 <= j < i ==> lower(#[trigger] a@[j]) == lower(b@[j]),
        decreases x.len() - i,
    {
        if to_lower(x[i]) != to_lower(y[i]) {
            assert(lower(a@[i as int]) != lower(b@[i as int]));
            return false;
        }
        i += 1;
    }
    true
}

} // verus!
