//! Text as sequences of characters: whitespace, trimming, splitting into
//! lines and fields, and decimal numbers in both directions.
//!
//! Every executable function here works on `Vec<char>` or `String` and is
//! specified by a spec function of the same meaning on `Seq<char>`.

use vstd::prelude::*;

verus! {

/// `String::push` appends exactly the one character it is given.
pub assume_specification[ String::push ](s: &mut String, c: char)
    ensures
        final(s)@ == old(s)@.push(c),
;

/// The lowercase form of a text, as Unicode defines it.
pub uninterp spec fn lowercase(s: Seq<char>) -> Seq<char>;

/// `str::to_lowercase`: the result is the Unicode lowercase form of the
/// argument, a function of the argument alone.
#[verifier::external_body]
pub(crate) fn to_lowercase(s: &str) -> (r: String)
    ensures
        r@ == lowercase(s@),
{
    s.to_lowercase()
}

/// The characters of `s`, in order.
pub fn chars_of(s: &str) -> (r: Vec<char>)
    ensures
        r@ == s@,
{
    let mut out: Vec<char> = Vec::new();
    for c in it: s.chars()
        invariant
            it.seq() == s@,
            out@ == it.seq().take(it.index()),
    {
        out.push(c);
    }
    assert(out@ == s@);
    out
}

/// The string whose characters are `v`.
pub fn string_of(v: &Vec<char>) -> (r: String)
    ensures
        r@ == v@,
{
    let mut out = String::new();
    let mut i: usize = 0;
    while i < v.len()
        invariant
            i <= v.len(),
            out@ == v@.take(i as int),
        decreases v.len() - i,
    {
        out.push(v[i]);
        i += 1;
    }
    assert(v@.take(v.len() as int) == v@);
    out
}

/// The views of a vector of character vectors.
pub open spec fn views(v: Seq<Vec<char>>) -> Seq<Seq<char>> {
    v.map_values(|l: Vec<char>| l@)
}

/// The part of `v` from `from` up to, not including, `to`.
pub fn subvec(v: &Vec<char>, from: usize, to: usize) -> (r: Vec<char>)
    requires
        from <= to <= v.len(),
    ensures
        r@ == v@.subrange(from as int, to as int),
{
    let mut out: Vec<char> = Vec::new();
    let mut i: usize = from;
    while i < to
        invariant
            from <= i <= to <= v.len(),
            out@ == v@.subrange(from as int, i as int),
        decreases to - i,
    {
        out.push(v[i]);
        i += 1;
    }
    out
}

/// Whether two texts hold the same characters.
pub fn chars_eq(a: &Vec<char>, b: &Vec<char>) -> (r: bool)
    ensures
        r == (a@ == b@),
{
    if a.len() != b.len() {
        return false;
    }
    let mut i: usize = 0;
    while i < a.len()
        invariant
            i <= a.len(),
            a.len() == b.len(),
            a@.take(i as int) == b@.take(i as int),
        decreases a.len() - i,
    {
        if a[i] != b[i] {
            return false;
        }
        assert(a@.take(i + 1) == a@.take(i as int).push(a@[i as int]));
        assert(b@.take(i + 1) == b@.take(i as int).push(b@[i as int]));
        i += 1;
    }
    assert(a@.take(a.len() as int) == a@);
    assert(b@.take(b.len() as int) == b@);
    true
}

/// Whether the text `a` reads exactly as `s`.
pub fn eq_str(a: &Vec<char>, s: &str) -> (r: bool)
    ensures
        r == (a@ == s@),
{
    let b = chars_of(s);
    chars_eq(a, &b)
}

/// The characters that count as whitespace: those with the Unicode property
/// White_Space.
pub open spec fn is_whitespace(c: char) -> bool {
    let n = c as u32;
    ||| 0x09 <= n <= 0x0D
    ||| n == 0x20
    ||| n == 0x85
    ||| n == 0xA0
    ||| n == 0x1680
    ||| 0x2000 <= n <= 0x200A
    ||| n == 0x2028
    ||| n == 0x2029
    ||| n == 0x202F
    ||| n == 0x205F
    ||| n == 0x3000
}

/// Whether `c` is whitespace.
pub fn is_space(c: char) -> (r: bool)
    ensures
        r == is_whitespace(c),
{
    let n: u32 = c as u32;
    (0x09 <= n && n <= 0x0D) || n == 0x20 || n == 0x85 || n == 0xA0 || n == 0x1680 || (0x2000 <= n
        && n <= 0x200A) || n == 0x2028 || n == 0x2029 || n == 0x202F || n == 0x205F || n == 0x3000
}

/// `s` without its leading whitespace.
pub open spec fn trim_start(s: Seq<char>) -> Seq<char>
    decreases s.len(),
{
    if s.len() > 0 && is_whitespace(s[0]) {
        trim_start(s.skip(1))
    } else {
        s
    }
}

/// `s` without its trailing whitespace.
pub open spec fn trim_end(s: Seq<char>) -> Seq<char>
    decreases s.len(),
{
    if s.len() > 0 && is_whitespace(s.last()) {
        trim_end(s.drop_last())
    } else {
        s
    }
}

/// `s` without leading and trailing whitespace.
pub open spec fn trim(s: Seq<char>) -> Seq<char> {
    trim_end(trim_start(s))
}

/// Leading whitespace up to the first other character is all that
/// `trim_start` removes.
pub proof fn lemma_trim_start(s: Seq<char>, a: int)
    requires
        0 <= a <= s.len(),
        forall|j: int| 0 <= j < a ==> is_whitespace(#[trigger] s[j]),
        a == s.len() || !is_whitespace(s[a]),
    ensures
        trim_start(s) == s.skip(a),
    decreases a,
{
    if a == 0 {
        assert(s.skip(0) == s);
    } else {
        let t = s.skip(1);
        assert forall|j: int| 0 <= j < a - 1 implies is_whitespace(#[trigger] t[j]) by {
            assert(t[j] == s[j + 1]);
        }
        lemma_trim_start(t, a - 1);
        assert(t.skip(a - 1) == s.skip(a));
    }
}

/// Trailing whitespace back to the last other character is all that
/// `trim_end` removes.
pub proof fn lemma_trim_end(s: Seq<char>, b: int)
    requires
        0 <= b <= s.len(),
        forall|j: int| b <= j < s.len() ==> is_whitespace(#[trigger] s[j]),
        b == 0 || !is_whitespace(s[b - 1]),
    ensures
        trim_end(s) == s.take(b),
    decreases s.len() - b,
{
    if b == s.len() {
        assert(s.take(b) == s);
    } else {
        let t = s.drop_last();
        lemma_trim_end(t, b);
        assert(t.take(b) == s.take(b));
    }
}

/// `s` without leading and trailing whitespace.
pub fn trimmed(s: &Vec<char>) -> (r: Vec<char>)
    ensures
        r@ == trim(s@),
{
    let n: usize = s.len();
    let mut a: usize = 0;
    while a < n && is_space(s[a])
        invariant
            a <= n == s.len(),
            forall|j: int| 0 <= j < a ==> is_whitespace(#[trigger] s@[j]),
        decreases n - a,
    {
        a += 1;
    }
    let mut b: usize = n;
    while b > a && is_space(s[b - 1])
        invariant
            a <= b <= n == s.len(),
            forall|j: int| b <= j < n ==> is_whitespace(#[trigger] s@[j]),
        decreases b,
    {
        b -= 1;
    }
    proof {
        lemma_trim_start(s@, a as int);
        let t = s@.skip(a as int);
        assert forall|j: int| b - a <= j < t.len() implies is_whitespace(#[trigger] t[j]) by {
            assert(t[j] == s@[j + a]);
        }
        lemma_trim_end(t, b - a);
        assert(t.take(b - a) == s@.subrange(a as int, b as int));
    }
    subvec(s, a, b)
}

/// The position of the first `c` in `s`, or the length of `s` if there is none.
pub open spec fn index_of(s: Seq<char>, c: char) -> int
    decreases s.len(),
{
    if s.len() == 0 || s[0] == c {
        0
    } else {
        1 + index_of(s.skip(1), c)
    }
}

/// `index_of` is the one position before which no `c` stands and at which
/// one does, if any does.
pub proof fn lemma_index_of(s: Seq<char>, c: char, i: int)
    requires
        0 <= i <= s.len(),
        forall|j: int| 0 <= j < i ==> #[trigger] s[j] != c,
        i == s.len() || s[i] == c,
    ensures
        index_of(s, c) == i,
    decreases i,
{
    if i > 0 {
        let t = s.skip(1);
        assert forall|j: int| 0 <= j < i - 1 implies #[trigger] t[j] != c by {
            assert(t[j] == s[j + 1]);
        }
        lemma_index_of(t, c, i - 1);
    }
}

/// The position of the first `c` in `s` at or after `from`, or the length.
pub fn find_char(s: &Vec<char>, from: usize, c: char) -> (i: usize)
    requires
        from <= s.len(),
    ensures
        from <= i <= s.len(),
        i - from == index_of(s@.skip(from as int), c),
        forall|j: int| from <= j < i ==> #[trigger] s@[j] != c,
        i < s.len() ==> s@[i as int] == c,
{
    let mut i: usize = from;
    while i < s.len() && s[i] != c
        invariant
            from <= i <= s.len(),
            forall|j: int| from <= j < i ==> #[trigger] s@[j] != c,
        decreases s.len() - i,
    {
        i += 1;
    }
    proof {
        let t = s@.skip(from as int);
        assert forall|j: int| 0 <= j < i - from implies #[trigger] t[j] != c by {
            assert(t[j] == s@[j + from]);
        }
        lemma_index_of(t, c, i - from);
    }
    i
}

/// Whether `c` occurs in `s`.
pub fn contains_char(s: &Vec<char>, c: char) -> (r: bool)
    ensures
        r == s@.contains(c),
{
    let i: usize = find_char(s, 0, c);
    proof {
        if i < s.len() {
            assert(s@[i as int] == c);
        } else {
            assert forall|j: int| 0 <= j < s@.len() implies s@[j] != c by {}
        }
    }
    i < s.len()
}

/// The text before the first `c` and the text after it, if `c` occurs.
pub open spec fn spec_split_once(s: Seq<char>, c: char) -> Option<(Seq<char>, Seq<char>)> {
    let i = index_of(s, c);
    if i >= s.len() {
        None
    } else {
        Some((s.take(i), s.skip(i + 1)))
    }
}

/// Splits `s` at its first `c`.
pub fn split_once(s: &Vec<char>, c: char) -> (r: Option<(Vec<char>, Vec<char>)>)
    ensures
        match r {
            Some((a, b)) => spec_split_once(s@, c) == Some((a@, b@)),
            None => spec_split_once(s@, c) is None,
        },
{
    let i: usize = find_char(s, 0, c);
    assert(s@.skip(0) == s@);
    if i >= s.len() {
        None
    } else {
        let a = subvec(s, 0, i);
        let b = subvec(s, i + 1, s.len());
        assert(s@.subrange(0, i as int) == s@.take(i as int));
        assert(s@.subrange(i + 1, s.len() as int) == s@.skip(i + 1));
        Some((a, b))
    }
}

/// The pieces of `s` between the occurrences of `c`; at least one piece.
pub open spec fn spec_split(s: Seq<char>, c: char) -> Seq<Seq<char>>
    decreases s.len(),
{
    let i = index_of(s, c);
    if 0 <= i < s.len() {
        seq![s.take(i)] + spec_split(s.skip(i + 1), c)
    } else {
        seq![s]
    }
}

/// Splits `s` at every `c`.
pub fn split(s: &Vec<char>, c: char) -> (r: Vec<Vec<char>>)
    ensures
        views(r@) == spec_split(s@, c),
{
    let n: usize = s.len();
    let mut out: Vec<Vec<char>> = Vec::new();
    let mut start: usize = 0;
    assert(s@.skip(0) == s@);
    assert(views(out@) == Seq::<Seq<char>>::empty());
    loop
        invariant
            start <= n == s.len(),
            spec_split(s@, c) == views(out@) + spec_split(s@.skip(start as int), c),
        decreases n - start,
    {
        let i: usize = find_char(s, start, c);
        let ghost rest = s@.skip(start as int);
        let ghost before = views(out@);
        if i >= n {
            out.push(subvec(s, start, n));
            proof {
                assert(s@.subrange(start as int, n as int) == rest);
                assert(views(out@) == before + seq![rest]);
            }
            return out;
        }
        out.push(subvec(s, start, i));
        proof {
            assert(rest.take(i - start) == s@.subrange(start as int, i as int));
            assert(rest.skip(i - start + 1) == s@.skip(i + 1));
            assert(views(out@) == before + seq![rest.take(i - start)]);
            assert(spec_split(rest, c) == seq![rest.take(i - start)] + spec_split(
                s@.skip(i + 1),
                c,
            ));
        }
        start = i + 1;
    }
}

/// `l` without one trailing carriage return.
pub open spec fn strip_cr(l: Seq<char>) -> Seq<char> {
    if l.len() > 0 && l.last() == '\r' {
        l.drop_last()
    } else {
        l
    }
}

/// The lines of a text. A line ends at a line feed, and a carriage return
/// right before that line feed is not part of the line. The last line needs
/// no line feed; a text that ends in one has no empty line after it.
pub open spec fn lines(s: Seq<char>) -> Seq<Seq<char>>
    decreases s.len(),
{
    if s.len() == 0 {
        Seq::empty()
    } else {
        let i = index_of(s, '\n');
        if 0 <= i < s.len() {
            seq![strip_cr(s.take(i))] + lines(s.skip(i + 1))
        } else {
            seq![s]
        }
    }
}

/// Splits `s` into its lines.
pub fn split_lines(s: &Vec<char>) -> (r: Vec<Vec<char>>)
    ensures
        views(r@) == lines(s@),
{
    let n: usize = s.len();
    let mut out: Vec<Vec<char>> = Vec::new();
    let mut start: usize = 0;
    assert(s@.skip(0) == s@);
    assert(views(out@) == Seq::<Seq<char>>::empty());
    while start < n
        invariant
            start <= n == s.len(),
            lines(s@) == views(out@) + lines(s@.skip(start as int)),
        decreases n - start,
    {
        let i: usize = find_char(s, start, '\n');
        let ghost rest = s@.skip(start as int);
        let ghost before = views(out@);
        if i >= n {
            out.push(subvec(s, start, n));
            proof {
                assert(s@.subrange(start as int, n as int) == rest);
                assert(views(out@) == before + seq![rest]);
                assert(lines(s@.skip(n as int)) == Seq::<Seq<char>>::empty());
            }
            start = n;
        } else {
            let mut end: usize = i;
            if end > start && s[end - 1] == '\r' {
                end -= 1;
            }
            out.push(subvec(s, start, end));
            proof {
                let line = rest.take(i - start);
                assert(line == s@.subrange(start as int, i as int));
                assert(strip_cr(line) == s@.subrange(start as int, end as int));
                assert(rest.skip(i - start + 1) == s@.skip(i + 1));
                assert(views(out@) == before + seq![strip_cr(line)]);
                assert(lines(rest) == seq![strip_cr(line)] + lines(s@.skip(i + 1)));
            }
            start = i + 1;
        }
    }
    out
}

/// Whether `s` begins with `p`.
pub open spec fn starts_with(s: Seq<char>, p: Seq<char>) -> bool {
    p.len() <= s.len() && s.take(p.len() as int) == p
}

/// Whether `s` begins with `p`.
pub fn has_prefix(s: &Vec<char>, p: &str) -> (r: bool)
    ensures
        r == starts_with(s@, p@),
{
    let q = chars_of(p);
    if q.len() > s.len() {
        return false;
    }
    let head = subvec(s, 0, q.len());
    assert(s@.subrange(0, q.len() as int) == s@.take(q.len() as int));
    chars_eq(&head, &q)
}

/// `s` with every `from` replaced by `to`.
pub open spec fn replace_char(s: Seq<char>, from: char, to: char) -> Seq<char> {
    s.map_values(|c: char| if c == from { to } else { c })
}

/// `s` with every `from` replaced by `to`.
pub fn replaced(s: &str, from: char, to: char) -> (r: String)
    ensures
        r@ == replace_char(s@, from, to),
{
    let v = chars_of(s);
    let mut out = String::new();
    let mut i: usize = 0;
    while i < v.len()
        invariant
            i <= v.len(),
            out@ == replace_char(v@, from, to).take(i as int),
        decreases v.len() - i,
    {
        let c: char = v[i];
        out.push(if c == from { to } else { c });
        assert(replace_char(v@, from, to).take(i + 1) == replace_char(v@, from, to).take(
            i as int,
        ).push(replace_char(v@, from, to)[i as int]));
        i += 1;
    }
    assert(replace_char(v@, from, to).take(v.len() as int) == replace_char(v@, from, to));
    out
}

/// The value of a decimal digit.
pub open spec fn digit_value(c: char) -> Option<nat> {
    if c == '0' {
        Some(0)
    } else if c == '1' {
        Some(1)
    } else if c == '2' {
        Some(2)
    } else if c == '3' {
        Some(3)
    } else if c == '4' {
        Some(4)
    } else if c == '5' {
        Some(5)
    } else if c == '6' {
        Some(6)
    } else if c == '7' {
        Some(7)
    } else if c == '8' {
        Some(8)
    } else if c == '9' {
        Some(9)
    } else {
        None
    }
}

/// The decimal digit for a value below ten.
pub open spec fn digit_char(d: nat) -> char {
    if d == 0 {
        '0'
    } else if d == 1 {
        '1'
    } else if d == 2 {
        '2'
    } else if d == 3 {
        '3'
    } else if d == 4 {
        '4'
    } else if d == 5 {
        '5'
    } else if d == 6 {
        '6'
    } else if d == 7 {
        '7'
    } else if d == 8 {
        '8'
    } else {
        '9'
    }
}

/// The number that a run of decimal digits denotes; `None` if a character
/// of it is no digit. The empty run denotes zero.
pub open spec fn digits_value(s: Seq<char>) -> Option<nat>
    decreases s.len(),
{
    if s.len() == 0 {
        Some(0)
    } else {
        match (digits_value(s.drop_last()), digit_value(s.last())) {
            (Some(high), Some(low)) => Some(10 * high + low),
            _ => None,
        }
    }
}

/// What an unsigned decimal number denotes: an optional `+`, then at least
/// one digit.
pub open spec fn parse_nat(s: Seq<char>) -> Option<nat> {
    let body = if s.len() > 0 && s[0] == '+' {
        s.skip(1)
    } else {
        s
    };
    if body.len() == 0 {
        None
    } else {
        digits_value(body)
    }
}

/// What a signed decimal number denotes: an optional `+` or `-`, then at
/// least one digit.
pub open spec fn parse_int(s: Seq<char>) -> Option<int> {
    if s.len() > 0 && s[0] == '-' {
        if s.len() == 1 {
            None
        } else {
            match digits_value(s.skip(1)) {
                Some(v) => Some(-(v as int)),
                None => None,
            }
        }
    } else {
        match parse_nat(s) {
            Some(v) => Some(v as int),
            None => None,
        }
    }
}

/// The `u64` that `s` denotes, if it denotes one.
pub open spec fn spec_parse_u64(s: Seq<char>) -> Option<u64> {
    match parse_nat(s) {
        Some(v) => if v <= u64::MAX {
            Some(v as u64)
        } else {
            None
        },
        None => None,
    }
}

/// The `u8` that `s` denotes, if it denotes one.
pub open spec fn spec_parse_u8(s: Seq<char>) -> Option<u8> {
    match parse_nat(s) {
        Some(v) => if v <= u8::MAX {
            Some(v as u8)
        } else {
            None
        },
        None => None,
    }
}

/// The `usize` that `s` denotes, if it denotes one.
pub open spec fn spec_parse_usize(s: Seq<char>) -> Option<usize> {
    match parse_nat(s) {
        Some(v) => if v <= usize::MAX {
            Some(v as usize)
        } else {
            None
        },
        None => None,
    }
}

/// The `i64` that `s` denotes, if it denotes one.
pub open spec fn spec_parse_i64(s: Seq<char>) -> Option<i64> {
    match parse_int(s) {
        Some(v) => if i64::MIN <= v <= i64::MAX {
            Some(v as i64)
        } else {
            None
        },
        None => None,
    }
}

/// The truth value that `s` denotes: `true` or `false`, written out.
pub open spec fn spec_parse_bool(s: Seq<char>) -> Option<bool> {
    if s == seq!['t', 'r', 'u', 'e'] {
        Some(true)
    } else if s == seq!['f', 'a', 'l', 's', 'e'] {
        Some(false)
    } else {
        None
    }
}

/// A run of digits denotes at least what any of its beginnings denotes.
pub proof fn lemma_digits_prefix(s: Seq<char>, k: int)
    requires
        0 <= k <= s.len(),
        digits_value(s) is Some,
    ensures
        digits_value(s.take(k)) is Some,
        digits_value(s.take(k))->0 <= digits_value(s)->0,
    decreases s.len() - k,
{
    if k == s.len() {
        assert(s.take(k) == s);
    } else {
        let t = s.drop_last();
        lemma_digits_prefix(t, k);
        assert(t.take(k) == s.take(k));
    }
}

/// A run with a character that is no digit denotes nothing.
pub proof fn lemma_digits_none(s: Seq<char>, k: int)
    requires
        0 <= k < s.len(),
        digit_value(s[k]) is None,
    ensures
        digits_value(s) is None,
    decreases s.len(),
{
    if k < s.len() - 1 {
        lemma_digits_none(s.drop_last(), k);
    }
}

fn digit_of(c: char) -> (r: Option<u64>)
    ensures
        match r {
            Some(d) => digit_value(c) == Some(d as nat) && d <= 9,
            None => digit_value(c) is None,
        },
{
    if c == '0' {
        Some(0)
    } else if c == '1' {
        Some(1)
    } else if c == '2' {
        Some(2)
    } else if c == '3' {
        Some(3)
    } else if c == '4' {
        Some(4)
    } else if c == '5' {
        Some(5)
    } else if c == '6' {
        Some(6)
    } else if c == '7' {
        Some(7)
    } else if c == '8' {
        Some(8)
    } else if c == '9' {
        Some(9)
    } else {
        None
    }
}

/// The number that the digits of `s` from `from` on denote, if all of them
/// are digits and the number fits.
fn parse_digits(s: &Vec<char>, from: usize) -> (r: Option<u64>)
    requires
        from <= s.len(),
    ensures
        match digits_value(s@.skip(from as int)) {
            Some(v) => if v <= u64::MAX {
                r == Some(v as u64)
            } else {
                r is None
            },
            None => r is None,
        },
{
    let n: usize = s.len();
    let ghost body = s@.skip(from as int);
    let mut acc: u64 = 0;
    let mut i: usize = from;
    assert(body.take(0) == Seq::<char>::empty());
    while i < n
        invariant
            from <= i <= n == s.len(),
            body == s@.skip(from as int),
            digits_value(body.take(i - from)) == Some(acc as nat),
        decreases n - i,
    {
        let ghost head = body.take(i - from + 1);
        assert(head.drop_last() == body.take(i - from));
        assert(head.last() == s@[i as int]);
        match digit_of(s[i]) {
            None => {
                proof {
                    lemma_digits_none(body, i - from);
                }
                return None;
            },
            Some(d) => {
                if acc > (u64::MAX - d) / 10 {
                    proof {
                        assert(digits_value(head) == Some((10 * acc + d) as nat));
                        if digits_value(body) is Some {
                            lemma_digits_prefix(body, i - from + 1);
                        }
                    }
                    return None;
                }
                acc = acc * 10 + d;
            },
        }
        i += 1;
    }
    assert(body.take(n - from) == body);
    Some(acc)
}

/// Reads an unsigned decimal number.
pub fn parse_u64(s: &Vec<char>) -> (r: Option<u64>)
    ensures
        r == spec_parse_u64(s@),
{
    let mut from: usize = 0;
    if s.len() > 0 && s[0] == '+' {
        from = 1;
    }
    assert(s@.skip(0) == s@);
    if from == s.len() {
        return None;
    }
    parse_digits(s, from)
}

/// Reads an unsigned decimal number that fits in eight bits.
pub fn parse_u8(s: &Vec<char>) -> (r: Option<u8>)
    ensures
        r == spec_parse_u8(s@),
{
    match parse_u64(s) {
        Some(v) => if v <= 255 {
            Some(v as u8)
        } else {
            None
        },
        None => None,
    }
}

/// Reads an unsigned decimal number that fits in a `usize`.
pub fn parse_usize(s: &Vec<char>) -> (r: Option<usize>)
    ensures
        r == spec_parse_usize(s@),
{
    match parse_u64(s) {
        Some(v) => if v <= usize::MAX as u64 {
            Some(v as usize)
        } else {
            None
        },
        None => None,
    }
}

/// Reads a signed decimal number.
pub fn parse_i64(s: &Vec<char>) -> (r: Option<i64>)
    ensures
        r == spec_parse_i64(s@),
{
    if s.len() > 0 && s[0] == '-' {
        if s.len() == 1 {
            return None;
        }
        match parse_digits(s, 1) {
            Some(v) => if v <= 0x7fff_ffff_ffff_ffff {
                Some(-(v as i64))
            } else if v == 0x8000_0000_0000_0000 {
                Some(i64::MIN)
            } else {
                None
            },
            None => None,
        }
    } else {
        match parse_u64(s) {
            Some(v) => if v <= 0x7fff_ffff_ffff_ffff {
                Some(v as i64)
            } else {
                None
            },
            None => None,
        }
    }
}

/// Reads `true` or `false`.
pub fn parse_bool(s: &Vec<char>) -> (r: Option<bool>)
    ensures
        r == spec_parse_bool(s@),
{
    proof {
        reveal_strlit("true");
        reveal_strlit("false");
        assert("true"@ == seq!['t', 'r', 'u', 'e']);
        assert("false"@ == seq!['f', 'a', 'l', 's', 'e']);
    }
    if eq_str(s, "true") {
        Some(true)
    } else if eq_str(s, "false") {
        Some(false)
    } else {
        None
    }
}

/// The decimal digits of `n`, without leading zeros.
pub open spec fn decimal(n: nat) -> Seq<char>
    decreases n,
{
    if n < 10 {
        seq![digit_char(n)]
    } else {
        decimal(n / 10).push(digit_char(n % 10))
    }
}

/// The decimal form of an integer: a `-` before the digits of a negative one.
pub open spec fn signed_decimal(i: int) -> Seq<char> {
    if i < 0 {
        seq!['-'] + decimal((-i) as nat)
    } else {
        decimal(i as nat)
    }
}

fn digit_for(d: u64) -> (c: char)
    requires
        d < 10,
    ensures
        c == digit_char(d as nat),
{
    if d == 0 {
        '0'
    } else if d == 1 {
        '1'
    } else if d == 2 {
        '2'
    } else if d == 3 {
        '3'
    } else if d == 4 {
        '4'
    } else if d == 5 {
        '5'
    } else if d == 6 {
        '6'
    } else if d == 7 {
        '7'
    } else if d == 8 {
        '8'
    } else {
        '9'
    }
}

/// Appends the decimal form of `n` to `out`.
pub fn push_decimal(out: &mut String, n: u64)
    ensures
        final(out)@ == old(out)@ + decimal(n as nat),
    decreases n,
{
    if n >= 10 {
        push_decimal(out, n / 10);
    }
    out.push(digit_for(n % 10));
}

/// Appends the decimal form of `i` to `out`.
pub fn push_signed(out: &mut String, i: i64)
    ensures
        final(out)@ == old(out)@ + signed_decimal(i as int),
{
    if i < 0 {
        out.push('-');
        let magnitude: u64 = (-(i + 1)) as u64 + 1;
        push_decimal(out, magnitude);
    } else {
        push_decimal(out, i as u64);
    }
}

/// Appends `true` or `false` to `out`.
pub fn push_bool(out: &mut String, b: bool)
    ensures
        final(out)@ == old(out)@ + bool_text(b),
{
    if b {
        out.append("true");
    } else {
        out.append("false");
    }
}

/// A truth value written out.
pub open spec fn bool_text(b: bool) -> Seq<char> {
    if b {
        "true"@
    } else {
        "false"@
    }
}

/// The text made of the given lines, each with a line feed before it.
pub open spec fn unlines(ls: Seq<Seq<char>>) -> Seq<char>
    decreases ls.len(),
{
    if ls.len() == 0 {
        Seq::empty()
    } else {
        unlines(ls.drop_last()) + seq!['\n'] + ls.last()
    }
}

/// One more line adds a line feed and the line.
pub proof fn lemma_unlines_push(ls: Seq<Seq<char>>, l: Seq<char>)
    ensures
        unlines(ls.push(l)) == unlines(ls) + seq!['\n'] + l,
{
    assert(ls.push(l).drop_last() == ls);
}

/// The lines of two texts, one after the other.
pub proof fn lemma_unlines_add(a: Seq<Seq<char>>, b: Seq<Seq<char>>)
    ensures
        unlines(a + b) == unlines(a) + unlines(b),
    decreases b.len(),
{
    if b.len() == 0 {
        assert(a + b == a);
        assert(unlines(a) + unlines(b) == unlines(a));
    } else {
        lemma_unlines_add(a, b.drop_last());
        assert((a + b).drop_last() == a + b.drop_last());
        assert(unlines(a + b) == unlines(a) + unlines(b.drop_last()) + seq!['\n'] + b.last());
        assert(unlines(a) + unlines(b.drop_last()) + seq!['\n'] + b.last() == unlines(a) + (
        unlines(b.drop_last()) + seq!['\n'] + b.last()));
    }
}

/// A line that gives a key its value: the indentation, the key, a colon, a
/// space, the value.
pub open spec fn field_line(indent: Seq<char>, key: Seq<char>, value: Seq<char>) -> Seq<char> {
    indent + key + seq![':', ' '] + value
}

/// The key and the value of a line, both trimmed: what stands before its
/// first colon and what stands after it. A line without a colon has neither.
pub open spec fn spec_parse_field(line: Seq<char>) -> Option<(Seq<char>, Seq<char>)> {
    match spec_split_once(line, ':') {
        Some((k, v)) => Some((trim(k), trim(v))),
        None => None,
    }
}

/// Reads the key and the value of a line.
pub fn parse_field(line: &Vec<char>) -> (r: Option<(Vec<char>, Vec<char>)>)
    ensures
        match r {
            Some((k, v)) => spec_parse_field(line@) == Some((k@, v@)),
            None => spec_parse_field(line@) is None,
        },
{
    match split_once(line, ':') {
        Some((k, v)) => Some((trimmed(&k), trimmed(&v))),
        None => None,
    }
}

/// Starts a new line in `out` with the indentation, the key, a colon and a
/// space; the value is appended by the caller.
pub fn push_field(out: &mut String, indent: &str, key: &str)
    ensures
        final(out)@ == old(out)@ + seq!['\n'] + indent@ + key@ + seq![':', ' '],
{
    out.push('\n');
    out.append(indent);
    out.append(key);
    out.push(':');
    out.push(' ');
    assert(final(out)@ == old(out)@ + seq!['\n'] + indent@ + key@ + seq![':', ' ']);
}

/// Starts a new line in `out` that reads `line`.
pub fn push_line(out: &mut String, line: &str)
    ensures
        final(out)@ == old(out)@ + seq!['\n'] + line@,
{
    out.push('\n');
    out.append(line);
}

/// The position of the first two `c` in a row in `s`, or the length of `s`
/// if there are none.
pub open spec fn index_of_double(s: Seq<char>, c: char) -> int
    decreases s.len(),
{
    if s.len() < 2 {
        s.len() as int
    } else if s[0] == c && s[1] == c {
        0
    } else {
        1 + index_of_double(s.skip(1), c)
    }
}

/// `index_of_double` is the one position before which no two `c` in a row
/// start and at which two do, if any do.
pub proof fn lemma_index_of_double(s: Seq<char>, c: char, i: int)
    requires
        0 <= i <= s.len(),
        forall|j: int| 0 <= j < i && j + 1 < s.len() ==> !(#[trigger] s[j] == c && s[j + 1] == c),
        i == s.len() || (i + 1 < s.len() && s[i] == c && s[i + 1] == c),
    ensures
        index_of_double(s, c) == i,
    decreases i,
{
    if s.len() < 2 {
    } else if i > 0 {
        let t = s.skip(1);
        assert forall|j: int| 0 <= j < i - 1 && j + 1 < t.len() implies !(#[trigger] t[j] == c
            && t[j + 1] == c) by {
            assert(t[j] == s[j + 1]);
            assert(t[j + 1] == s[j + 2]);
        }
        assert(!(s[0] == c && s[1] == c));
        lemma_index_of_double(t, c, i - 1);
    }
}

/// The pieces of `s` between the places where two `c` stand in a row; at
/// least one piece.
pub open spec fn spec_split_double(s: Seq<char>, c: char) -> Seq<Seq<char>>
    decreases s.len(),
{
    let i = index_of_double(s, c);
    if 0 <= i && i + 1 < s.len() {
        seq![s.take(i)] + spec_split_double(s.skip(i + 2), c)
    } else {
        seq![s]
    }
}

/// The position of the first two `c` in a row in `s` at or after `from`,
/// or the length.
pub fn find_double(s: &Vec<char>, from: usize, c: char) -> (i: usize)
    requires
        from <= s.len(),
    ensures
        from <= i <= s.len(),
        i - from == index_of_double(s@.skip(from as int), c),
        i < s.len() ==> i + 1 < s.len(),
{
    let n: usize = s.len();
    let mut i: usize = from;
    while i < n && !(i + 1 < n && s[i] == c && s[i + 1] == c)
        invariant
            from <= i <= n == s.len(),
            forall|j: int| from <= j < i && j + 1 < n ==> !(#[trigger] s@[j] == c && s@[j + 1] == c),
        decreases n - i,
    {
        i += 1;
    }
    proof {
        let t = s@.skip(from as int);
        assert forall|j: int| 0 <= j < i - from && j + 1 < t.len() implies !(#[trigger] t[j] == c
            && t[j + 1] == c) by {
            assert(t[j] == s@[j + from]);
            assert(t[j + 1] == s@[j + from + 1]);
        }
        if i < n {
            assert(t[i - from] == s@[i as int]);
            assert(t[i - from + 1] == s@[i + 1]);
        }
        lemma_index_of_double(t, c, i - from);
    }
    i
}

/// Splits `s` wherever two `c` stand in a row.
pub fn split_double(s: &Vec<char>, c: char) -> (r: Vec<Vec<char>>)
    ensures
        views(r@) == spec_split_double(s@, c),
        r@.len() >= 1,
{
    let n: usize = s.len();
    let mut out: Vec<Vec<char>> = Vec::new();
    let mut start: usize = 0;
    assert(s@.skip(0) == s@);
    assert(views(out@) == Seq::<Seq<char>>::empty());
    loop
        invariant
            start <= n == s.len(),
            spec_split_double(s@, c) == views(out@) + spec_split_double(s@.skip(start as int), c),
        decreases n - start,
    {
        let i: usize = find_double(s, start, c);
        let ghost rest = s@.skip(start as int);
        let ghost before = views(out@);
        if i >= n {
            out.push(subvec(s, start, n));
            proof {
                assert(s@.subrange(start as int, n as int) == rest);
                assert(views(out@) == before + seq![rest]);
            }
            return out;
        }
        out.push(subvec(s, start, i));
        proof {
            assert(rest.take(i - start) == s@.subrange(start as int, i as int));
            assert(rest.skip(i - start + 2) == s@.skip(i + 2));
            assert(views(out@) == before + seq![rest.take(i - start)]);
            assert(spec_split_double(rest, c) == seq![rest.take(i - start)] + spec_split_double(
                s@.skip(i + 2),
                c,
            ));
        }
        start = i + 2;
    }
}

/// The position of the first whitespace in `s`, or the length of `s` if
/// there is none.
pub open spec fn index_of_space(s: Seq<char>) -> int
    decreases s.len(),
{
    if s.len() == 0 || is_whitespace(s[0]) {
        0
    } else {
        1 + index_of_space(s.skip(1))
    }
}

/// `index_of_space` is the one position before which no whitespace stands
/// and at which one does, if any does.
pub proof fn lemma_index_of_space(s: Seq<char>, i: int)
    requires
        0 <= i <= s.len(),
        forall|j: int| 0 <= j < i ==> !is_whitespace(#[trigger] s[j]),
        i == s.len() || is_whitespace(s[i]),
    ensures
        index_of_space(s) == i,
    decreases i,
{
    if i > 0 {
        let t = s.skip(1);
        assert forall|j: int| 0 <= j < i - 1 implies !is_whitespace(#[trigger] t[j]) by {
            assert(t[j] == s[j + 1]);
        }
        lemma_index_of_space(t, i - 1);
    }
}

/// The first word of a line: what stands between its leading whitespace
/// and the next whitespace.
pub open spec fn first_word(l: Seq<char>) -> Seq<char> {
    let t = trim_start(l);
    t.take(index_of_space(t))
}

/// What follows the first word of a line, trimmed.
pub open spec fn after_first_word(l: Seq<char>) -> Seq<char> {
    let t = trim_start(l);
    trim(t.skip(index_of_space(t)))
}

/// Splits a line into its first word and what follows it, trimmed.
pub fn split_first_word(l: &Vec<char>) -> (r: (Vec<char>, Vec<char>))
    ensures
        r.0@ == first_word(l@),
        r.1@ == after_first_word(l@),
{
    let n: usize = l.len();
    let mut a: usize = 0;
    while a < n && is_space(l[a])
        invariant
            a <= n == l.len(),
            forall|j: int| 0 <= j < a ==> is_whitespace(#[trigger] l@[j]),
        decreases n - a,
    {
        a += 1;
    }
    let mut b: usize = a;
    while b < n && !is_space(l[b])
        invariant
            a <= b <= n == l.len(),
            forall|j: int| a <= j < b ==> !is_whitespace(#[trigger] l@[j]),
        decreases n - b,
    {
        b += 1;
    }
    proof {
        lemma_trim_start(l@, a as int);
        let t = l@.skip(a as int);
        assert forall|j: int| 0 <= j < b - a implies !is_whitespace(#[trigger] t[j]) by {
            assert(t[j] == l@[j + a]);
        }
        lemma_index_of_space(t, b - a);
        assert(t.take(b - a) == l@.subrange(a as int, b as int));
        assert(t.skip(b - a) == l@.subrange(b as int, n as int));
    }
    let head = subvec(l, a, b);
    let rest = subvec(l, b, n);
    (head, trimmed(&rest))
}

/// A text that neither starts nor ends with whitespace is its own trim.
pub proof fn lemma_trim_clean(s: Seq<char>)
    requires
        s.len() == 0 || (!is_whitespace(s[0]) && !is_whitespace(s.last())),
    ensures
        trim(s) == s,
{
}

/// Trimming the end of a text that starts with no whitespace keeps its
/// first character.
pub proof fn lemma_trim_end_keeps_first(s: Seq<char>)
    requires
        s.len() > 0,
        !is_whitespace(s[0]),
    ensures
        trim_end(s).len() > 0,
        trim_end(s)[0] == s[0],
    decreases s.len(),
{
    if is_whitespace(s.last()) {
        lemma_trim_end_keeps_first(s.drop_last());
    }
}

/// The lines of a text begin with its first line and go on with the rest.
pub proof fn lemma_unlines_first(ls: Seq<Seq<char>>)
    requires
        ls.len() > 0,
    ensures
        unlines(ls) == seq!['\n'] + ls[0] + unlines(ls.skip(1)),
{
    lemma_unlines_add(seq![ls[0]], ls.skip(1));
    assert(seq![ls[0]] + ls.skip(1) == ls);
    assert(seq![ls[0]] == Seq::<Seq<char>>::empty().push(ls[0]));
    lemma_unlines_push(Seq::<Seq<char>>::empty(), ls[0]);
    assert(unlines(Seq::<Seq<char>>::empty()) + seq!['\n'] + ls[0] == seq!['\n'] + ls[0]);
}

/// Whether the lines can be told apart again once they are written one
/// after the other: none holds a line feed or ends with a carriage return,
/// and the last one is not empty.
pub open spec fn lines_are_plain(ls: Seq<Seq<char>>) -> bool {
    &&& ls.len() > 0
    &&& ls.last().len() > 0
    &&& forall|i: int|
        0 <= i < ls.len() ==> !(#[trigger] ls[i]).contains('\n') && (ls[i].len() == 0 || ls[i].last()
            != '\r')
}

/// A first line and the lines after it are read back as they were written.
proof fn lemma_lines_of_rest(ls: Seq<Seq<char>>)
    requires
        lines_are_plain(ls),
    ensures
        lines(ls[0] + unlines(ls.skip(1))) == ls,
    decreases ls.len(),
{
    let s = ls[0] + unlines(ls.skip(1));
    if ls.len() == 1 {
        assert(ls.skip(1) == Seq::<Seq<char>>::empty());
        assert(s == ls[0]);
        assert forall|j: int| 0 <= j < s.len() implies #[trigger] s[j] != '\n' by {
            if s[j] == '\n' {
                assert(ls[0].contains('\n'));
            }
        }
        lemma_index_of(s, '\n', s.len() as int);
        assert(ls == seq![s]);
    } else {
        let tail = ls.skip(1);
        assert(lines_are_plain(tail)) by {
            assert(tail.last() == ls.last());
            assert forall|i: int| 0 <= i < tail.len() implies !(#[trigger] tail[i]).contains('\n')
                && (tail[i].len() == 0 || tail[i].last() != '\r') by {
                assert(tail[i] == ls[i + 1]);
            }
        }
        lemma_unlines_first(tail);
        lemma_lines_of_rest(tail);
        let i = ls[0].len() as int;
        assert(s == ls[0] + (seq!['\n'] + tail[0] + unlines(tail.skip(1))));
        assert forall|j: int| 0 <= j < i implies #[trigger] s[j] != '\n' by {
            assert(s[j] == ls[0][j]);
            if s[j] == '\n' {
                assert(ls[0].contains('\n'));
            }
        }
        assert(s[i] == '\n');
        lemma_index_of(s, '\n', i);
        assert(s.take(i) == ls[0]);
        assert(s.skip(i + 1) == tail[0] + unlines(tail.skip(1)));
        assert(strip_cr(ls[0]) == ls[0]);
        assert(seq![ls[0]] + tail == ls);
    }
}

/// Lines that are written one after the other, each with a line feed
/// before it, are read back as they were written, after one empty line.
pub proof fn lemma_lines_unlines(ls: Seq<Seq<char>>)
    requires
        lines_are_plain(ls),
    ensures
        lines(unlines(ls)) == seq![Seq::<char>::empty()] + ls,
{
    lemma_unlines_first(ls);
    lemma_lines_of_rest(ls);
    let s = unlines(ls);
    let rest = ls[0] + unlines(ls.skip(1));
    assert(s == seq!['\n'] + rest);
    assert(s[0] == '\n');
    assert(s.take(0) == Seq::<char>::empty());
    assert(s.skip(1) == rest);
}

/// Whether the character is a decimal digit.
pub open spec fn is_digit(c: char) -> bool {
    digit_value(c) is Some
}

/// The decimal form of a number is made of digits, at least one.
pub proof fn lemma_decimal_digits(n: nat)
    ensures
        decimal(n).len() > 0,
        forall|i: int| 0 <= i < decimal(n).len() ==> is_digit(#[trigger] decimal(n)[i]),
    decreases n,
{
    if n >= 10 {
        lemma_decimal_digits(n / 10);
    }
}

/// The decimal form of a number denotes the number.
pub proof fn lemma_decimal_value(n: nat)
    ensures
        digits_value(decimal(n)) == Some(n),
    decreases n,
{
    let d = (n % 10) as nat;
    assert(digit_value(digit_char(d)) == Some(d));
    if n < 10 {
        assert(decimal(n).drop_last() == Seq::<char>::empty());
        assert(decimal(n).last() == digit_char(n));
        assert(digits_value(decimal(n).drop_last()) == Some(0nat));
    } else {
        lemma_decimal_value(n / 10);
        assert(decimal(n).drop_last() == decimal(n / 10));
        assert(decimal(n).last() == digit_char(d));
        assert(10 * (n / 10) + d == n);
    }
}

/// The decimal form of a number is read back as the number.
pub proof fn lemma_parse_decimal(n: nat)
    ensures
        parse_nat(decimal(n)) == Some(n),
        trim(decimal(n)) == decimal(n),
        !decimal(n).contains(':'),
        !decimal(n).contains('\n'),
        decimal(n).len() > 0,
        decimal(n).last() != '\r',
{
    lemma_decimal_digits(n);
    lemma_decimal_value(n);
    let d = decimal(n);
    assert(is_digit(d[0]));
    assert(is_digit(d.last()));
    lemma_trim_clean(d);
    assert forall|c: char| #[trigger] d.contains(c) implies is_digit(c) by {
        let i = choose|i: int| 0 <= i < d.len() && d[i] == c;
        assert(is_digit(d[i]));
    }
}

/// The decimal form of an integer is read back as the integer.
pub proof fn lemma_parse_signed(i: int)
    ensures
        parse_int(signed_decimal(i)) == Some(i),
        trim(signed_decimal(i)) == signed_decimal(i),
        !signed_decimal(i).contains(':'),
        !signed_decimal(i).contains('\n'),
        signed_decimal(i).len() > 0,
        signed_decimal(i).last() != '\r',
{
    if i < 0 {
        let n = (-i) as nat;
        lemma_parse_decimal(n);
        lemma_decimal_digits(n);
        lemma_decimal_value(n);
        let s = signed_decimal(i);
        assert(s.skip(1) == decimal(n));
        assert(s.last() == decimal(n).last());
        assert(is_digit(s.last()));
        lemma_trim_clean(s);
        assert forall|c: char| #[trigger] s.contains(c) implies c == '-' || is_digit(c) by {
            let k = choose|k: int| 0 <= k < s.len() && s[k] == c;
            if k > 0 {
                assert(s[k] == decimal(n)[k - 1]);
                assert(is_digit(decimal(n)[k - 1]));
            }
        }
    } else {
        lemma_parse_decimal(i as nat);
        lemma_decimal_digits(i as nat);
        assert(is_digit(decimal(i as nat)[0]));
    }
}

/// A truth value written out is read back.
pub proof fn lemma_parse_bool(b: bool)
    ensures
        spec_parse_bool(bool_text(b)) == Some(b),
        trim(bool_text(b)) == bool_text(b),
        !bool_text(b).contains(':'),
        !bool_text(b).contains('\n'),
        bool_text(b).len() > 0,
        bool_text(b).last() != '\r',
{
    reveal_strlit("true");
    reveal_strlit("false");
    let s = bool_text(b);
    assert("true"@ =~= seq!['t', 'r', 'u', 'e']);
    assert("false"@ =~= seq!['f', 'a', 'l', 's', 'e']);
    lemma_trim_clean(s);
}

/// Whether a key can be told from what stands around it in a line: it is
/// not empty, holds no colon, and neither starts nor ends with whitespace.
pub open spec fn is_key(key: Seq<char>) -> bool {
    &&& key.len() > 0
    &&& !key.contains(':')
    &&& !is_whitespace(key[0])
    &&& !is_whitespace(key.last())
}

/// A line that gives a key its value is read back as that key and that
/// value, if the indentation is whitespace and the value its own trim. The
/// trimmed line starts with the first character of the key.
pub proof fn lemma_field_line(indent: Seq<char>, key: Seq<char>, value: Seq<char>)
    requires
        forall|i: int| 0 <= i < indent.len() ==> is_whitespace(#[trigger] indent[i]),
        is_key(key),
        trim(value) == value,
    ensures
        spec_parse_field(field_line(indent, key, value)) == Some((key, value)),
        trim(field_line(indent, key, value)).len() > 0,
        trim(field_line(indent, key, value))[0] == key[0],
{
    let l = field_line(indent, key, value);
    let at = (indent.len() + key.len()) as int;
    assert forall|j: int| 0 <= j < at implies #[trigger] l[j] != ':' by {
        if j < indent.len() {
            assert(l[j] == indent[j]);
            assert(is_whitespace(indent[j]));
        } else {
            assert(l[j] == key[j - indent.len()]);
            if l[j] == ':' {
                assert(key.contains(':'));
            }
        }
    }
    assert(l[at] == ':');
    lemma_index_of(l, ':', at);
    let head = l.take(at);
    assert(head == indent + key);
    assert forall|j: int| 0 <= j < indent.len() implies is_whitespace(#[trigger] head[j]) by {
        assert(head[j] == indent[j]);
    }
    assert(head[indent.len() as int] == key[0]);
    lemma_trim_start(head, indent.len() as int);
    assert(head.skip(indent.len() as int) == key);
    assert(trim_end(key) == key);
    let tail = l.skip(at + 1);
    assert(tail == seq![' '] + value);
    assert(tail.skip(1) == value);
    assert(trim_start(tail) == trim_start(value));
    assert forall|j: int| 0 <= j < indent.len() implies is_whitespace(#[trigger] l[j]) by {
        assert(l[j] == indent[j]);
    }
    assert(l[indent.len() as int] == key[0]);
    lemma_trim_start(l, indent.len() as int);
    let t = l.skip(indent.len() as int);
    assert(t[0] == key[0]);
    lemma_trim_end_keeps_first(t);
}

/// A text without a colon is no line that gives a key its value.
pub proof fn lemma_no_field(l: Seq<char>)
    requires
        !l.contains(':'),
    ensures
        spec_parse_field(l) is None,
{
    assert forall|j: int| 0 <= j < l.len() implies #[trigger] l[j] != ':' by {
        if l[j] == ':' {
            assert(l.contains(':'));
        }
    }
    lemma_index_of(l, ':', l.len() as int);
}

/// Whether a line stands on its own when it is written among others: it
/// is not empty, holds no line feed, and does not end with a carriage
/// return.
pub open spec fn is_plain(l: Seq<char>) -> bool {
    l.len() > 0 && !l.contains('\n') && l.last() != '\r'
}

/// A line that gives a key its value stands on its own if its parts hold
/// no line feed and the value does not end with a carriage return.
pub proof fn lemma_field_line_plain(indent: Seq<char>, key: Seq<char>, value: Seq<char>)
    requires
        !indent.contains('\n'),
        !key.contains('\n'),
        !value.contains('\n'),
        value.len() == 0 || value.last() != '\r',
    ensures
        is_plain(field_line(indent, key, value)),
{
    let l = field_line(indent, key, value);
    let a = indent.len() as int;
    let b = a + key.len();
    assert forall|j: int| 0 <= j < l.len() implies #[trigger] l[j] != '\n' by {
        if j < a {
            assert(l[j] == indent[j]);
            if l[j] == '\n' {
                assert(indent.contains('\n'));
            }
        } else if j < b {
            assert(l[j] == key[j - a]);
            if l[j] == '\n' {
                assert(key.contains('\n'));
            }
        } else if j < b + 2 {
        } else {
            assert(l[j] == value[j - b - 2]);
            if l[j] == '\n' {
                assert(value.contains('\n'));
            }
        }
    }
    if value.len() > 0 {
        assert(l.last() == value.last());
    } else {
        assert(l.last() == ' ');
    }
}

} // verus!
