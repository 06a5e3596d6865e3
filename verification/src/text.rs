//! Character-level text utilities: decimal numbers, splitting, and
//! pattern replacement, each stated over `Seq<char>`.
use vstd::prelude::*;

verus! {

// ---------------------------------------------------------------------------
// Decimal representation of unsigned integers
// ---------------------------------------------------------------------------

/// The character of decimal digit `d` (for `d < 10`).
pub open spec fn digit_char(d: nat) -> char {
    (d + 48) as char
}

/// The decimal representation of `n`, without sign or leading zeros.
pub open spec fn decimal(n: nat) -> Seq<char>
    decreases n,
{
    if n < 10 {
        seq![digit_char(n)]
    } else {
        decimal(n / 10).push(digit_char(n % 10))
    }
}

/// Appends one character to a `String` (`String::push`).
#[verifier::external_body]
pub(crate) fn push_char(s: &mut String, c: char)
    ensures
        final(s)@ == old(s)@.push(c),
{
    s.push(c);
}

/// Appends the decimal representation of `n` to `s`.
pub fn push_decimal(s: &mut String, n: u64)
    ensures
        final(s)@ == old(s)@ + decimal(n as nat),
    decreases n,
{
    if n >= 10 {
        push_decimal(s, n / 10);
    }
    let d: u8 = (n % 10) as u8;
    let c: char = (48u8 + d) as char;
    assert(c == digit_char((n % 10) as nat));
    push_char(s, c);
    assert(decimal(n as nat) == if n < 10 {
        seq![digit_char(n as nat)]
    } else {
        decimal((n / 10) as nat).push(digit_char((n % 10) as nat))
    });
}

/// The decimal representation of `n` as a new string.
pub fn decimal_string(n: u64) -> (s: String)
    ensures
        s@ == decimal(n as nat),
{
    let mut s = String::new();
    push_decimal(&mut s, n);
    s
}

// ---------------------------------------------------------------------------
// Conversions between strings and character vectors
// ---------------------------------------------------------------------------

/// The characters of a string slice, in order.
pub fn chars_of(s: &str) -> (v: Vec<char>)
    ensures
        v@ == s@,
{
    let mut v: Vec<char> = Vec::new();
    for c in it: s.chars()
        invariant
            v@ == it.seq().take(it.index() as int),
    {
        v.push(c);
    }
    v
}

/// Appends every character of `v` to `s`.
pub fn push_chars(s: &mut String, v: &Vec<char>)
    ensures
        final(s)@ == old(s)@ + v@,
{
    let n = v.len();
    let mut i: usize = 0;
    while i < n
        invariant
            n == v@.len(),
            i <= n,
            s@ == old(s)@ + v@.take(i as int),
        decreases n - i,
    {
        push_char(s, v[i]);
        i += 1;
        assert(v@.take(i as int) == v@.take((i - 1) as int).push(v@[i - 1]));
    }
    assert(v@.take(n as int) == v@);
}

/// Appends every character of `t` to `s`.
pub fn push_str(s: &mut String, t: &str)
    ensures
        final(s)@ == old(s)@ + t@,
{
    let v = chars_of(t);
    push_chars(s, &v);
}

/// A new string holding the characters of `v`.
pub fn string_of(v: &Vec<char>) -> (s: String)
    ensures
        s@ == v@,
{
    let mut s = String::new();
    push_chars(&mut s, v);
    s
}

/// Whether two string slices hold the same characters.
pub fn str_eq(a: &str, b: &str) -> (r: bool)
    ensures
        r == (a@ == b@),
{
    let va = chars_of(a);
    let vb = chars_of(b);
    if va.len() != vb.len() {
        return false;
    }
    let n = va.len();
    let mut i: usize = 0;
    while i < n
        invariant
            n == va@.len(),
            n == vb@.len(),
            va@ == a@,
            vb@ == b@,
            i <= n,
            forall|j: int| 0 <= j < i ==> va@[j] == vb@[j],
        decreases n - i,
    {
        if va[i] != vb[i] {
            assert(va@[i as int] != vb@[i as int]);
            return false;
        }
        i += 1;
    }
    assert(va@ =~= vb@);
    true
}

// ---------------------------------------------------------------------------
// Parsing of unsigned decimal numbers (the grammar of `u64::from_str`)
// ---------------------------------------------------------------------------

/// Whether `c` is one of the ASCII digits `0`..`9`.
pub open spec fn is_digit(c: char) -> bool {
    '0' <= c && c <= '9'
}

/// The value of a digit character.
pub open spec fn digit_value(c: char) -> nat {
    (c as int - 48) as nat
}

/// The value of a sequence of digit characters read in base ten.
pub open spec fn digits_value(s: Seq<char>) -> nat
    decreases s.len(),
{
    if s.len() == 0 {
        0
    } else {
        digits_value(s.drop_last()) * 10 + digit_value(s.last())
    }
}

/// Whether every character of `s` is a digit.
pub open spec fn all_digits(s: Seq<char>) -> bool {
    forall|i: int| 0 <= i < s.len() ==> #[trigger] is_digit(s[i])
}

/// The digits part of an unsigned number: `s` without one leading `+`.
pub open spec fn unsigned_digits(s: Seq<char>) -> Seq<char> {
    if s.len() > 0 && s[0] == '+' {
        s.drop_first()
    } else {
        s
    }
}

/// The unsigned integer that `s` denotes, if it is an optional `+`
/// followed by at least one digit and its value is at most `max`.
pub open spec fn parse_unsigned(s: Seq<char>, max: nat) -> Option<nat> {
    let d = unsigned_digits(s);
    if d.len() > 0 && all_digits(d) && digits_value(d) <= max {
        Some(digits_value(d))
    } else {
        None
    }
}

/// Adding digits to the right never lowers the value.
pub proof fn lemma_digits_value_prefix(s: Seq<char>, j: int)
    requires
        0 <= j <= s.len(),
    ensures
        digits_value(s.take(j)) <= digits_value(s),
    decreases s.len(),
{
    if j < s.len() {
        assert(s.drop_last().take(j) == s.take(j));
        lemma_digits_value_prefix(s.drop_last(), j);
    } else {
        assert(s.take(j) == s);
    }
}

/// The decimal representation of a number consists of digits and has
/// that number as its value.
pub proof fn lemma_decimal_digits(n: nat)
    ensures
        decimal(n).len() > 0,
        all_digits(decimal(n)),
        digits_value(decimal(n)) == n,
    decreases n,
{
    let d = decimal(n);
    assert(digit_value(digit_char(n % 10)) == n % 10);
    assert(d.last() == digit_char(n % 10));
    assert(digits_value(d) == digits_value(d.drop_last()) * 10 + digit_value(d.last()));
    if n < 10 {
        assert(d.drop_last() =~= Seq::<char>::empty());
        assert(digits_value(d.drop_last()) == 0);
    } else {
        lemma_decimal_digits(n / 10);
        assert(d.drop_last() == decimal(n / 10));
        assert((n / 10) * 10 + n % 10 == n) by (nonlinear_arith);
        assert forall|i: int| 0 <= i < d.len() implies #[trigger] is_digit(d[i]) by {
            if i < d.len() - 1 {
                assert(d[i] == decimal(n / 10)[i]);
            }
        }
    }
}

/// Reading back a written number: the decimal representation of any
/// number up to `max` parses to that number.
pub proof fn lemma_parse_decimal(n: nat, max: nat)
    requires
        n <= max,
    ensures
        parse_unsigned(decimal(n), max) == Some(n),
{
    lemma_decimal_digits(n);
    assert(is_digit(decimal(n)[0]));
}

/// Parses an unsigned 64-bit number as `u64::from_str` does.
pub fn parse_u64(s: &Vec<char>) -> (r: Option<u64>)
    ensures
        match parse_unsigned(s@, u64::MAX as nat) {
            Some(n) => r == Some(n as u64),
            None => r is None,
        },
{
    let n = s.len();
    let start: usize = if n > 0 && s[0] == '+' { 1 } else { 0 };
    let ghost d = unsigned_digits(s@);
    assert(d == s@.skip(start as int));
    if start >= n {
        return None;
    }
    let mut i: usize = start;
    while i < n
        invariant
            n == s@.len(),
            start <= i <= n,
            d == s@.skip(start as int),
            d == unsigned_digits(s@),
            forall|j: int| start <= j < i ==> is_digit(s@[j]),
        decreases n - i,
    {
        if !('0' <= s[i] && s[i] <= '9') {
            assert(!is_digit(d[i - start]));
            assert(!all_digits(d));
            return None;
        }
        i += 1;
    }
    assert(all_digits(d)) by {
        assert forall|j: int| 0 <= j < d.len() implies #[trigger] is_digit(d[j]) by {
            assert(d[j] == s@[j + start]);
        }
    }
    let mut value: u64 = 0;
    let mut k: usize = start;
    while k < n
        invariant
            n == s@.len(),
            start <= k <= n,
            d == s@.skip(start as int),
            d == unsigned_digits(s@),
            all_digits(d),
            value as nat == digits_value(d.take(k - start)),
        decreases n - k,
    {
        let c = s[k];
        assert(is_digit(d[k - start]));
        let dv: u64 = (c as u32 - 48) as u64;
        assert(d.take(k + 1 - start).drop_last() == d.take(k - start));
        assert(d.take(k + 1 - start).last() == c);
        assert(digit_value(c) == dv as nat);
        assert(digits_value(d.take(k + 1 - start)) == value as nat * 10 + dv as nat);
        match value.checked_mul(10) {
            Some(v10) => match v10.checked_add(dv) {
                Some(v) => {
                    value = v;
                },
                None => {
                    proof {
                        lemma_digits_value_prefix(d, k + 1 - start);
                    }
                    return None;
                },
            },
            None => {
                proof {
                    lemma_digits_value_prefix(d, k + 1 - start);
                }
                return None;
            },
        }
        k += 1;
    }
    assert(d.take(n - start) == d);
    Some(value)
}

/// Parses an unsigned 32-bit number as `u32::from_str` does.
pub fn parse_u32(s: &Vec<char>) -> (r: Option<u32>)
    ensures
        match parse_unsigned(s@, u32::MAX as nat) {
            Some(n) => r == Some(n as u32),
            None => r is None,
        },
{
    match parse_u64(s) {
        Some(v) => {
            if v <= u32::MAX as u64 {
                Some(v as u32)
            } else {
                None
            }
        },
        None => None,
    }
}

// ---------------------------------------------------------------------------
// Splitting at separator characters (the behaviour of `str::split`)
// ---------------------------------------------------------------------------

/// The pieces of `s` between the characters that `seps` contains, in
/// order; `n` separators give `n + 1` pieces, some of them empty.
pub open spec fn split(s: Seq<char>, seps: Seq<char>) -> Seq<Seq<char>>
    decreases s.len(),
{
    if s.len() == 0 {
        seq![Seq::empty()]
    } else {
        let p = split(s.drop_last(), seps);
        if seps.contains(s.last()) {
            p.push(Seq::empty())
        } else {
            p.update(p.len() - 1, p.last().push(s.last()))
        }
    }
}

/// A split always has at least one piece.
pub proof fn lemma_split_nonempty(s: Seq<char>, seps: Seq<char>)
    ensures
        split(s, seps).len() >= 1,
    decreases s.len(),
{
    if s.len() > 0 {
        lemma_split_nonempty(s.drop_last(), seps);
    }
}

/// Whether `s` holds none of the characters of `seps`.
pub open spec fn free_of(s: Seq<char>, seps: Seq<char>) -> bool {
    forall|i: int| 0 <= i < s.len() ==> !seps.contains(#[trigger] s[i])
}

/// Splitting a concatenation: the pieces of `x` and of `y`, where the last
/// piece of `x` and the first piece of `y` join into one.
pub proof fn lemma_split_append(x: Seq<char>, y: Seq<char>, seps: Seq<char>)
    ensures
        split(x + y, seps) == split(x, seps).drop_last() + seq![
            split(x, seps).last() + split(y, seps)[0],
        ] + split(y, seps).drop_first(),
    decreases y.len(),
{
    lemma_split_nonempty(x, seps);
    lemma_split_nonempty(y, seps);
    let px = split(x, seps);
    if y.len() == 0 {
        assert(x + y =~= x);
        assert(px.drop_last() + seq![px.last() + Seq::<char>::empty()] =~= px);
        assert(split(y, seps).drop_first() =~= Seq::<Seq<char>>::empty());
        assert(px.drop_last() + seq![px.last() + split(y, seps)[0]] + split(y, seps).drop_first()
            =~= px);
    } else {
        let y0 = y.drop_last();
        let c = y.last();
        lemma_split_append(x, y0, seps);
        lemma_split_nonempty(y0, seps);
        assert((x + y).drop_last() =~= x + y0);
        assert((x + y).last() == c);
        let py0 = split(y0, seps);
        let before = split(x + y0, seps);
        assert(before == px.drop_last() + seq![px.last() + py0[0]] + py0.drop_first());
        if seps.contains(c) {
            assert(split(y, seps) == py0.push(Seq::empty()));
            assert(split(y, seps)[0] == py0[0]);
            assert(split(y, seps).drop_first() =~= py0.drop_first().push(Seq::empty()));
            assert(split(x + y, seps) == before.push(Seq::empty()));
            assert(split(x + y, seps) =~= px.drop_last() + seq![px.last() + split(y, seps)[0]]
                + split(y, seps).drop_first());
        } else {
            assert(split(y, seps) == py0.update(py0.len() - 1, py0.last().push(c)));
            assert(split(x + y, seps) == before.update(before.len() - 1, before.last().push(c)));
            if py0.len() == 1 {
                assert(split(y, seps)[0] == py0[0].push(c));
                assert(split(y, seps).drop_first() =~= Seq::<Seq<char>>::empty());
                assert(py0.drop_first() =~= Seq::<Seq<char>>::empty());
                assert((px.last() + py0[0]).push(c) =~= px.last() + py0[0].push(c));
                assert(split(x + y, seps) =~= px.drop_last() + seq![px.last() + split(y, seps)[0]]
                    + split(y, seps).drop_first());
            } else {
                assert(split(y, seps)[0] == py0[0]);
                assert(split(y, seps).drop_first() =~= py0.drop_first().update(
                    py0.len() - 2,
                    py0.last().push(c),
                ));
                assert(split(x + y, seps) =~= px.drop_last() + seq![px.last() + split(y, seps)[0]]
                    + split(y, seps).drop_first());
            }
        }
    }
}

/// A text without separators is a single piece.
pub proof fn lemma_split_free(s: Seq<char>, seps: Seq<char>)
    requires
        free_of(s, seps),
    ensures
        split(s, seps) == seq![s],
    decreases s.len(),
{
    if s.len() == 0 {
        assert(s =~= Seq::<char>::empty());
        assert(split(s, seps) =~= seq![s]);
    } else {
        assert(free_of(s.drop_last(), seps));
        lemma_split_free(s.drop_last(), seps);
        assert(!seps.contains(s[s.len() - 1]));
        assert(s.drop_last().push(s.last()) =~= s);
        let p = split(s.drop_last(), seps);
        assert(split(s, seps) == p.update(p.len() - 1, p.last().push(s.last())));
        assert(split(s, seps) =~= seq![s]);
    }
}

/// Text free of separators, a separator, and text free of separators split
/// into the two texts.
pub proof fn lemma_split_two(a: Seq<char>, c: char, b: Seq<char>, seps: Seq<char>)
    requires
        free_of(a, seps),
        free_of(b, seps),
        seps.contains(c),
    ensures
        split(a + seq![c] + b, seps) == seq![a, b],
{
    lemma_split_free(a, seps);
    lemma_split_free(b, seps);
    let one = seq![c];
    assert(split(one, seps) == split(Seq::<char>::empty(), seps).push(Seq::empty())) by {
        assert(one.drop_last() =~= Seq::<char>::empty());
    }
    assert(split(one, seps) =~= seq![Seq::<char>::empty(), Seq::<char>::empty()]);
    lemma_split_append(a, one, seps);
    assert(split(a + one, seps) =~= seq![a, Seq::<char>::empty()]);
    lemma_split_append(a + one, b, seps);
    assert(split(a + one + b, seps) =~= seq![a, b]);
}

/// Three texts free of separators, joined by two separators, split into the
/// three texts.
pub proof fn lemma_split_three(
    a: Seq<char>,
    c: char,
    b: Seq<char>,
    d: char,
    e: Seq<char>,
    seps: Seq<char>,
)
    requires
        free_of(a, seps),
        free_of(b, seps),
        free_of(e, seps),
        seps.contains(c),
        seps.contains(d),
    ensures
        split(a + seq![c] + b + seq![d] + e, seps) == seq![a, b, e],
{
    lemma_split_two(a, c, b, seps);
    lemma_split_two(Seq::empty(), d, e, seps);
    assert(Seq::<char>::empty() + seq![d] + e =~= seq![d] + e);
    assert(free_of(Seq::<char>::empty(), seps));
    lemma_split_append(a + seq![c] + b, seq![d] + e, seps);
    assert(a + seq![c] + b + seq![d] + e =~= (a + seq![c] + b) + (seq![d] + e));
    assert(split(a + seq![c] + b + seq![d] + e, seps) =~= seq![a, b, e]);
}

/// The decimal representation of a number holds only digits, so none of
/// the separators given.
pub proof fn lemma_decimal_free(n: nat, seps: Seq<char>)
    requires
        forall|i: int| 0 <= i < seps.len() ==> !is_digit(#[trigger] seps[i]),
    ensures
        free_of(decimal(n), seps),
{
    lemma_decimal_digits(n);
    assert forall|i: int| 0 <= i < decimal(n).len() implies !seps.contains(#[trigger] decimal(n)[i]) by {
        assert(is_digit(decimal(n)[i]));
        if seps.contains(decimal(n)[i]) {
            let j = choose|j: int| 0 <= j < seps.len() && seps[j] == decimal(n)[i];
            assert(!is_digit(seps[j]));
        }
    }
}

/// Whether `v` contains `c`.
pub fn contains_char(v: &Vec<char>, c: char) -> (r: bool)
    ensures
        r == v@.contains(c),
{
    let n = v.len();
    let mut i: usize = 0;
    while i < n
        invariant
            n == v@.len(),
            i <= n,
            forall|j: int| 0 <= j < i ==> v@[j] != c,
        decreases n - i,
    {
        if v[i] == c {
            assert(v@[i as int] == c);
            return true;
        }
        i += 1;
    }
    false
}

/// The character sequences of a sequence of character vectors.
pub open spec fn char_views(v: Seq<Vec<char>>) -> Seq<Seq<char>> {
    v.map_values(|p: Vec<char>| p@)
}

/// Splits `s` at every character of `seps`.
pub fn split_chars(s: &Vec<char>, seps: &Vec<char>) -> (parts: Vec<Vec<char>>)
    ensures
        char_views(parts@) == split(s@, seps@),
{
    let n = s.len();
    let mut parts: Vec<Vec<char>> = Vec::new();
    let mut cur: Vec<char> = Vec::new();
    let mut i: usize = 0;
    assert(s@.take(0) =~= Seq::<char>::empty());
    while i < n
        invariant
            n == s@.len(),
            i <= n,
            split(s@.take(i as int), seps@) =~= char_views(parts@).push(cur@),
        decreases n - i,
    {
        let c = s[i];
        let ghost old_parts = char_views(parts@);
        let ghost old_cur = cur@;
        let ghost prefix = s@.take(i + 1);
        assert(prefix.drop_last() =~= s@.take(i as int));
        assert(prefix.last() == c);
        assert(split(prefix, seps@) == {
            let p = split(prefix.drop_last(), seps@);
            if seps@.contains(prefix.last()) {
                p.push(Seq::empty())
            } else {
                p.update(p.len() - 1, p.last().push(prefix.last()))
            }
        });
        if contains_char(seps, c) {
            let done = cur;
            parts.push(done);
            cur = Vec::new();
            assert(char_views(parts@) =~= old_parts.push(old_cur));
            assert(split(prefix, seps@) =~= char_views(parts@).push(cur@));
        } else {
            cur.push(c);
            assert(cur@ =~= old_cur.push(c));
            assert(split(prefix, seps@) =~= char_views(parts@).push(cur@));
        }
        i += 1;
    }
    assert(s@.take(n as int) =~= s@);
    let ghost old_parts = char_views(parts@);
    let ghost last = cur@;
    parts.push(cur);
    assert(char_views(parts@) =~= old_parts.push(last));
    parts
}

// ---------------------------------------------------------------------------
// Replacing every occurrence of a pattern (the behaviour of `str::replace`)
// ---------------------------------------------------------------------------

/// `s` with every non-overlapping occurrence of `pat`, found from left
/// to right, replaced by `rep`. An empty pattern matches before every
/// character and at the end.
pub open spec fn replace_all(s: Seq<char>, pat: Seq<char>, rep: Seq<char>) -> Seq<char>
    decreases s.len(),
{
    if pat.len() == 0 {
        if s.len() == 0 {
            rep
        } else {
            rep + seq![s[0]] + replace_all(s.drop_first(), pat, rep)
        }
    } else if s.len() < pat.len() {
        s
    } else if s.take(pat.len() as int) == pat {
        rep + replace_all(s.skip(pat.len() as int), pat, rep)
    } else {
        seq![s[0]] + replace_all(s.drop_first(), pat, rep)
    }
}

/// Whether `pat` occurs in `s` at position `i`.
fn matches_at(s: &Vec<char>, i: usize, pat: &Vec<char>) -> (r: bool)
    requires
        i + pat@.len() <= s@.len(),
    ensures
        r == (s@.subrange(i as int, i + pat@.len()) == pat@),
{
    let m = pat.len();
    let sl = s.len();
    let mut j: usize = 0;
    while j < m
        invariant
            m == pat@.len(),
            sl == s@.len(),
            i + m <= s@.len(),
            j <= m,
            forall|k: int| 0 <= k < j ==> s@[i + k] == pat@[k],
        decreases m - j,
    {
        if s[i + j] != pat[j] {
            assert(s@[i + j] != pat@[j as int]);
            assert(s@.subrange(i as int, i + m)[j as int] != pat@[j as int]);
            return false;
        }
        j += 1;
    }
    assert(s@.subrange(i as int, i + m) =~= pat@);
    true
}

/// Appends the characters of `v` to the vector `out`.
fn extend_chars(out: &mut Vec<char>, v: &Vec<char>)
    ensures
        final(out)@ == old(out)@ + v@,
{
    let n = v.len();
    let mut i: usize = 0;
    while i < n
        invariant
            n == v@.len(),
            i <= n,
            out@ == old(out)@ + v@.take(i as int),
        decreases n - i,
    {
        out.push(v[i]);
        i += 1;
        assert(v@.take(i as int) == v@.take((i - 1) as int).push(v@[i - 1]));
    }
    assert(v@.take(n as int) == v@);
}

/// Replaces every occurrence of `pat` in `s` by `rep`.
pub fn replace_chars(s: &Vec<char>, pat: &Vec<char>, rep: &Vec<char>) -> (r: Vec<char>)
    ensures
        r@ == replace_all(s@, pat@, rep@),
{
    let n = s.len();
    let m = pat.len();
    let mut out: Vec<char> = Vec::new();
    let mut i: usize = 0;
    assert(s@.skip(0) =~= s@);
    while i < n
        invariant
            n == s@.len(),
            m == pat@.len(),
            i <= n,
            out@ + replace_all(s@.skip(i as int), pat@, rep@) == replace_all(s@, pat@, rep@),
        decreases n - i,
    {
        let ghost rest = s@.skip(i as int);
        if m == 0 {
            extend_chars(&mut out, rep);
            out.push(s[i]);
            assert(rest.drop_first() =~= s@.skip(i + 1));
            assert(rest[0] == s@[i as int]);
            assert(out@ + replace_all(s@.skip(i + 1), pat@, rep@) =~= replace_all(s@, pat@, rep@));
            i += 1;
        } else if n - i < m {
            let ghost before = out@;
            while i < n
                invariant
                    n == s@.len(),
                    i <= n,
                    out@ + s@.skip(i as int) == before + rest,
                decreases n - i,
            {
                out.push(s[i]);
                assert(s@.skip(i as int) =~= seq![s@[i as int]] + s@.skip(i + 1));
                i += 1;
            }
            assert(s@.skip(n as int) =~= Seq::<char>::empty());
            assert(out@ =~= before + rest);
            assert(replace_all(s@.skip(n as int), pat@, rep@) =~= Seq::<char>::empty());
        } else if matches_at(s, i, pat) {
            extend_chars(&mut out, rep);
            assert(rest.take(m as int) =~= s@.subrange(i as int, i + m));
            assert(rest.skip(m as int) =~= s@.skip(i + m));
            i += m;
        } else {
            assert(rest.take(m as int) =~= s@.subrange(i as int, i + m));
            out.push(s[i]);
            assert(rest.drop_first() =~= s@.skip(i + 1));
            assert(rest[0] == s@[i as int]);
            assert(out@ + replace_all(s@.skip(i + 1), pat@, rep@) =~= replace_all(s@, pat@, rep@));
            i += 1;
        }
    }
    if m == 0 {
        extend_chars(&mut out, rep);
        assert(s@.skip(n as int) =~= Seq::<char>::empty());
    } else {
        assert(s@.skip(n as int) =~= Seq::<char>::empty());
    }
    out
}

/// Text that cannot begin an occurrence of the pattern is kept as it is,
/// in front of the replaced rest.
pub proof fn lemma_replace_prefix_kept(a: Seq<char>, s: Seq<char>, pat: Seq<char>, rep: Seq<char>)
    requires
        pat.len() > 0,
        !a.contains(pat[0]),
    ensures
        replace_all(a + s, pat, rep) == a + replace_all(s, pat, rep),
    decreases a.len(),
{
    if a.len() > 0 {
        let t = a + s;
        assert(t[0] == a[0]);
        assert(!a.drop_first().contains(pat[0])) by {
            if a.drop_first().contains(pat[0]) {
                let i = choose|i: int| 0 <= i < a.drop_first().len() && a.drop_first()[i] == pat[0];
                assert(a[i + 1] == pat[0]);
            }
        }
        lemma_replace_prefix_kept(a.drop_first(), s, pat, rep);
        assert(t.drop_first() =~= a.drop_first() + s);
        assert(a[0] != pat[0]);
        if t.len() >= pat.len() {
            assert(t.take(pat.len() as int)[0] != pat[0]);
            assert(t.take(pat.len() as int) != pat);
            assert(replace_all(t, pat, rep) == seq![t[0]] + replace_all(t.drop_first(), pat, rep));
            assert(seq![a[0]] + (a.drop_first() + replace_all(s, pat, rep)) =~= a + replace_all(
                s,
                pat,
                rep,
            ));
        } else {
            assert(s.len() < pat.len());
            assert(replace_all(s, pat, rep) == s);
        }
    } else {
        assert(a + s =~= s);
        assert(a + replace_all(s, pat, rep) =~= replace_all(s, pat, rep));
    }
}

/// Text without the first character of the pattern comes back unchanged.
pub proof fn lemma_replace_untouched(a: Seq<char>, pat: Seq<char>, rep: Seq<char>)
    requires
        pat.len() > 0,
        !a.contains(pat[0]),
    ensures
        replace_all(a, pat, rep) == a,
{
    lemma_replace_prefix_kept(a, Seq::empty(), pat, rep);
    assert(a + Seq::<char>::empty() =~= a);
    assert(replace_all(Seq::<char>::empty(), pat, rep) == Seq::<char>::empty());
}

/// A single occurrence of the pattern between two texts that cannot begin
/// one is replaced, and the texts around it are kept.
pub proof fn lemma_replace_single(a: Seq<char>, b: Seq<char>, pat: Seq<char>, rep: Seq<char>)
    requires
        pat.len() > 0,
        !a.contains(pat[0]),
        !b.contains(pat[0]),
    ensures
        replace_all(a + pat + b, pat, rep) == a + rep + b,
{
    lemma_replace_prefix_kept(a, pat + b, pat, rep);
    assert(a + pat + b =~= a + (pat + b));
    let t = pat + b;
    assert(t.take(pat.len() as int) =~= pat);
    assert(t.skip(pat.len() as int) =~= b);
    lemma_replace_untouched(b, pat, rep);
    assert(a + (rep + b) =~= a + rep + b);
}

/// `s` with every occurrence of `pat` replaced by `rep` (`str::replace`).
pub fn replace(s: &str, pat: &str, rep: &str) -> (r: String)
    ensures
        r@ == replace_all(s@, pat@, rep@),
{
    let sv = chars_of(s);
    let pv = chars_of(pat);
    let rv = chars_of(rep);
    let out = replace_chars(&sv, &pv, &rv);
    string_of(&out)
}

// ---------------------------------------------------------------------------
// Concatenation of many strings (the behaviour of `[String]::concat`)
// ---------------------------------------------------------------------------

/// The characters of all pieces, one after the other.
pub open spec fn concat_all(parts: Seq<Seq<char>>) -> Seq<char>
    decreases parts.len(),
{
    if parts.len() == 0 {
        Seq::empty()
    } else {
        concat_all(parts.drop_last()) + parts.last()
    }
}

/// The concatenation of all strings of `parts`.
pub fn concat_strings(parts: &Vec<String>) -> (r: String)
    ensures
        r@ == concat_all(parts.deep_view()),
{
    let n = parts.len();
    let mut out = String::new();
    let mut i: usize = 0;
    assert(parts.deep_view().take(0) =~= Seq::<Seq<char>>::empty());
    while i < n
        invariant
            n == parts@.len(),
            i <= n,
            out@ == concat_all(parts.deep_view().take(i as int)),
        decreases n - i,
    {
        push_str(&mut out, parts[i].as_str());
        assert(parts.deep_view().take(i + 1).drop_last() =~= parts.deep_view().take(i as int));
        i += 1;
    }
    assert(parts.deep_view().take(n as int) =~= parts.deep_view());
    out
}

} // verus!
