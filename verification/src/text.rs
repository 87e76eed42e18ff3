//! Character-level text helpers shared by the parsers and renderers.
use vstd::prelude::*;

verus! {

/// Append one character to a string.
///
/// Wraps `String::push`, which appends the character's encoding to the
/// string; the contract claims the character sequence grows by exactly `c`.
#[verifier::external_body]
pub(crate) fn push_char(s: &mut String, c: char)
    ensures
        final(s)@ == old(s)@.push(c),
{
    s.push(c);
}

/// The characters of a string, in order.
pub fn chars_of(s: &str) -> (v: Vec<char>)
    ensures
        v@ == s@,
{
    let mut v: Vec<char> = Vec::new();
    for c in it: s.chars()
        invariant
            v@ == it.seq().take(it.index() as int),
    {
        v.push(c);
    }
    v
}

} // verus!

verus! {

/// The ASCII digit for a value below ten.
pub open spec fn digit_char(d: nat) -> char {
    if d == 0 { '0' }
    else if d == 1 { '1' }
    else if d == 2 { '2' }
    else if d == 3 { '3' }
    else if d == 4 { '4' }
    else if d == 5 { '5' }
    else if d == 6 { '6' }
    else if d == 7 { '7' }
    else if d == 8 { '8' }
    else { '9' }
}

/// Canonical base-ten spelling of a natural number, without sign or padding.
pub open spec fn decimal(n: nat) -> Seq<char>
    decreases n,
{
    if n < 10 {
        seq![digit_char(n)]
    } else {
        decimal(n / 10).push(digit_char(n % 10))
    }
}

fn digit(d: u64) -> (c: char)
    requires
        d < 10,
    ensures
        c == digit_char(d as nat),
{
    if d == 0 { '0' }
    else if d == 1 { '1' }
    else if d == 2 { '2' }
    else if d == 3 { '3' }
    else if d == 4 { '4' }
    else if d == 5 { '5' }
    else if d == 6 { '6' }
    else if d == 7 { '7' }
    else if d == 8 { '8' }
    else { '9' }
}

/// Append the base-ten spelling of `n`.
pub fn push_decimal(s: &mut String, n: u64)
    ensures
        final(s)@ == old(s)@ + decimal(n as nat),
    decreases n,
{
    if n >= 10 {
        push_decimal(s, n / 10);
    }
    push_char(s, digit(n % 10));
    proof {
        if n < 10 {
            assert(decimal(n as nat) == seq![digit_char(n as nat)]);
        }
    }
}

/// The base-ten spelling of `n`.
pub fn decimal_string(n: u64) -> (s: String)
    ensures
        s@ == decimal(n as nat),
{
    let mut s = String::new();
    push_decimal(&mut s, n);
    s
}

/// Append a string slice.
pub fn push_str(s: &mut String, t: &str)
    ensures
        final(s)@ == old(s)@ + t@,
{
    s.append(t);
}

} // verus!

verus! {

/// Character-wise equality of two character vectors.
pub fn chars_equal(a: &Vec<char>, b: &Vec<char>) -> (r: bool)
    ensures
        r == (a@ == b@),
{
    if a.len() != b.len() {
        return false;
    }
    let mut i: usize = 0;
    while i < a.len()
        invariant
            a@.len() == b@.len(),
            i <= a@.len(),
            forall|j: int| 0 <= j < i ==> a@[j] == b@[j],
        decreases a.len() - i,
    {
        if a[i] != b[i] {
            return false;
        }
        i = i + 1;
    }
    assert(a@ =~= b@);
    true
}

/// Equality of two string slices.
pub fn str_equal(a: &str, b: &str) -> (r: bool)
    ensures
        r == (a@ == b@),
{
    let a = chars_of(a);
    let b = chars_of(b);
    chars_equal(&a, &b)
}

/// A string holding exactly the given characters.
pub fn string_of_chars(v: &Vec<char>) -> (s: String)
    ensures
        s@ == v@,
{
    let mut s = String::new();
    let mut i: usize = 0;
    while i < v.len()
        invariant
            i <= v@.len(),
            s@ == v@.take(i as int),
        decreases v.len() - i,
    {
        push_char(&mut s, v[i]);
        proof {
            assert(v@.take(i + 1) =~= v@.take(i as int).push(v@[i as int]));
        }
        i = i + 1;
    }
    assert(v@.take(v@.len() as int) =~= v@);
    s
}

} // verus!

verus! {

/// Unicode white space, as `char::is_whitespace` classifies it.
pub open spec fn is_whitespace(c: char) -> bool {
    let u = c as u32;
    (0x9 <= u <= 0xd) || u == 0x20 || u == 0x85 || u == 0xa0 || u == 0x1680 || (0x2000 <= u
        <= 0x200a) || u == 0x2028 || u == 0x2029 || u == 0x202f || u == 0x205f || u == 0x3000
}

/// Executable white-space test.
pub fn whitespace(c: char) -> (r: bool)
    ensures
        r == is_whitespace(c),
{
    let u = c as u32;
    (0x9 <= u && u <= 0xd) || u == 0x20 || u == 0x85 || u == 0xa0 || u == 0x1680 || (0x2000 <= u
        && u <= 0x200a) || u == 0x2028 || u == 0x2029 || u == 0x202f || u == 0x205f || u == 0x3000
}

/// Length of the leading run of non-white-space characters.
pub open spec fn word_len(s: Seq<char>) -> nat
    decreases s.len(),
{
    if s.len() == 0 || is_whitespace(s[0]) {
        0
    } else {
        1 + word_len(s.drop_first())
    }
}

/// The leading word is never longer than the text.
pub proof fn lemma_word_len_bound(s: Seq<char>)
    ensures
        word_len(s) <= s.len(),
        s.len() > 0 && !is_whitespace(s[0]) ==> word_len(s) >= 1,
    decreases s.len(),
{
    if s.len() > 0 && !is_whitespace(s[0]) {
        lemma_word_len_bound(s.drop_first());
    }
}

/// The maximal runs of non-white-space characters, in order (`str::split_whitespace`).
pub open spec fn words(s: Seq<char>) -> Seq<Seq<char>>
    decreases s.len(),
{
    if s.len() == 0 {
        Seq::empty()
    } else if is_whitespace(s[0]) {
        words(s.drop_first())
    } else {
        let n = word_len(s);
        proof {
            lemma_word_len_bound(s);
        }
        seq![s.take(n as int)] + words(s.skip(n as int))
    }
}

/// A word ending exactly at `j` has length `j - i`.
proof fn lemma_word_len_run(s: Seq<char>, i: int, j: int)
    requires
        0 <= i <= j <= s.len(),
        forall|k: int| i <= k < j ==> !is_whitespace(#[trigger] s[k]),
        j == s.len() || is_whitespace(s[j]),
    ensures
        word_len(s.skip(i)) == j - i,
    decreases j - i,
{
    if i == j {
    } else {
        assert(s.skip(i).drop_first() =~= s.skip(i + 1));
        lemma_word_len_run(s, i + 1, j);
    }
}

/// The views of a vector of character vectors.
pub open spec fn views(v: Seq<Vec<char>>) -> Seq<Seq<char>> {
    v.map_values(|l: Vec<char>| l@)
}

/// Split `s[start..end]` into its white-space separated words.
pub fn split_words(s: &Vec<char>, start: usize, end: usize) -> (w: Vec<Vec<char>>)
    requires
        start <= end <= s@.len(),
    ensures
        views(w@) == words(s@.subrange(start as int, end as int)),
{
    let ghost t = s@.subrange(0, end as int);
    let mut w: Vec<Vec<char>> = Vec::new();
    let mut i = start;
    while i < end
        invariant
            start <= i <= end <= s@.len(),
            t == s@.subrange(0, end as int),
            views(w@) + words(t.skip(i as int)) == words(t.skip(start as int)),
        decreases end - i,
    {
        if whitespace(s[i]) {
            assert(t.skip(i as int).drop_first() =~= t.skip(i + 1));
            i = i + 1;
        } else {
            let mut j = i;
            while j < end && !whitespace(s[j])
                invariant
                    i <= j <= end <= s@.len(),
                    forall|k: int| i <= k < j ==> !is_whitespace(#[trigger] s@[k]),
                decreases end - j,
            {
                j = j + 1;
            }
            let mut word: Vec<char> = Vec::new();
            let mut k = i;
            while k < j
                invariant
                    i <= k <= j <= s@.len(),
                    word@ == s@.subrange(i as int, k as int),
                decreases j - k,
            {
                word.push(s[k]);
                assert(s@.subrange(i as int, k + 1) =~= s@.subrange(i as int, k as int).push(s@[k as int]));
                k = k + 1;
            }
            proof {
                assert forall|k: int| i <= k < j implies !is_whitespace(#[trigger] t[k]) by {
                    assert(t[k] == s@[k]);
                }
                lemma_word_len_run(t, i as int, j as int);
                let ti = t.skip(i as int);
                assert(!is_whitespace(ti[0]));
                assert(ti.take(j - i) =~= s@.subrange(i as int, j as int));
                assert(ti.skip(j - i) =~= t.skip(j as int));
                assert(words(ti) == seq![ti.take(j - i)] + words(ti.skip(j - i)));
                let ghost old_w = views(w@);
                assert(views(w@.push(word)) =~= old_w.push(word@));
                assert(old_w.push(word@) + words(t.skip(j as int)) =~= old_w + (seq![word@] + words(t.skip(j as int))));
            }
            w.push(word);
            i = j;
        }
    }
    proof {
        assert(t.skip(end as int) =~= Seq::<char>::empty());
        assert(views(w@) + words(t.skip(end as int)) =~= views(w@));
        assert(t.skip(start as int) =~= s@.subrange(start as int, end as int));
    }
    w
}

} // verus!

verus! {

/// Length of the text before its first line feed.
pub open spec fn line_len(s: Seq<char>) -> nat
    decreases s.len(),
{
    if s.len() == 0 || s[0] == '\n' {
        0
    } else {
        1 + line_len(s.drop_first())
    }
}

pub proof fn lemma_line_len_bound(s: Seq<char>)
    ensures
        line_len(s) <= s.len(),
        line_len(s) < s.len() ==> s[line_len(s) as int] == '\n',
    decreases s.len(),
{
    if s.len() > 0 && s[0] != '\n' {
        lemma_line_len_bound(s.drop_first());
    }
}

proof fn lemma_line_len_run(s: Seq<char>, i: int, j: int)
    requires
        0 <= i <= j <= s.len(),
        forall|k: int| i <= k < j ==> #[trigger] s[k] != '\n',
        j == s.len() || s[j] == '\n',
    ensures
        line_len(s.skip(i)) == j - i,
    decreases j - i,
{
    if i < j {
        assert(s.skip(i).drop_first() =~= s.skip(i + 1));
        lemma_line_len_run(s, i + 1, j);
    }
}

/// A line without its terminating carriage return.
pub open spec fn strip_cr(l: Seq<char>) -> Seq<char> {
    if l.len() > 0 && l.last() == '\r' {
        l.drop_last()
    } else {
        l
    }
}

/// The lines of a text (`str::lines`): split at line feeds, each terminated
/// line losing one trailing carriage return, and no empty line after a final
/// line feed.
pub open spec fn lines(s: Seq<char>) -> Seq<Seq<char>>
    decreases s.len(),
{
    if s.len() == 0 {
        Seq::empty()
    } else {
        let n = line_len(s);
        proof {
            lemma_line_len_bound(s);
        }
        if n == s.len() {
            seq![s]
        } else {
            seq![strip_cr(s.take(n as int))] + lines(s.skip(n as int + 1))
        }
    }
}

fn copy_range(s: &Vec<char>, i: usize, j: usize) -> (r: Vec<char>)
    requires
        i <= j <= s@.len(),
    ensures
        r@ == s@.subrange(i as int, j as int),
{
    let mut r: Vec<char> = Vec::new();
    let mut k = i;
    while k < j
        invariant
            i <= k <= j <= s@.len(),
            r@ == s@.subrange(i as int, k as int),
        decreases j - k,
    {
        r.push(s[k]);
        assert(s@.subrange(i as int, k + 1) =~= s@.subrange(i as int, k as int).push(s@[k as int]));
        k = k + 1;
    }
    r
}

/// The lines of a character vector.
pub fn split_lines(s: &Vec<char>) -> (ls: Vec<Vec<char>>)
    ensures
        views(ls@) == lines(s@),
{
    let mut ls: Vec<Vec<char>> = Vec::new();
    let mut i: usize = 0;
    assert(s@.skip(0) =~= s@);
    while i < s.len()
        invariant
            i <= s@.len(),
            views(ls@) + lines(s@.skip(i as int)) == lines(s@),
        decreases s.len() - i,
    {
        let mut j = i;
        while j < s.len() && s[j] != '\n'
            invariant
                i <= j <= s@.len(),
                forall|k: int| i <= k < j ==> #[trigger] s@[k] != '\n',
            decreases s.len() - j,
        {
            j = j + 1;
        }
        proof {
            lemma_line_len_run(s@, i as int, j as int);
        }
        let ghost rest = s@.skip(i as int);
        let ghost old_v = views(ls@);
        if j == s.len() {
            let line = copy_range(s, i, j);
            proof {
                assert(line@ =~= rest);
                assert(lines(rest) == seq![rest]);
                assert(views(ls@.push(line)) =~= old_v.push(line@));
                assert(s@.skip(j as int) =~= Seq::<char>::empty());
                assert(old_v.push(line@) + lines(s@.skip(j as int)) =~= old_v + lines(rest));
            }
            ls.push(line);
            i = j;
        } else {
            let end = if j > i && s[j - 1] == '\r' { j - 1 } else { j };
            let line = copy_range(s, i, end);
            proof {
                assert(rest.take(j - i) =~= s@.subrange(i as int, j as int));
                assert(line@ =~= strip_cr(rest.take(j - i)));
                assert(rest.skip(j - i + 1) =~= s@.skip(j + 1));
                assert(lines(rest) == seq![strip_cr(rest.take(j - i))] + lines(rest.skip(j - i + 1)));
                assert(views(ls@.push(line)) =~= old_v.push(line@));
                assert(old_v.push(line@) + lines(s@.skip(j + 1)) =~= old_v + lines(rest));
            }
            ls.push(line);
            i = j + 1;
        }
    }
    proof {
        assert(s@.skip(i as int) =~= Seq::<char>::empty());
        assert(views(ls@) + lines(s@.skip(i as int)) =~= views(ls@));
    }
    ls
}

/// Whether `s` starts with `p`.
pub open spec fn starts_with(s: Seq<char>, p: Seq<char>) -> bool {
    p.len() <= s.len() && s.take(p.len() as int) == p
}

/// Executable prefix test.
pub fn has_prefix(s: &Vec<char>, p: &str) -> (r: bool)
    ensures
        r == starts_with(s@, p@),
{
    let q = chars_of(p);
    if q.len() > s.len() {
        return false;
    }
    let mut i: usize = 0;
    while i < q.len()
        invariant
            q@ == p@,
            q@.len() <= s@.len(),
            i <= q@.len(),
            forall|k: int| 0 <= k < i ==> s@[k] == q@[k],
        decreases q.len() - i,
    {
        if s[i] != q[i] {
            assert(s@.take(q@.len() as int)[i as int] != q@[i as int]);
            assert(s@.take(q@.len() as int) != q@);
            return false;
        }
        i = i + 1;
    }
    assert(s@.take(q@.len() as int) =~= q@);
    true
}

/// Whether a character vector spells exactly the given literal.
pub fn chars_are(s: &Vec<char>, p: &str) -> (r: bool)
    ensures
        r == (s@ == p@),
{
    let p = chars_of(p);
    chars_equal(s, &p)
}

/// Text without leading white space.
pub open spec fn trim_start(s: Seq<char>) -> Seq<char>
    decreases s.len(),
{
    if s.len() > 0 && is_whitespace(s[0]) {
        trim_start(s.drop_first())
    } else {
        s
    }
}

/// Text without trailing white space.
pub open spec fn trim_end(s: Seq<char>) -> Seq<char>
    decreases s.len(),
{
    if s.len() > 0 && is_whitespace(s.last()) {
        trim_end(s.drop_last())
    } else {
        s
    }
}

/// Text without leading and trailing white space (`str::trim`).
pub open spec fn trim(s: Seq<char>) -> Seq<char> {
    trim_end(trim_start(s))
}

proof fn lemma_trim_start_at(s: Seq<char>, i: int)
    requires
        0 <= i <= s.len(),
        forall|k: int| 0 <= k < i ==> is_whitespace(#[trigger] s[k]),
    ensures
        trim_start(s) == trim_start(s.skip(i)),
    decreases i,
{
    if i > 0 {
        assert(s.drop_first().skip(i - 1) =~= s.skip(i));
        assert forall|k: int| 0 <= k < i - 1 implies is_whitespace(#[trigger] s.drop_first()[k]) by {
            assert(s.drop_first()[k] == s[k + 1]);
        }
        lemma_trim_start_at(s.drop_first(), i - 1);
    } else {
        assert(s.skip(0) =~= s);
    }
}

proof fn lemma_trim_end_at(s: Seq<char>, j: int)
    requires
        0 <= j <= s.len(),
        forall|k: int| j <= k < s.len() ==> is_whitespace(#[trigger] s[k]),
    ensures
        trim_end(s) == trim_end(s.take(j)),
    decreases s.len() - j,
{
    if j < s.len() {
        assert(s.drop_last().take(j) =~= s.take(j));
        lemma_trim_end_at(s.drop_last(), j);
    } else {
        assert(s.take(j) =~= s);
    }
}

/// The trimmed characters of `s[start..end]`.
pub fn trimmed(s: &Vec<char>, start: usize, end: usize) -> (r: Vec<char>)
    requires
        start <= end <= s@.len(),
    ensures
        r@ == trim(s@.subrange(start as int, end as int)),
{
    let ghost t = s@.subrange(start as int, end as int);
    let mut i = start;
    while i < end && whitespace(s[i])
        invariant
            start <= i <= end <= s@.len(),
            t == s@.subrange(start as int, end as int),
            forall|k: int| start <= k < i ==> is_whitespace(#[trigger] s@[k]),
        decreases end - i,
    {
        i = i + 1;
    }
    proof {
        assert forall|k: int| 0 <= k < i - start implies is_whitespace(#[trigger] t[k]) by {
            assert(t[k] == s@[start + k]);
        }
        lemma_trim_start_at(t, i - start);
        let u = t.skip(i - start);
        assert(u =~= s@.subrange(i as int, end as int));
        if i < end {
            assert(!is_whitespace(u[0]));
        } else {
            assert(u.len() == 0);
        }
        assert(trim_start(u) == u);
    }
    let mut j = end;
    while j > i && whitespace(s[j - 1])
        invariant
            start <= i <= j <= end <= s@.len(),
            forall|k: int| j <= k < end ==> is_whitespace(#[trigger] s@[k]),
        decreases j - i,
    {
        j = j - 1;
    }
    proof {
        let u = s@.subrange(i as int, end as int);
        assert forall|k: int| j - i <= k < u.len() implies is_whitespace(#[trigger] u[k]) by {
            assert(u[k] == s@[i + k]);
        }
        lemma_trim_end_at(u, j - i);
        let v = u.take(j - i);
        assert(v =~= s@.subrange(i as int, j as int));
        if j > i {
            assert(!is_whitespace(v.last()));
        }
        assert(trim_end(v) == v);
    }
    copy_range(s, i, j)
}

} // verus!

verus! {

/// An ASCII decimal digit.
pub open spec fn is_digit(c: char) -> bool {
    '0' <= c <= '9'
}

/// The value of an ASCII decimal digit.
pub open spec fn digit_value(c: char) -> nat {
    (c as u32 - '0' as u32) as nat
}

/// The value of a digit string read in base ten.
pub open spec fn digits_value(d: Seq<char>) -> nat
    decreases d.len(),
{
    if d.len() == 0 {
        0
    } else {
        digits_value(d.drop_last()) * 10 + digit_value(d.last())
    }
}

/// The digits after an optional leading `+`.
pub open spec fn unsigned_digits(t: Seq<char>) -> Seq<char> {
    if t.len() > 0 && t[0] == '+' {
        t.drop_first()
    } else {
        t
    }
}

/// `u64::from_str`: an optional `+`, then one or more ASCII digits whose value fits.
pub open spec fn parse_u64(t: Seq<char>) -> Option<u64> {
    let d = unsigned_digits(t);
    if d.len() > 0 && (forall|i: int| 0 <= i < d.len() ==> is_digit(#[trigger] d[i]))
        && digits_value(d) <= u64::MAX {
        Some(digits_value(d) as u64)
    } else {
        None
    }
}

proof fn lemma_digits_prefix_monotone(d: Seq<char>, k: int)
    requires
        0 <= k <= d.len(),
    ensures
        digits_value(d.take(k)) <= digits_value(d),
    decreases d.len() - k,
{
    if k < d.len() {
        lemma_digits_prefix_monotone(d.drop_last(), k);
        assert(d.drop_last().take(k) =~= d.take(k));
    } else {
        assert(d.take(k) =~= d);
    }
}

/// Parse one token as `u64::from_str` does.
pub fn parse_u64_token(t: &Vec<char>) -> (r: Option<u64>)
    ensures
        r == parse_u64(t@),
{
    let start: usize = if t.len() > 0 && t[0] == '+' { 1 } else { 0 };
    let ghost d = unsigned_digits(t@);
    assert(d =~= t@.skip(start as int));
    if start >= t.len() {
        return None;
    }
    let mut value: u64 = 0;
    let mut i = start;
    while i < t.len()
        invariant
            start <= i <= t@.len(),
            d == unsigned_digits(t@),
            d =~= t@.skip(start as int),
            forall|k: int| 0 <= k < i - start ==> is_digit(#[trigger] d[k]),
            value as nat == digits_value(d.take(i - start)),
        decreases t.len() - i,
    {
        let c = t[i];
        if c < '0' || c > '9' {
            assert(!is_digit(d[i - start]));
            return None;
        }
        let dv = (c as u32 - '0' as u32) as u64;
        proof {
            assert(d.take(i - start + 1).drop_last() =~= d.take(i - start));
            assert(d.take(i - start + 1).last() == c);
        }
        let next = match value.checked_mul(10) {
            Some(m) => m.checked_add(dv),
            None => None,
        };
        match next {
            Some(n) => {
                value = n;
            },
            None => {
                proof {
                    if forall|k: int| 0 <= k < d.len() ==> is_digit(#[trigger] d[k]) {
                        lemma_digits_prefix_monotone(d, i - start + 1);
                    }
                }
                return None;
            },
        }
        i = i + 1;
    }
    assert(d.take(i - start) =~= d);
    Some(value)
}

} // verus!
