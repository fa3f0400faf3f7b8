//! Character-level helpers on sequences of `char`: Unicode white space,
//! trimming, the first word of a string, line splitting, repetition and
//! decimal digits.

use vstd::prelude::*;

verus! {

/// The characters with the Unicode `White_Space` property, which is what
/// `char::is_whitespace`, `str::trim` and `str::split_whitespace` go by.
pub open spec fn is_white_space(c: char) -> bool {
    ||| ('\u{9}' <= c && c <= '\u{d}')
    ||| c == ' '
    ||| c == '\u{85}'
    ||| c == '\u{a0}'
    ||| c == '\u{1680}'
    ||| ('\u{2000}' <= c && c <= '\u{200a}')
    ||| c == '\u{2028}'
    ||| c == '\u{2029}'
    ||| c == '\u{202f}'
    ||| c == '\u{205f}'
    ||| c == '\u{3000}'
}

/// `s` with its leading white space removed.
pub open spec fn trim_start(s: Seq<char>) -> Seq<char>
    decreases s.len(),
{
    if s.len() > 0 && is_white_space(s[0]) {
        trim_start(s.drop_first())
    } else {
        s
    }
}

/// `s` with its trailing white space removed.
pub open spec fn trim_end(s: Seq<char>) -> Seq<char>
    decreases s.len(),
{
    if s.len() > 0 && is_white_space(s.last()) {
        trim_end(s.drop_last())
    } else {
        s
    }
}

/// `s` with white space removed at both ends (`str::trim`).
pub open spec fn trim(s: Seq<char>) -> Seq<char> {
    trim_end(trim_start(s))
}

/// The longest prefix of `s` that holds no white space.
pub open spec fn leading_word(s: Seq<char>) -> Seq<char>
    decreases s.len(),
{
    if s.len() > 0 && !is_white_space(s[0]) {
        seq![s[0]].add(leading_word(s.drop_first()))
    } else {
        Seq::empty()
    }
}

/// The first white-space separated word of `s`, empty when `s` has none
/// (`s.split_whitespace().next().unwrap_or("")`).
pub open spec fn first_word(s: Seq<char>) -> Seq<char> {
    leading_word(trim_start(s))
}

/// `n` copies of `c`.
pub open spec fn repeat(c: char, n: nat) -> Seq<char> {
    Seq::new(n, |_i: int| c)
}

/// Whether the last character of `s` is white space (false for an empty `s`).
pub open spec fn ends_with_white_space(s: Seq<char>) -> bool {
    s.len() > 0 && is_white_space(s.last())
}

/// The decimal digit for `d < 10`.
pub open spec fn digit_char(d: nat) -> char {
    if d == 0 {
        '0'
    } else if d == 1 {
        '1'
    } else if d == 2 {
        '2'
    } else if d == 3 {
        '3'
    } else if d == 4 {
        '4'
    } else if d == 5 {
        '5'
    } else if d == 6 {
        '6'
    } else if d == 7 {
        '7'
    } else if d == 8 {
        '8'
    } else {
        '9'
    }
}

/// The decimal notation of `n`, without leading zeros.
pub open spec fn decimal(n: nat) -> Seq<char>
    decreases n,
{
    if n < 10 {
        seq![digit_char(n)]
    } else {
        decimal(n / 10).push(digit_char(n % 10))
    }
}

/// The number of characters before the first `'\n'` of `s` (all of `s` when
/// it holds none).
pub open spec fn line_end(s: Seq<char>) -> nat
    decreases s.len(),
{
    if s.len() == 0 || s[0] == '\n' {
        0
    } else {
        1 + line_end(s.drop_first())
    }
}

/// `l` without one trailing carriage return.
pub open spec fn strip_cr(l: Seq<char>) -> Seq<char> {
    if l.len() > 0 && l.last() == '\r' {
        l.drop_last()
    } else {
        l
    }
}

/// The lines of `s` as `str::lines` yields them: split after each `'\n'`, a
/// line ending `"\r\n"` or `"\n"` removed, and no empty last line after a
/// final line ending.
pub open spec fn lines(s: Seq<char>) -> Seq<Seq<char>>
    decreases s.len(),
{
    if s.len() == 0 {
        Seq::empty()
    } else if line_end(s) >= s.len() {
        seq![s]
    } else {
        seq![strip_cr(s.take(line_end(s) as int))].add(lines(s.skip(line_end(s) + 1 as int)))
    }
}

/// Each line of `ls` behind `prefix` and followed by `'\n'`, one after another.
pub open spec fn prefixed_lines(ls: Seq<Seq<char>>, prefix: Seq<char>) -> Seq<char>
    decreases ls.len(),
{
    if ls.len() == 0 {
        Seq::empty()
    } else {
        prefix.add(ls[0]).push('\n').add(prefixed_lines(ls.drop_first(), prefix))
    }
}

/// Whether `c` is Unicode white space.
pub fn is_whitespace(c: char) -> (r: bool)
    ensures
        r == is_white_space(c),
{
    ('\u{9}' <= c && c <= '\u{d}') || c == ' ' || c == '\u{85}' || c == '\u{a0}' || c
        == '\u{1680}' || ('\u{2000}' <= c && c <= '\u{200a}') || c == '\u{2028}' || c
        == '\u{2029}' || c == '\u{202f}' || c == '\u{205f}' || c == '\u{3000}'
}

/// Appends the characters of `s` to `out`.
pub fn push_chars(out: &mut Vec<char>, s: &[char])
    ensures
        final(out)@ == old(out)@ + s@,
{
    let n = s.len();
    let mut i: usize = 0;
    while i < n
        invariant
            n == s@.len(),
            i <= n,
            out@ == old(out)@ + s@.take(i as int),
        decreases n - i,
    {
        out.push(s[i]);
        i = i + 1;
        assert(s@.take(i as int) =~= s@.take(i - 1).push(s@[i - 1]));
    }
    assert(s@.take(n as int) =~= s@);
}

/// Appends `n` copies of `c` to `out`.
pub fn push_repeat(out: &mut Vec<char>, c: char, n: usize)
    ensures
        final(out)@ == old(out)@ + repeat(c, n as nat),
{
    let mut i: usize = 0;
    while i < n
        invariant
            i <= n,
            out@ == old(out)@ + repeat(c, i as nat),
        decreases n - i,
    {
        out.push(c);
        i = i + 1;
        assert(repeat(c, i as nat) =~= repeat(c, (i - 1) as nat).push(c));
    }
}

/// The decimal digit for `d`.
fn digit(d: usize) -> (c: char)
    requires
        d < 10,
    ensures
        c == digit_char(d as nat),
{
    if d == 0 {
        '0'
    } else if d == 1 {
        '1'
    } else if d == 2 {
        '2'
    } else if d == 3 {
        '3'
    } else if d == 4 {
        '4'
    } else if d == 5 {
        '5'
    } else if d == 6 {
        '6'
    } else if d == 7 {
        '7'
    } else if d == 8 {
        '8'
    } else {
        '9'
    }
}

/// Appends the decimal notation of `n` to `out`.
pub fn push_decimal(out: &mut Vec<char>, n: usize)
    ensures
        final(out)@ == old(out)@ + decimal(n as nat),
    decreases n,
{
    if n >= 10 {
        push_decimal(out, n / 10);
    }
    out.push(digit(n % 10));
}

/// Whether the last character of `s` is white space.
pub fn ends_with_whitespace(s: &[char]) -> (r: bool)
    ensures
        r == ends_with_white_space(s@),
{
    if s.len() == 0 {
        false
    } else {
        is_whitespace(s[s.len() - 1])
    }
}

/// Where the white space at the front of `s` ends, the rest of `s` is what
/// `trim_start` leaves.
pub proof fn lemma_trim_start(s: Seq<char>, a: int)
    requires
        0 <= a <= s.len(),
        forall|i: int| 0 <= i < a ==> is_white_space(#[trigger] s[i]),
        a == s.len() || !is_white_space(s[a]),
    ensures
        trim_start(s) == s.skip(a),
    decreases a,
{
    if a == 0 {
        assert(s.skip(0) =~= s);
    } else {
        let t = s.drop_first();
        assert forall|i: int| 0 <= i < a - 1 implies is_white_space(#[trigger] t[i]) by {
            assert(t[i] == s[i + 1]);
        }
        lemma_trim_start(t, a - 1);
        assert(t.skip(a - 1) =~= s.skip(a));
    }
}

/// Where the white space at the back of `s` begins, the part of `s` before it
/// is what `trim_end` leaves.
pub proof fn lemma_trim_end(s: Seq<char>, b: int)
    requires
        0 <= b <= s.len(),
        forall|i: int| b <= i < s.len() ==> is_white_space(#[trigger] s[i]),
        b == 0 || !is_white_space(s[b - 1]),
    ensures
        trim_end(s) == s.take(b),
    decreases s.len() - b,
{
    if b == s.len() {
        assert(s.take(b) =~= s);
    } else {
        let t = s.drop_last();
        assert forall|i: int| b <= i < t.len() implies is_white_space(#[trigger] t[i]) by {
            assert(t[i] == s[i]);
        }
        lemma_trim_end(t, b);
        assert(t.take(b) =~= s.take(b));
    }
}

/// `trim_start` leaves a suffix of `s`.
pub proof fn lemma_trim_start_suffix(s: Seq<char>)
    ensures
        trim_start(s).len() <= s.len(),
        trim_start(s) == s.skip(s.len() - trim_start(s).len()),
    decreases s.len(),
{
    if s.len() > 0 && is_white_space(s[0]) {
        let t = s.drop_first();
        lemma_trim_start_suffix(t);
        assert(t.skip(t.len() - trim_start(t).len()) =~= s.skip(s.len() - trim_start(t).len()));
    } else {
        assert(s.skip(0) =~= s);
    }
}

/// `trim_end` leaves a prefix of `s`.
pub proof fn lemma_trim_end_prefix(s: Seq<char>)
    ensures
        trim_end(s).len() <= s.len(),
        trim_end(s) == s.take(trim_end(s).len() as int),
    decreases s.len(),
{
    if s.len() > 0 && is_white_space(s.last()) {
        let t = s.drop_last();
        lemma_trim_end_prefix(t);
        assert(t.take(trim_end(t).len() as int) =~= s.take(trim_end(t).len() as int));
    } else {
        assert(s.take(s.len() as int) =~= s);
    }
}

proof fn lemma_leading_word(s: Seq<char>, k: int)
    requires
        0 <= k <= s.len(),
        forall|i: int| 0 <= i < k ==> !is_white_space(#[trigger] s[i]),
        k == s.len() || is_white_space(s[k]),
    ensures
        leading_word(s) == s.take(k),
    decreases k,
{
    if k == 0 {
        assert(s.take(0) =~= Seq::<char>::empty());
    } else {
        let t = s.drop_first();
        assert forall|i: int| 0 <= i < k - 1 implies !is_white_space(#[trigger] t[i]) by {
            assert(t[i] == s[i + 1]);
        }
        lemma_leading_word(t, k - 1);
        assert(seq![s[0]].add(t.take(k - 1)) =~= s.take(k));
    }
}

/// The index of the first character of `s` at or after `from` that is not
/// white space (the length of `s` when there is none).
fn skip_white_space(s: &[char], from: usize) -> (a: usize)
    requires
        from <= s@.len(),
    ensures
        from <= a <= s@.len(),
        forall|i: int| from <= i < a ==> is_white_space(#[trigger] s@[i]),
        a == s@.len() || !is_white_space(s@[a as int]),
{
    let n = s.len();
    let mut a = from;
    while a < n && is_whitespace(s[a])
        invariant
            n == s@.len(),
            from <= a <= n,
            forall|i: int| from <= i < a ==> is_white_space(#[trigger] s@[i]),
        decreases n - a,
    {
        a = a + 1;
    }
    a
}

/// `s` with white space removed at both ends.
pub fn trimmed(s: &[char]) -> (r: Vec<char>)
    ensures
        r@ == trim(s@),
{
    let n = s.len();
    let a = skip_white_space(s, 0);
    let mut b = n;
    while b > a && is_whitespace(s[b - 1])
        invariant
            n == s@.len(),
            a <= b <= n,
            forall|i: int| b <= i < n ==> is_white_space(#[trigger] s@[i]),
        decreases b,
    {
        b = b - 1;
    }
    proof {
        lemma_trim_start(s@, a as int);
        let t = s@.skip(a as int);
        assert forall|i: int| b - a <= i < t.len() implies is_white_space(#[trigger] t[i]) by {
            assert(t[i] == s@[i + a]);
        }
        if b > a {
            assert(t[b - a - 1] == s@[b - 1]);
        }
        lemma_trim_end(t, b - a);
    }
    let mut r: Vec<char> = Vec::new();
    let mut i = a;
    while i < b
        invariant
            n == s@.len(),
            a <= i <= b <= n,
            r@ == s@.subrange(a as int, i as int),
        decreases b - i,
    {
        r.push(s[i]);
        i = i + 1;
        assert(s@.subrange(a as int, i as int) =~= s@.subrange(a as int, i - 1).push(s@[i - 1]));
    }
    assert(s@.skip(a as int).take(b - a) =~= s@.subrange(a as int, b as int));
    r
}

/// The first white-space separated word of `s` (empty when there is none).
pub fn first_word_of(s: &[char]) -> (r: Vec<char>)
    ensures
        r@ == first_word(s@),
{
    let n = s.len();
    let a = skip_white_space(s, 0);
    let mut r: Vec<char> = Vec::new();
    let mut c = a;
    while c < n && !is_whitespace(s[c])
        invariant
            n == s@.len(),
            a <= c <= n,
            forall|i: int| a <= i < c ==> !is_white_space(#[trigger] s@[i]),
            r@ == s@.subrange(a as int, c as int),
        decreases n - c,
    {
        r.push(s[c]);
        c = c + 1;
        assert(s@.subrange(a as int, c as int) =~= s@.subrange(a as int, c - 1).push(s@[c - 1]));
    }
    proof {
        lemma_trim_start(s@, a as int);
        let t = s@.skip(a as int);
        assert forall|i: int| 0 <= i < c - a implies !is_white_space(#[trigger] t[i]) by {
            assert(t[i] == s@[i + a]);
        }
        if c < n {
            assert(t[c - a] == s@[c as int]);
        }
        lemma_leading_word(t, c - a);
        assert(t.take(c - a) =~= s@.subrange(a as int, c as int));
    }
    r
}

proof fn lemma_line_end(s: Seq<char>, k: int)
    requires
        0 <= k <= s.len(),
        forall|i: int| 0 <= i < k ==> #[trigger] s[i] != '\n',
        k == s.len() || s[k] == '\n',
    ensures
        line_end(s) == k,
    decreases k,
{
    if k > 0 {
        let t = s.drop_first();
        assert forall|i: int| 0 <= i < k - 1 implies #[trigger] t[i] != '\n' by {
            assert(t[i] == s[i + 1]);
        }
        lemma_line_end(t, k - 1);
    }
}

/// Appends each line of `s` (as `str::lines` splits it) to `out`, behind
/// `prefix` and followed by a line feed.
pub fn push_prefixed_lines(out: &mut Vec<char>, s: &[char], prefix: &[char])
    ensures
        final(out)@ == old(out)@ + prefixed_lines(lines(s@), prefix@),
{
    let n = s.len();
    let mut start: usize = 0;
    let mut i: usize = 0;
    assert(s@.skip(0) =~= s@);
    while i < n
        invariant
            n == s@.len(),
            start <= i <= n,
            forall|j: int| start <= j < i ==> #[trigger] s@[j] != '\n',
            old(out)@ + prefixed_lines(lines(s@), prefix@) == out@ + prefixed_lines(
                lines(s@.skip(start as int)),
                prefix@,
            ),
        decreases n - i,
    {
        if s[i] == '\n' {
            let ghost t = s@.skip(start as int);
            proof {
                assert forall|j: int| 0 <= j < i - start implies #[trigger] t[j] != '\n' by {
                    assert(t[j] == s@[j + start]);
                }
                assert(t[i - start] == s@[i as int]);
                lemma_line_end(t, i - start);
                assert(t.take(i - start) =~= s@.subrange(start as int, i as int));
                assert(t.skip(i - start + 1) =~= s@.skip(i + 1));
            }
            let mut end = i;
            if end > start && s[end - 1] == '\r' {
                end = end - 1;
            }
            let ghost line = strip_cr(s@.subrange(start as int, i as int));
            assert(line =~= s@.subrange(start as int, end as int));
            let ghost before = out@;
            push_chars(out, prefix);
            push_chars(out, &s[start..end]);
            out.push('\n');
            proof {
                assert(lines(t) =~= seq![line].add(lines(s@.skip(i + 1))));
                assert(lines(t).drop_first() =~= lines(s@.skip(i + 1)));
                assert(out@ =~= before + prefix@.add(line).push('\n'));
            }
            start = i + 1;
        }
        i = i + 1;
    }
    let ghost t = s@.skip(start as int);
    if start < n {
        proof {
            assert forall|j: int| 0 <= j < n - start implies #[trigger] t[j] != '\n' by {
                assert(t[j] == s@[j + start]);
            }
            lemma_line_end(t, n - start);
            assert(lines(t) =~= seq![t]);
            assert(lines(t).drop_first() =~= Seq::<Seq<char>>::empty());
            assert(t =~= s@.subrange(start as int, n as int));
            assert(prefixed_lines(Seq::<Seq<char>>::empty(), prefix@) =~= Seq::<char>::empty());
        }
        let ghost before = out@;
        push_chars(out, prefix);
        push_chars(out, &s[start..n]);
        out.push('\n');
        assert(out@ =~= before + prefixed_lines(lines(t), prefix@));
    } else {
        assert(t.len() == 0);
        assert(out@ =~= out@ + prefixed_lines(lines(t), prefix@));
    }
}

} // verus!
