//! Removal of terminal escape sequences and control characters from raw HTML
//! before it reaches the terminal.

use vstd::prelude::*;
use vstd::std_specs::iter::IteratorSpec;

verus! {

/// The escape character that starts a terminal escape sequence.
pub open spec fn esc() -> char {
    '\u{1b}'
}

/// The control characters that are dropped: every C0 control character but
/// tab, line feed and carriage return (an escape starts a sequence, which is
/// dropped as a whole), DEL, and every C1 control character.
pub open spec fn is_dropped_control(c: char) -> bool {
    ||| (c <= '\u{1f}' && c != '\t' && c != '\n' && c != '\r')
    ||| ('\u{7f}' <= c && c <= '\u{9f}')
}

/// A character that ends a control sequence (`ESC [ ... final`): an ASCII
/// letter, `@` or `~`.
pub open spec fn ends_csi(c: char) -> bool {
    ('a' <= c && c <= 'z') || ('A' <= c && c <= 'Z') || c == '@' || c == '~'
}

/// How many characters of `t` a control sequence body takes: up to and
/// including the first character that ends it, or all of `t`.
pub open spec fn csi_len(t: Seq<char>) -> nat
    decreases t.len(),
{
    if t.len() == 0 {
        0
    } else if ends_csi(t[0]) {
        1
    } else {
        1 + csi_len(t.drop_first())
    }
}

/// How many characters of `t` an operating system command body takes: up to
/// and including the first BEL, or the first `\` right after an escape
/// character (`prev` is the character before `t`), or all of `t`.
pub open spec fn osc_len(t: Seq<char>, prev: char) -> nat
    decreases t.len(),
{
    if t.len() == 0 {
        0
    } else if t[0] == '\u{7}' || (t[0] == '\\' && prev == esc()) {
        1
    } else {
        1 + osc_len(t.drop_first(), t[0])
    }
}

pub proof fn lemma_csi_len_bound(t: Seq<char>)
    ensures
        csi_len(t) <= t.len(),
    decreases t.len(),
{
    if t.len() > 0 {
        lemma_csi_len_bound(t.drop_first());
    }
}

pub proof fn lemma_osc_len_bound(t: Seq<char>, prev: char)
    ensures
        osc_len(t, prev) <= t.len(),
    decreases t.len(),
{
    if t.len() > 0 {
        lemma_osc_len_bound(t.drop_first(), t[0]);
    }
}

/// `s` with terminal escape sequences and dropped control characters removed:
/// an escape followed by `[` loses its control sequence, one followed by `]`
/// its operating system command, one followed by anything else that one
/// character, and a lone escape at the end goes too.
pub open spec fn stripped(s: Seq<char>) -> Seq<char>
    decreases s.len(),
{
    if s.len() == 0 {
        Seq::empty()
    } else if s[0] == esc() {
        if s.len() == 1 {
            Seq::empty()
        } else if s[1] == '[' {
            proof {
                lemma_csi_len_bound(s.skip(2));
            }
            stripped(s.skip(2 + csi_len(s.skip(2)) as int))
        } else if s[1] == ']' {
            proof {
                lemma_osc_len_bound(s.skip(2), ' ');
            }
            stripped(s.skip(2 + osc_len(s.skip(2), ' ') as int))
        } else {
            stripped(s.skip(2))
        }
    } else if is_dropped_control(s[0]) {
        stripped(s.drop_first())
    } else {
        seq![s[0]].add(stripped(s.drop_first()))
    }
}

fn is_csi_final(c: char) -> (r: bool)
    ensures
        r == ends_csi(c),
{
    ('a' <= c && c <= 'z') || ('A' <= c && c <= 'Z') || c == '@' || c == '~'
}

fn is_dropped(c: char) -> (r: bool)
    ensures
        r == is_dropped_control(c),
{
    (c <= '\u{1f}' && c != '\t' && c != '\n' && c != '\r') || ('\u{7f}' <= c && c <= '\u{9f}')
}

/// The index just past the control sequence body that starts at `from`.
fn csi_end(s: &[char], from: usize) -> (j: usize)
    requires
        from <= s@.len(),
    ensures
        j == from + csi_len(s@.skip(from as int)),
        j <= s@.len(),
{
    let n = s.len();
    let mut j = from;
    assert(s@.skip(from as int).skip(0) =~= s@.skip(from as int));
    while j < n
        invariant
            n == s@.len(),
            from <= j <= n,
            csi_len(s@.skip(from as int)) == (j - from) + csi_len(s@.skip(j as int)),
        decreases n - j,
    {
        let c = s[j];
        assert(s@.skip(j as int)[0] == c);
        if is_csi_final(c) {
            return j + 1;
        }
        assert(s@.skip(j as int).drop_first() =~= s@.skip(j + 1));
        j = j + 1;
    }
    assert(s@.skip(j as int).len() == 0);
    j
}

/// The index just past the operating system command body that starts at
/// `from`.
fn osc_end(s: &[char], from: usize) -> (j: usize)
    requires
        from <= s@.len(),
    ensures
        j == from + osc_len(s@.skip(from as int), ' '),
        j <= s@.len(),
{
    let n = s.len();
    let mut j = from;
    let mut prev = ' ';
    while j < n
        invariant
            n == s@.len(),
            from <= j <= n,
            osc_len(s@.skip(from as int), ' ') == (j - from) + osc_len(s@.skip(j as int), prev),
        decreases n - j,
    {
        let c = s[j];
        assert(s@.skip(j as int)[0] == c);
        if c == '\u{7}' || (c == '\\' && prev == '\u{1b}') {
            return j + 1;
        }
        assert(s@.skip(j as int).drop_first() =~= s@.skip(j + 1));
        prev = c;
        j = j + 1;
    }
    assert(s@.skip(j as int).len() == 0);
    j
}

/// The characters of `s` with terminal escape sequences and dropped control
/// characters removed.
pub fn strip_escapes(s: &[char]) -> (r: Vec<char>)
    ensures
        r@ == stripped(s@),
{
    let n = s.len();
    let mut out: Vec<char> = Vec::new();
    let mut i: usize = 0;
    assert(s@.skip(0) =~= s@);
    while i < n
        invariant
            n == s@.len(),
            i <= n,
            stripped(s@) == out@ + stripped(s@.skip(i as int)),
        decreases n - i,
    {
        let ghost t = s@.skip(i as int);
        let c = s[i];
        assert(t[0] == c);
        if c == '\u{1b}' {
            if i + 1 < n {
                let next = s[i + 1];
                assert(t[1] == next);
                assert(t.skip(2) =~= s@.skip(i + 2));
                if next == '[' {
                    let j = csi_end(s, i + 2);
                    assert(t.skip(2 + csi_len(t.skip(2)) as int) =~= s@.skip(j as int));
                    i = j;
                } else if next == ']' {
                    let j = osc_end(s, i + 2);
                    assert(t.skip(2 + osc_len(t.skip(2), ' ') as int) =~= s@.skip(j as int));
                    i = j;
                } else {
                    i = i + 2;
                }
            } else {
                assert(s@.skip(n as int).len() == 0);
                i = n;
            }
        } else if is_dropped(c) {
            assert(t.drop_first() =~= s@.skip(i + 1));
            i = i + 1;
        } else {
            assert(t.drop_first() =~= s@.skip(i + 1));
            out.push(c);
            i = i + 1;
        }
    }
    assert(s@.skip(n as int).len() == 0);
    out
}

/// Whether `s` holds neither an escape character nor a dropped control
/// character.
pub open spec fn is_terminal_safe(s: Seq<char>) -> bool {
    forall|i: int| 0 <= i < s.len() ==> #[trigger] s[i] != esc() && !is_dropped_control(s[i])
}

/// What is left after stripping is safe for the terminal: no escape character
/// and no dropped control character survives.
pub proof fn law_stripped_is_terminal_safe(s: Seq<char>)
    ensures
        is_terminal_safe(stripped(s)),
    decreases s.len(),
{
    if s.len() > 0 {
        if s[0] == esc() {
            if s.len() > 1 {
                if s[1] == '[' {
                    lemma_csi_len_bound(s.skip(2));
                    law_stripped_is_terminal_safe(s.skip(2 + csi_len(s.skip(2)) as int));
                } else if s[1] == ']' {
                    lemma_osc_len_bound(s.skip(2), ' ');
                    law_stripped_is_terminal_safe(s.skip(2 + osc_len(s.skip(2), ' ') as int));
                } else {
                    law_stripped_is_terminal_safe(s.skip(2));
                }
            }
        } else {
            law_stripped_is_terminal_safe(s.drop_first());
            let rest = stripped(s.drop_first());
            if !is_dropped_control(s[0]) {
                assert forall|i: int| 0 <= i < rest.len() + 1 implies #[trigger] seq![s[0]].add(
                    rest,
                )[i] != esc() && !is_dropped_control(seq![s[0]].add(rest)[i]) by {
                    if i > 0 {
                        assert(seq![s[0]].add(rest)[i] == rest[i - 1]);
                    }
                }
            }
        }
    }
}

/// Text that is already safe for the terminal passes through unchanged.
pub proof fn law_terminal_safe_unchanged(s: Seq<char>)
    requires
        is_terminal_safe(s),
    ensures
        stripped(s) == s,
    decreases s.len(),
{
    if s.len() > 0 {
        assert(s[0] != esc() && !is_dropped_control(s[0]));
        let t = s.drop_first();
        assert forall|i: int| 0 <= i < t.len() implies #[trigger] t[i] != esc()
            && !is_dropped_control(t[i]) by {
            assert(t[i] == s[i + 1]);
        }
        law_terminal_safe_unchanged(t);
        assert(seq![s[0]].add(t) =~= s);
    }
}

/// Stripping twice strips no more than stripping once.
pub proof fn law_strip_idempotent(s: Seq<char>)
    ensures
        stripped(stripped(s)) == stripped(s),
{
    law_stripped_is_terminal_safe(s);
    law_terminal_safe_unchanged(stripped(s));
}

/// Stripping never lengthens the text.
pub proof fn law_stripped_not_longer(s: Seq<char>)
    ensures
        stripped(s).len() <= s.len(),
    decreases s.len(),
{
    if s.len() > 0 {
        if s[0] == esc() {
            if s.len() > 1 {
                if s[1] == '[' {
                    lemma_csi_len_bound(s.skip(2));
                    law_stripped_not_longer(s.skip(2 + csi_len(s.skip(2)) as int));
                } else if s[1] == ']' {
                    lemma_osc_len_bound(s.skip(2), ' ');
                    law_stripped_not_longer(s.skip(2 + osc_len(s.skip(2), ' ') as int));
                } else {
                    law_stripped_not_longer(s.skip(2));
                }
            }
        } else {
            law_stripped_not_longer(s.drop_first());
        }
    }
}

/// The characters of `s`, in order.
pub fn str_chars(s: &str) -> (r: Vec<char>)
    ensures
        r@ == s@,
{
    broadcast use vstd::string::group_string_axioms;
    let mut r: Vec<char> = Vec::new();
    let mut it = s.chars();
    loop
        invariant
            r@ + it.remaining() == s@,
            it.decrease() is Some,
        ensures
            r@ == s@,
        decreases it.decrease()->0,
    {
        match it.next() {
            Some(c) => {
                assert(r@.push(c) + it.remaining() =~= r@ + seq![c].add(it.remaining()));
                r.push(c);
            },
            None => {
                assert(r@ =~= s@);
                break ;
            },
        }
    }
    r
}

/// Strips terminal escape sequences and other terminal control characters
/// from `s`, so that raw HTML in Markdown cannot drive the terminal.
pub fn strip_terminal_escapes(s: &str) -> (r: String)
    ensures
        r@ == stripped(s@),
{
    let chars = str_chars(s);
    let kept = strip_escapes(&chars);
    string_from_chars(&kept)
}

/// `String::from_iter` over the characters of `v`: a string holding exactly
/// those characters, in order.
#[verifier::external_body]
pub(crate) fn string_from_chars(v: &[char]) -> (r: String)
    ensures
        r@ == v@,
{
    String::from_iter(v)
}

} // verus!
