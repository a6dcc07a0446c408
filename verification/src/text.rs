//! String building blocks: appending characters and decimal numbers, and
//! searching for a sequence of characters inside another.

use vstd::prelude::*;

verus! {

/// Appends `c` to `s`.
///
/// Calls `String::push`; its contract claims only what the std docs say,
/// that the character is appended at the end.
#[verifier::external_body]
pub(crate) fn push_char(s: &mut String, c: char)
    ensures
        final(s)@ == old(s)@.push(c),
{
    s.push(c);
}

/// Appends `t` to `s`.
pub fn push_str(s: &mut String, t: &str)
    ensures
        final(s)@ == old(s)@ + t@,
{
    s.append(t);
}

/// The decimal digits of `n`, most significant first, without sign or
/// leading zeros (`0` is `"0"`).
pub open spec fn decimal(n: nat) -> Seq<char>
    decreases n,
{
    if n < 10 {
        seq![digit_char(n)]
    } else {
        decimal(n / 10).push(digit_char(n % 10))
    }
}

/// The ASCII digit for `d`.
pub open spec fn digit_char(d: nat) -> char {
    if d == 0 { '0' } else if d == 1 { '1' } else if d == 2 { '2' } else if d == 3 { '3' }
    else if d == 4 { '4' } else if d == 5 { '5' } else if d == 6 { '6' } else if d == 7 { '7' }
    else if d == 8 { '8' } else { '9' }
}

fn digit(d: u64) -> (c: char)
    requires
        d < 10,
    ensures
        c == digit_char(d as nat),
{
    if d == 0 { '0' } else if d == 1 { '1' } else if d == 2 { '2' } else if d == 3 { '3' }
    else if d == 4 { '4' } else if d == 5 { '5' } else if d == 6 { '6' } else if d == 7 { '7' }
    else if d == 8 { '8' } else { '9' }
}

/// Appends the decimal digits of `n` to `s`.
pub fn push_decimal(s: &mut String, n: u64)
    ensures
        final(s)@ == old(s)@ + decimal(n as nat),
    decreases n,
{
    if n < 10 {
        push_char(s, digit(n));
        assert(decimal(n as nat) =~= seq![digit_char(n as nat)]);
    } else {
        push_decimal(s, n / 10);
        push_char(s, digit(n % 10));
        assert(decimal(n as nat) =~= decimal((n / 10) as nat).push(digit_char((n % 10) as nat)));
        assert(final(s)@ =~= old(s)@ + decimal(n as nat));
    }
}


/// The full Unicode lowercase mapping of `s`, as `str::to_lowercase`
/// computes it.
pub uninterp spec fn lowercase(s: Seq<char>) -> Seq<char>;

/// Lowercases `s`.
///
/// Calls `str::to_lowercase`; its contract names the result and claims
/// nothing more (the Unicode mapping is left unsaid).
#[verifier::external_body]
pub(crate) fn to_lowercase(s: &str) -> (r: String)
    ensures
        r@ == lowercase(s@),
{
    s.to_lowercase()
}

/// Whether `needle` occurs in `hay` as a contiguous run.
pub open spec fn contains_seq(hay: Seq<char>, needle: Seq<char>) -> bool {
    exists|i: int| 0 <= i && i + needle.len() <= hay.len() && #[trigger] hay.subrange(i, i + needle.len()) == needle
}

/// Whether `needle` occurs in `hay`.
pub fn contains_str(hay: &str, needle: &str) -> (r: bool)
    ensures
        r == contains_seq(hay@, needle@),
{
    let n = hay.unicode_len();
    let m = needle.unicode_len();
    if m > n {
        proof {
            if contains_seq(hay@, needle@) {
                let i = choose|i: int| 0 <= i && i + needle@.len() <= hay@.len() && #[trigger] hay@.subrange(i, i + needle@.len()) == needle@;
            }
        }
        return false;
    }
    let mut i: usize = 0;
    while i <= n - m
        invariant
            n == hay@.len(),
            m == needle@.len(),
            m <= n,
            i <= n - m + 1,
            forall|j: int| 0 <= j < i ==> (#[trigger] hay@.subrange(j, j + m)) != needle@,
        decreases n - m + 1 - i,
    {
        let mut k: usize = 0;
        while k < m && hay.get_char(i + k) == needle.get_char(k)
            invariant
                n == hay@.len(),
                m == needle@.len(),
                i + m <= n,
                k <= m,
                forall|x: int| 0 <= x < k ==> hay@[i + x] == needle@[x],
            decreases m - k,
        {
            k = k + 1;
        }
        if k == m {
            assert(hay@.subrange(i as int, i + m) =~= needle@);
            return true;
        }
        assert(hay@.subrange(i as int, i + m)[k as int] != needle@[k as int]);
        i = i + 1;
    }
    false
}

/// Whether `s` begins with `p`.
pub open spec fn has_prefix(s: Seq<char>, p: Seq<char>) -> bool {
    p.len() <= s.len() && s.take(p.len() as int) == p
}

/// Whether `s` begins with `p` (as `str::starts_with` with a string).
pub fn starts_with(s: &str, p: &str) -> (r: bool)
    ensures
        r == has_prefix(s@, p@),
{
    let n = s.unicode_len();
    let m = p.unicode_len();
    if m > n {
        return false;
    }
    let mut k: usize = 0;
    while k < m
        invariant
            n == s@.len(),
            m == p@.len(),
            m <= n,
            k <= m,
            forall|x: int| 0 <= x < k ==> s@[x] == p@[x],
        decreases m - k,
    {
        if s.get_char(k) != p.get_char(k) {
            assert(s@.take(m as int)[k as int] != p@[k as int]);
            return false;
        }
        k = k + 1;
    }
    assert(s@.take(m as int) =~= p@);
    true
}

/// `s` without one trailing carriage return.
pub open spec fn strip_cr(s: Seq<char>) -> Seq<char> {
    if s.len() > 0 && s.last() == '\r' { s.drop_last() } else { s }
}

/// The pieces of `s` between newlines, each line that a newline ends
/// without a carriage return before it; a final newline ends the last line
/// rather than starting an empty one, and the empty text has no lines (as
/// `str::lines` splits).
pub open spec fn lines_of(s: Seq<char>) -> Seq<Seq<char>>
    decreases s.len(),
{
    if s.len() == 0 {
        Seq::empty()
    } else {
        let i = first_newline(s, 0);
        if i < s.len() {
            proof {
                lemma_first_newline_bounds(s, 0);
            }
            seq![strip_cr(s.take(i))] + lines_of(s.skip(i + 1))
        } else {
            seq![s]
        }
    }
}

/// The position of the first newline at or after `k`, or the length.
pub open spec fn first_newline(s: Seq<char>, k: int) -> int
    decreases s.len() - k,
{
    if k >= s.len() {
        s.len() as int
    } else if s[k] == '\n' {
        k
    } else {
        first_newline(s, k + 1)
    }
}

/// Where the first newline from `k` lies, and that none precedes it.
pub proof fn lemma_first_newline_bounds(s: Seq<char>, k: int)
    requires
        0 <= k,
    ensures
        k <= first_newline(s, k) || k > s.len(),
        first_newline(s, k) <= s.len(),
        first_newline(s, k) < s.len() ==> s[first_newline(s, k)] == '\n',
        forall|j: int| k <= j < first_newline(s, k) ==> s[j] != '\n',
    decreases s.len() - k,
{
    if k < s.len() && s[k] != '\n' {
        lemma_first_newline_bounds(s, k + 1);
    }
}

proof fn lemma_first_newline_shift(s: Seq<char>, start: int, k: int)
    requires
        0 <= start <= k,
        start <= s.len(),
    ensures
        first_newline(s.skip(start), k - start) == first_newline(s, k) - start,
    decreases s.len() - k,
{
    if k < s.len() && s[k] != '\n' {
        lemma_first_newline_shift(s, start, k + 1);
    }
}

/// Copies `s[from..to]` out, dropping one trailing carriage return when
/// `strip`.
fn line_piece(s: &str, from: usize, to: usize, strip: bool) -> (r: String)
    requires
        from <= to <= s@.len(),
    ensures
        r@ == (if strip { strip_cr(s@.subrange(from as int, to as int)) } else { s@.subrange(from as int, to as int) }),
{
    let end = if strip && to > from && s.get_char(to - 1) == '\r' { to - 1 } else { to };
    let mut out = String::new();
    let mut i = from;
    while i < end
        invariant
            from <= i <= end <= to <= s@.len(),
            out@ == s@.subrange(from as int, i as int),
        decreases end - i,
    {
        push_char(&mut out, s.get_char(i));
        assert(s@.subrange(from as int, i + 1) =~= s@.subrange(from as int, i as int).push(s@[i as int]));
        i = i + 1;
    }
    assert(strip ==> strip_cr(s@.subrange(from as int, to as int)) =~= s@.subrange(from as int, end as int));
    out
}

/// The lines of `s` (see `lines_of`).
pub fn split_lines(s: &str) -> (r: Vec<String>)
    ensures
        r@.map_values(|l: String| l@) == lines_of(s@),
{
    let n = s.unicode_len();
    let mut out: Vec<String> = Vec::new();
    let mut start: usize = 0;
    let mut k: usize = 0;
    proof {
        assert(s@.skip(0) =~= s@);
        assert(out@.map_values(|l: String| l@) + lines_of(s@) =~= lines_of(s@));
    }
    while k < n
        invariant
            n == s@.len(),
            start <= k <= n,
            forall|j: int| start <= j < k ==> s@[j] != '\n',
            out@.map_values(|l: String| l@) + lines_of(s@.skip(start as int)) == lines_of(s@),
        decreases n - k,
    {
        if s.get_char(k) == '\n' {
            proof {
                let rest = s@.skip(start as int);
                lemma_first_newline_bounds(rest, 0);
                lemma_first_newline_shift(s@, start as int, start as int);
                lemma_first_newline_exact(s@, start as int, k as int);
                assert(rest.take(k - start) =~= s@.subrange(start as int, k as int));
                assert(rest.skip(k - start + 1) =~= s@.skip(k + 1));
            }
            let piece = line_piece(s, start, k, true);
            let ghost before = out@;
            out.push(piece);
            proof {
                assert(out@.map_values(|l: String| l@) =~= before.map_values(|l: String| l@).push(piece@));
                let rest = s@.skip(start as int);
                assert(lines_of(rest) =~= seq![piece@] + lines_of(s@.skip(k + 1)));
                assert(out@.map_values(|l: String| l@) + lines_of(s@.skip(k + 1))
                    =~= before.map_values(|l: String| l@) + lines_of(rest));
            }
            start = k + 1;
        }
        k = k + 1;
    }
    if start < n {
        proof {
            let rest = s@.skip(start as int);
            lemma_first_newline_exact(s@, start as int, n as int);
            lemma_first_newline_shift(s@, start as int, start as int);
            assert(rest =~= s@.subrange(start as int, n as int));
        }
        let piece = line_piece(s, start, n, false);
        let ghost before = out@;
        out.push(piece);
        proof {
            assert(out@.map_values(|l: String| l@) =~= before.map_values(|l: String| l@).push(piece@));
        }
    } else {
        proof {
            assert(s@.skip(start as int).len() == 0);
            assert(out@.map_values(|l: String| l@) + Seq::<Seq<char>>::empty() =~= out@.map_values(|l: String| l@));
        }
    }
    out
}

/// With no newline in `s[start..k]` and (when `k` is inside) one at `k`,
/// the first newline from `start` is at `k`.
proof fn lemma_first_newline_exact(s: Seq<char>, start: int, k: int)
    requires
        0 <= start <= k <= s.len(),
        forall|j: int| start <= j < k ==> s[j] != '\n',
        k < s.len() ==> s[k] == '\n',
    ensures
        first_newline(s, start) == k,
    decreases k - start,
{
    if start < k {
        lemma_first_newline_exact(s, start + 1, k);
    }
}

/// A copy of an optional string.
pub fn clone_opt(o: &Option<String>) -> (r: Option<String>)
    ensures
        r == *o,
{
    match o {
        Some(s) => Some(s.clone()),
        None => None,
    }
}

/// Removes the last character of `s`, if any.
pub(crate) fn pop_char(s: &mut String)
    ensures
        final(s)@ == (if old(s)@.len() == 0 { old(s)@ } else { old(s)@.drop_last() }),
{
    let n = s.as_str().unicode_len();
    if n > 0 {
        let t = String::from_str(s.as_str().substring_char(0, n - 1));
        *s = t;
        assert(s@ =~= old(s)@.drop_last());
    }
}
} // verus!
