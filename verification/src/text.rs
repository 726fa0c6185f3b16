//! Verified text helpers: substring containment, decimal rendering of
//! integers, and line splitting, used by the safety filter and by the
//! diagnostic renderer.

use vstd::prelude::*;

verus! {

/// The needle `n` occurs in `h` starting at position `i`.
pub open spec fn match_at(h: Seq<char>, n: Seq<char>, i: int) -> bool {
    &&& 0 <= i
    &&& i + n.len() <= h.len()
    &&& forall|j: int| 0 <= j < n.len() ==> h[i + j] == n[j]
}

/// The needle `n` occurs somewhere in `h`.
pub open spec fn contains_seq(h: Seq<char>, n: Seq<char>) -> bool {
    exists|i: int| match_at(h, n, i)
}

/// Substring containment: true exactly when `needle` occurs in `hay`.
pub fn str_contains(hay: &str, needle: &str) -> (b: bool)
    ensures
        b == contains_seq(hay@, needle@),
{
    let hl = hay.unicode_len();
    let nl = needle.unicode_len();
    if nl > hl {
        return false;
    }
    let mut i: usize = 0;
    while i <= hl - nl
        invariant
            nl <= hl,
            hl == hay@.len(),
            nl == needle@.len(),
            i <= hl - nl + 1,
            forall|k: int| 0 <= k < i ==> !match_at(hay@, needle@, k),
        decreases hl - nl - i + 1,
    {
        let mut j: usize = 0;
        let mut hit = true;
        while j < nl
            invariant
                nl <= hl,
                hl == hay@.len(),
                nl == needle@.len(),
                i + nl <= hl,
                j <= nl,
                hit ==> forall|t: int| 0 <= t < j ==> hay@[i + t] == needle@[t],
                !hit ==> !match_at(hay@, needle@, i as int),
            decreases nl - j,
        {
            if hay.get_char(i + j) != needle.get_char(j) {
                hit = false;
                j = nl;
            } else {
                j = j + 1;
            }
        }
        if hit {
            assert(match_at(hay@, needle@, i as int));
            return true;
        }
        i = i + 1;
    }
    assert forall|k: int| !match_at(hay@, needle@, k) by {
        if 0 <= k && k + needle@.len() <= hay@.len() {
            assert(k < i);
        }
    }
    false
}

/// The decimal digit character for `d`.
pub open spec fn digit_char(d: nat) -> char {
    if d == 0 {
        '0'
    } else if d == 1 {
        '1'
    } else if d == 2 {
        '2'
    } else if d == 3 {
        '3'
    } else if d == 4 {
        '4'
    } else if d == 5 {
        '5'
    } else if d == 6 {
        '6'
    } else if d == 7 {
        '7'
    } else if d == 8 {
        '8'
    } else {
        '9'
    }
}

/// The decimal rendering of `n`, most significant digit first.
pub open spec fn dec_digits(n: nat) -> Seq<char>
    decreases n,
{
    if n < 10 {
        seq![digit_char(n)]
    } else {
        dec_digits(n / 10).push(digit_char(n % 10))
    }
}

/// The one-character string for the decimal digit `d`.
fn digit_str(d: usize) -> (r: &'static str)
    requires
        d < 10,
    ensures
        r@ =~= seq![digit_char(d as nat)],
{
    proof {
        reveal_strlit("0");
        reveal_strlit("1");
        reveal_strlit("2");
        reveal_strlit("3");
        reveal_strlit("4");
        reveal_strlit("5");
        reveal_strlit("6");
        reveal_strlit("7");
        reveal_strlit("8");
        reveal_strlit("9");
    }
    if d == 0 {
        "0"
    } else if d == 1 {
        "1"
    } else if d == 2 {
        "2"
    } else if d == 3 {
        "3"
    } else if d == 4 {
        "4"
    } else if d == 5 {
        "5"
    } else if d == 6 {
        "6"
    } else if d == 7 {
        "7"
    } else if d == 8 {
        "8"
    } else {
        "9"
    }
}

/// Appends the decimal rendering of `n` to `s`.
fn push_decimal(s: &mut String, n: usize)
    ensures
        final(s)@ == old(s)@ + dec_digits(n as nat),
    decreases n,
{
    if n < 10 {
        s.append(digit_str(n));
    } else {
        push_decimal(s, n / 10);
        s.append(digit_str(n % 10));
        assert(final(s)@ =~= old(s)@ + dec_digits(n as nat));
    }
}

/// The decimal rendering of `n` as a fresh string.
pub fn usize_to_string(n: usize) -> (s: String)
    ensures
        s@ == dec_digits(n as nat),
{
    let mut s = String::new();
    push_decimal(&mut s, n);
    assert(s@ =~= dec_digits(n as nat));
    s
}

/// `n` space characters.
pub open spec fn spaces_seq(n: nat) -> Seq<char> {
    Seq::new(n, |i: int| ' ')
}

/// Appends `n` space characters to `s`.
pub fn push_spaces(s: &mut String, n: usize)
    ensures
        final(s)@ == old(s)@ + spaces_seq(n as nat),
{
    let mut k: usize = 0;
    while k < n
        invariant
            k <= n,
            s@ == old(s)@ + spaces_seq(k as nat),
        decreases n - k,
    {
        proof {
            reveal_strlit(" ");
        }
        s.append(" ");
        assert(s@ =~= old(s)@ + spaces_seq((k + 1) as nat));
        k = k + 1;
    }
}

/// The position of the first newline at or after `from`, or the length of
/// `s` when no newline follows.
pub open spec fn first_nl_from(s: Seq<char>, from: int) -> int
    decreases s.len() - from,
{
    if from >= s.len() {
        s.len() as int
    } else if s[from] == '\n' {
        from
    } else {
        first_nl_from(s, from + 1)
    }
}

/// What `first_nl_from` returns: the first newline position, or the length.
pub proof fn lemma_first_nl(s: Seq<char>, from: int)
    requires
        0 <= from <= s.len(),
    ensures
        from <= first_nl_from(s, from) <= s.len(),
        forall|k: int| from <= k < first_nl_from(s, from) ==> s[k] != '\n',
        first_nl_from(s, from) < s.len() ==> s[first_nl_from(s, from)] == '\n',
    decreases s.len() - from,
{
    if from < s.len() && s[from] != '\n' {
        lemma_first_nl(s, from + 1);
    }
}

/// `first_nl_from` is the only position with the newline-free prefix.
pub proof fn lemma_first_nl_unique(s: Seq<char>, from: int, e: int)
    requires
        0 <= from <= e <= s.len(),
        forall|k: int| from <= k < e ==> s[k] != '\n',
        e < s.len() ==> s[e] == '\n',
    ensures
        first_nl_from(s, from) == e,
    decreases e - from,
{
    if from < e {
        lemma_first_nl_unique(s, from + 1, e);
    }
}

/// The lines of `s` from position `from` on: maximal newline-free runs.  A
/// trailing newline does not open a final empty line.
pub open spec fn lines_from(s: Seq<char>, from: int) -> Seq<Seq<char>>
    decreases s.len() - from + 1 via lines_from_dec
{
    if from < 0 || from >= s.len() {
        Seq::empty()
    } else {
        let e = first_nl_from(s, from);
        seq![s.subrange(from, e)] + lines_from(s, e + 1)
    }
}

#[via_fn]
proof fn lines_from_dec(s: Seq<char>, from: int) {
    if 0 <= from < s.len() {
        lemma_first_nl(s, from);
    }
}

/// The lines of `s`, in order.
pub open spec fn lines_of(s: Seq<char>) -> Seq<Seq<char>> {
    lines_from(s, 0)
}

/// The views of a sequence of strings, element for element.
pub open spec fn views_of(vs: Seq<String>) -> Seq<Seq<char>> {
    Seq::new(vs.len(), |i: int| vs[i]@)
}

/// The position of the first newline in `s` at or after `from`, or the
/// character length of `s` when no newline follows.
pub fn find_nl(s: &str, from: usize) -> (e: usize)
    requires
        from <= s@.len(),
    ensures
        e == first_nl_from(s@, from as int),
        from <= e <= s@.len(),
{
    let len = s.unicode_len();
    let mut e = from;
    while e < len
        invariant
            from <= e <= len,
            len == s@.len(),
            forall|k: int| from <= k < e ==> s@[k] != '\n',
        decreases len - e,
    {
        if s.get_char(e) == '\n' {
            proof {
                lemma_first_nl_unique(s@, from as int, e as int);
            }
            return e;
        }
        e = e + 1;
    }
    proof {
        lemma_first_nl_unique(s@, from as int, len as int);
    }
    e
}

/// Splits `s` into its lines, in order.
pub fn split_lines(s: &str) -> (v: Vec<String>)
    ensures
        views_of(v@) == lines_of(s@),
        v@.len() == lines_of(s@).len(),
        forall|i: int| 0 <= i < v@.len() ==> v@[i]@ == lines_of(s@)[i],
{
    let len = s.unicode_len();
    let mut v: Vec<String> = Vec::new();
    let mut from: usize = 0;
    while from < len
        invariant
            from <= len,
            len == s@.len(),
            views_of(v@) + lines_from(s@, from as int) == lines_of(s@),
        decreases len - from,
    {
        let ghost prev = v@;
        let e = find_nl(s, from);
        proof {
            lemma_first_nl(s@, from as int);
        }
        let line = s.substring_char(from, e);
        v.push(String::from_str(line));
        proof {
            assert(views_of(v@) =~= views_of(prev).push(line@));
            assert(lines_from(s@, from as int) == seq![s@.subrange(from as int, e as int)]
                + lines_from(s@, e as int + 1));
            assert(views_of(v@) + lines_from(s@, e as int + 1) =~= lines_of(s@));
        }
        if e < len {
            from = e + 1;
        } else {
            from = len;
            proof {
                assert(views_of(v@) + lines_from(s@, len as int) =~= lines_of(s@));
            }
        }
    }
    proof {
        assert(views_of(v@) =~= views_of(v@) + lines_from(s@, from as int));
        assert(views_of(v@) == lines_of(s@));
    }
    v
}

} // verus!
