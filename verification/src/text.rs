//! Character and string helpers shared by the chord codec and the
//! extraction pattern: ASCII case folding, whitespace, equality.

use vstd::prelude::*;

verus! {

/// Whitespace as the library understands it: the ASCII space, tab,
/// carriage return and line feed.
pub open spec fn is_space(c: char) -> bool {
    c == ' ' || c == '\t' || c == '\r' || c == '\n'
}

/// ASCII lower-casing of one character; anything outside `A..=Z` is kept.
pub open spec fn lower_char(c: char) -> char {
    if 'A' <= c && c <= 'Z' {
        (((c as u32) + 32) as u8) as char
    } else {
        c
    }
}

/// ASCII lower-casing of a character sequence.
pub open spec fn lower_seq(s: Seq<char>) -> Seq<char> {
    s.map(|_i: int, c: char| lower_char(c))
}

/// Executable ASCII lower-casing of one character.
pub fn to_lower(c: char) -> (r: char)
    ensures
        r == lower_char(c),
{
    let u = c as u32;
    if 65 <= u && u <= 90 {
        ((u + 32) as u8) as char
    } else {
        c
    }
}

/// Executable whitespace test.
pub fn is_space_char(c: char) -> (r: bool)
    ensures
        r == is_space(c),
{
    c == ' ' || c == '\t' || c == '\r' || c == '\n'
}

/// The sequence with leading whitespace removed.
pub open spec fn trim_front(s: Seq<char>) -> Seq<char>
    decreases s.len(),
{
    if s.len() > 0 && is_space(s[0]) {
        trim_front(s.drop_first())
    } else {
        s
    }
}

/// The sequence with trailing whitespace removed.
pub open spec fn trim_back(s: Seq<char>) -> Seq<char>
    decreases s.len(),
{
    if s.len() > 0 && is_space(s.last()) {
        trim_back(s.drop_last())
    } else {
        s
    }
}

/// The sequence with whitespace removed at both ends.
pub open spec fn trim_spec(s: Seq<char>) -> Seq<char> {
    trim_back(trim_front(s))
}

/// Removing leading whitespace keeps exactly the window that starts at the
/// first non-space character.
proof fn lemma_trim_front_window(s: Seq<char>, b: int)
    requires
        0 <= b <= s.len(),
        forall|j: int| 0 <= j < b ==> is_space(s[j]),
        b == s.len() || !is_space(s[b]),
    ensures
        trim_front(s) == s.subrange(b, s.len() as int),
    decreases s.len(),
{
    if b == 0 {
        assert(s.subrange(0, s.len() as int) =~= s);
    } else {
        let t = s.drop_first();
        lemma_trim_front_window(t, b - 1);
        assert(t.subrange(b - 1, t.len() as int) =~= s.subrange(b, s.len() as int));
    }
}

/// Removing trailing whitespace keeps exactly the window that ends after the
/// last non-space character.
proof fn lemma_trim_back_window(s: Seq<char>, e: int)
    requires
        0 <= e <= s.len(),
        forall|j: int| e <= j < s.len() ==> is_space(s[j]),
        e == 0 || !is_space(s[e - 1]),
    ensures
        trim_back(s) == s.subrange(0, e),
    decreases s.len(),
{
    if e == s.len() {
        assert(s.subrange(0, e) =~= s);
    } else {
        let t = s.drop_last();
        lemma_trim_back_window(t, e);
        assert(t.subrange(0, e) =~= s.subrange(0, e));
    }
}

/// The window of `s` that trimming keeps: `trim_spec(s@)` is exactly
/// `s@.subrange(r.0, r.1)`.
pub fn trim_bounds(s: &str) -> (r: (usize, usize))
    ensures
        r.0 <= r.1 <= s@.len(),
        trim_spec(s@) == s@.subrange(r.0 as int, r.1 as int),
{
    let n = s.unicode_len();
    let mut b: usize = 0;
    while b < n && is_space_char(s.get_char(b))
        invariant
            n == s@.len(),
            b <= n,
            forall|j: int| 0 <= j < b ==> is_space(s@[j]),
        decreases n - b,
    {
        b += 1;
    }
    proof {
        lemma_trim_front_window(s@, b as int);
    }
    if b == n {
        proof {
            lemma_trim_back_window(s@.subrange(b as int, n as int), 0);
            assert(s@.subrange(b as int, n as int) =~= s@.subrange(b as int, b as int));
        }
        return (b, b);
    }
    let mut e: usize = n;
    while e > b && is_space_char(s.get_char(e - 1))
        invariant
            n == s@.len(),
            b <= e <= n,
            forall|j: int| e <= j < n ==> is_space(s@[j]),
        decreases e,
    {
        e -= 1;
    }
    proof {
        let w = s@.subrange(b as int, n as int);
        lemma_trim_back_window(w, e - b);
        assert(w.subrange(0, e - b) =~= s@.subrange(b as int, e as int));
    }
    (b, e)
}

/// The segments of `s` between occurrences of the separator, kept verbatim.
/// An empty run is an empty segment; an empty string is one empty segment.
pub open spec fn split_on(s: Seq<char>, sep: char) -> Seq<Seq<char>>
    decreases s.len(),
{
    if s.len() == 0 {
        seq![Seq::<char>::empty()]
    } else if s[0] == sep {
        seq![Seq::<char>::empty()] + split_on(s.drop_first(), sep)
    } else {
        let rest = split_on(s.drop_first(), sep);
        seq![seq![s[0]] + rest[0]] + rest.drop_first()
    }
}

/// A string always splits into at least one segment.
pub proof fn lemma_split_on_len(s: Seq<char>, sep: char)
    ensures
        split_on(s, sep).len() >= 1,
    decreases s.len(),
{
    if s.len() > 0 {
        lemma_split_on_len(s.drop_first(), sep);
    }
}

/// If the first separator of `s` stands at `k` — or `s` holds none and `k`
/// is its length — the split starts with `s[..k]`, followed by the split of
/// what stands after the separator.
proof fn lemma_split_on_head(s: Seq<char>, sep: char, k: int)
    requires
        0 <= k <= s.len(),
        forall|j: int| 0 <= j < k ==> s[j] != sep,
        k == s.len() || s[k] == sep,
    ensures
        k == s.len() ==> split_on(s, sep) == seq![s],
        k < s.len() ==> split_on(s, sep) == seq![s.subrange(0, k)] + split_on(
            s.subrange(k + 1, s.len() as int),
            sep,
        ),
    decreases s.len(),
{
    if s.len() == 0 {
        assert(s =~= Seq::<char>::empty());
        assert(split_on(s, sep) =~= seq![s]);
    } else if k == 0 {
        assert(Seq::<char>::empty() =~= s.subrange(0, 0));
        assert(s.drop_first() =~= s.subrange(1, s.len() as int));
    } else {
        let t = s.drop_first();
        assert(forall|j: int| 0 <= j < k - 1 ==> t[j] == s[j + 1] && t[j] != sep);
        lemma_split_on_head(t, sep, k - 1);
        let rest = split_on(t, sep);
        lemma_split_on_len(t, sep);
        if k == s.len() {
            assert(rest == seq![t]);
            assert(rest[0] == t);
            assert(rest.drop_first() =~= Seq::<Seq<char>>::empty());
            assert(seq![s[0]] + t =~= s);
            assert(split_on(s, sep) =~= seq![s]);
        } else {
            let head = t.subrange(0, k - 1);
            let tail = split_on(t.subrange(k - 1 + 1, t.len() as int), sep);
            assert(rest == seq![head] + tail);
            assert(rest[0] == head);
            assert(rest.drop_first() =~= tail);
            assert(seq![s[0]] + head =~= s.subrange(0, k));
            assert(t.subrange(k, t.len() as int) =~= s.subrange(k + 1, s.len() as int));
            assert(split_on(s, sep) =~= seq![s.subrange(0, k)] + split_on(
                s.subrange(k + 1, s.len() as int),
                sep,
            ));
        }
    }
}

/// Splits a string on a separator character. Segments are kept verbatim.
pub fn split_on_char(s: &str, sep: char) -> (segs: Vec<String>)
    ensures
        segs@.map_values(|t: String| t@) == split_on(s@, sep),
{
    let n = s.unicode_len();
    let mut segs: Vec<String> = Vec::new();
    let mut pos: usize = 0;
    proof {
        assert(s@.subrange(0, n as int) =~= s@);
        assert(segs@.map_values(|t: String| t@) =~= Seq::<Seq<char>>::empty());
    }
    loop
        invariant_except_break
            split_on(s@, sep) == segs@.map_values(|t: String| t@) + split_on(
                s@.subrange(pos as int, n as int),
                sep,
            ),
        invariant
            n == s@.len(),
            pos <= n,
        ensures
            split_on(s@, sep) == segs@.map_values(|t: String| t@),
        decreases n - pos,
    {
        let mut k: usize = pos;
        while k < n && s.get_char(k) != sep
            invariant
                n == s@.len(),
                pos <= k <= n,
                forall|j: int| pos <= j < k ==> s@[j] != sep,
            decreases n - k,
        {
            k += 1;
        }
        let piece = s.substring_char(pos, k).to_owned();
        proof {
            let w = s@.subrange(pos as int, n as int);
            assert(forall|j: int| 0 <= j < k - pos ==> w[j] == s@[j + pos] && w[j] != sep);
            lemma_split_on_head(w, sep, k - pos);
            assert(w.subrange(0, k - pos) =~= s@.subrange(pos as int, k as int));
            if k < n {
                assert(w.subrange(k - pos + 1, w.len() as int) =~= s@.subrange(k + 1, n as int));
            } else {
                assert(w =~= s@.subrange(pos as int, k as int));
            }
        }
        let ghost old_segs = segs@;
        segs.push(piece);
        proof {
            assert(segs@.map_values(|t: String| t@) =~= old_segs.map_values(|t: String| t@)
                + seq![s@.subrange(pos as int, k as int)]);
        }
        if k == n {
            proof {
                assert(split_on(s@.subrange(pos as int, n as int), sep) == seq![
                    s@.subrange(pos as int, k as int),
                ]);
                assert(segs@.map_values(|t: String| t@) == old_segs.map_values(|t: String| t@)
                    + split_on(s@.subrange(pos as int, n as int), sep));
            }
            break;
        }
        pos = k + 1;
    }
    segs
}

/// Exact equality of two string slices, character by character.
pub fn str_eq(a: &str, b: &str) -> (r: bool)
    ensures
        r == (a@ == b@),
{
    let an = a.unicode_len();
    let bn = b.unicode_len();
    if an != bn {
        assert(a@ != b@) by {
            assert(a@.len() != b@.len());
        }
        return false;
    }
    let mut i: usize = 0;
    while i < an
        invariant
            an == a@.len(),
            an == b@.len(),
            i <= an,
            forall|j: int| 0 <= j < i ==> a@[j] == b@[j],
        decreases an - i,
    {
        if a.get_char(i) != b.get_char(i) {
            return false;
        }
        i += 1;
    }
    assert(a@ =~= b@);
    true
}

} // verus!
