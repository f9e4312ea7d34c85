//! The extraction pattern of the state probe.
//!
//! A pattern is a list of literal alternatives separated by `|`. Applied to
//! an indicator label, the first alternative that yields a token wins: the
//! literal must occur in the label (its first occurrence is taken), at least
//! one whitespace character must follow it, and the token is the unbroken
//! run of non-whitespace after that whitespace — the pattern's one capturing
//! group. A pattern with an empty alternative does not compile; that is a
//! configuration error, never a probe-time one.

use vstd::prelude::*;
use crate::error::SwitchError;
use crate::text::{is_space, is_space_char, split_on, split_on_char};

verus! {

/// Whether `lit` occurs in `label` starting at position `p`.
pub open spec fn occurs_at(label: Seq<char>, lit: Seq<char>, p: int) -> bool {
    &&& 0 <= p
    &&& p + lit.len() <= label.len()
    &&& label.subrange(p, p + lit.len() as int) == lit
}

/// The first position at or after `p` where `lit` occurs in `label`.
pub open spec fn first_occurrence_from(label: Seq<char>, lit: Seq<char>, p: int) -> Option<int>
    decreases label.len() - p,
{
    if p < 0 || p + lit.len() > label.len() {
        None
    } else if occurs_at(label, lit, p) {
        Some(p)
    } else if p < label.len() {
        first_occurrence_from(label, lit, p + 1)
    } else {
        None
    }
}

/// The first position where `lit` occurs in `label`, if any.
pub open spec fn first_occurrence(label: Seq<char>, lit: Seq<char>) -> Option<int> {
    first_occurrence_from(label, lit, 0)
}

proof fn lemma_first_occurrence_from_some(label: Seq<char>, lit: Seq<char>, p: int, k: int)
    requires
        0 <= p <= k,
        occurs_at(label, lit, k),
        forall|q: int| p <= q < k ==> !occurs_at(label, lit, q),
    ensures
        first_occurrence_from(label, lit, p) == Some(k),
    decreases k - p,
{
    if p < k {
        lemma_first_occurrence_from_some(label, lit, p + 1, k);
    }
}

proof fn lemma_first_occurrence_from_none(label: Seq<char>, lit: Seq<char>, p: int)
    requires
        0 <= p,
        forall|q: int| p <= q ==> !occurs_at(label, lit, q),
    ensures
        first_occurrence_from(label, lit, p) is None,
    decreases label.len() - p,
{
    if p + lit.len() <= label.len() && p < label.len() {
        lemma_first_occurrence_from_none(label, lit, p + 1);
    }
}

/// The first position at or after `p` holding a non-whitespace character;
/// the label's length when only whitespace remains.
pub open spec fn next_non_space(label: Seq<char>, p: int) -> int
    decreases label.len() - p,
{
    if 0 <= p < label.len() {
        if is_space(label[p]) {
            next_non_space(label, p + 1)
        } else {
            p
        }
    } else {
        label.len() as int
    }
}

/// The first position at or after `p` holding a whitespace character; the
/// label's length when none follows.
pub open spec fn next_space(label: Seq<char>, p: int) -> int
    decreases label.len() - p,
{
    if 0 <= p < label.len() {
        if !is_space(label[p]) {
            next_space(label, p + 1)
        } else {
            p
        }
    } else {
        label.len() as int
    }
}

proof fn lemma_next_non_space_at(label: Seq<char>, q: int, t: int)
    requires
        0 <= q <= t <= label.len(),
        forall|j: int| q <= j < t ==> is_space(label[j]),
        t == label.len() || !is_space(label[t]),
    ensures
        next_non_space(label, q) == t,
    decreases t - q,
{
    if q < t {
        lemma_next_non_space_at(label, q + 1, t);
    }
}

proof fn lemma_next_space_at(label: Seq<char>, q: int, t: int)
    requires
        0 <= q <= t <= label.len(),
        forall|j: int| q <= j < t ==> !is_space(label[j]),
        t == label.len() || is_space(label[t]),
    ensures
        next_space(label, q) == t,
    decreases t - q,
{
    if q < t {
        lemma_next_space_at(label, q + 1, t);
    }
}

/// The token one alternative extracts from a label. After the literal's
/// first occurrence there must stand at least one whitespace character; the
/// token is the following unbroken run of non-whitespace. An occurrence
/// followed by nothing, or by whitespace to the end, yields no token.
pub open spec fn alt_token(label: Seq<char>, lit: Seq<char>) -> Option<Seq<char>> {
    match first_occurrence(label, lit) {
        Option::None => None,
        Option::Some(p) => {
            let q = p + lit.len() as int;
            if q < label.len() && is_space(label[q]) {
                let t0 = next_non_space(label, q);
                let t1 = next_space(label, t0);
                if t0 < label.len() {
                    Some(label.subrange(t0, t1))
                } else {
                    None
                }
            } else {
                None
            }
        },
    }
}

/// The token a pattern extracts from a label: the first alternative that
/// yields a token wins; a label no alternative matches yields none.
pub open spec fn pattern_token(alts: Seq<Seq<char>>, label: Seq<char>) -> Option<Seq<char>>
    decreases alts.len(),
{
    if alts.len() == 0 {
        None
    } else if alt_token(label, alts[0]) is Some {
        alt_token(label, alts[0])
    } else {
        pattern_token(alts.drop_first(), label)
    }
}

/// Whether a pattern text compiles: every `|`-separated alternative is
/// non-empty.
pub open spec fn pattern_ok(text: Seq<char>) -> bool {
    forall|i: int|
        0 <= i < split_on(text, '|').len() ==> (#[trigger] split_on(text, '|')[i]).len() > 0
}

/// A compiled extraction pattern: its literal alternatives, in the order
/// they were written.
#[derive(Debug)]
pub struct Pattern {
    pub alts: Vec<String>,
}

/// Whether `lit` occurs in `label` at position `p`, checked character by
/// character.
fn occurs_check(label: &str, lit: &str, p: usize) -> (r: bool)
    requires
        p + lit@.len() <= label@.len(),
    ensures
        r == occurs_at(label@, lit@, p as int),
{
    let ln = label.unicode_len();
    let tn = lit.unicode_len();
    let mut j: usize = 0;
    while j < tn
        invariant
            ln == label@.len(),
            tn == lit@.len(),
            p + tn <= ln,
            j <= tn,
            forall|i: int| 0 <= i < j ==> label@[p + i] == lit@[i],
        decreases tn - j,
    {
        if label.get_char(p + j) != lit.get_char(j) {
            assert(label@.subrange(p as int, p + tn as int)[j as int] != lit@[j as int]);
            return false;
        }
        j += 1;
    }
    assert(label@.subrange(p as int, p + tn as int) =~= lit@);
    true
}

/// The first position where `lit` occurs in `label`, scanning left to right.
fn find_first_occurrence(label: &str, lit: &str) -> (r: Option<usize>)
    ensures
        r matches Some(p) ==> first_occurrence(label@, lit@) == Some(p as int),
        r matches Some(p) ==> occurs_at(label@, lit@, p as int),
        r is None ==> first_occurrence(label@, lit@) is None,
{
    let ln = label.unicode_len();
    let tn = lit.unicode_len();
    if tn > ln {
        proof {
            lemma_first_occurrence_from_none(label@, lit@, 0);
        }
        return None;
    }
    if tn == 0 {
        proof {
            assert(label@.subrange(0, 0) =~= lit@);
            lemma_first_occurrence_from_some(label@, lit@, 0, 0);
        }
        return Some(0);
    }
    let mut p: usize = 0;
    while p <= ln - tn
        invariant
            ln == label@.len(),
            tn == lit@.len(),
            1 <= tn <= ln,
            p <= ln - tn + 1,
            forall|q: int| 0 <= q < p ==> !occurs_at(label@, lit@, q),
        decreases ln - tn + 1 - p,
    {
        if occurs_check(label, lit, p) {
            proof {
                lemma_first_occurrence_from_some(label@, lit@, 0, p as int);
            }
            return Some(p);
        }
        p += 1;
    }
    proof {
        assert(forall|q: int| 0 <= q ==> !occurs_at(label@, lit@, q)) by {
            assert(forall|q: int| q > ln - tn ==> !occurs_at(label@, lit@, q));
        }
        lemma_first_occurrence_from_none(label@, lit@, 0);
    }
    None
}

/// The token one literal alternative extracts from a label, if any.
fn alt_capture(label: &str, lit: &str) -> (r: Option<String>)
    ensures
        r is Some <==> alt_token(label@, lit@) is Some,
        r matches Some(t) ==> alt_token(label@, lit@) == Some(t@),
{
    let ln = label.unicode_len();
    let p = match find_first_occurrence(label, lit) {
        Some(p) => p,
        None => {
            return None;
        },
    };
    let q = p + lit.unicode_len();
    if q >= ln {
        return None;
    }
    if !is_space_char(label.get_char(q)) {
        return None;
    }
    let mut t0: usize = q;
    while t0 < ln && is_space_char(label.get_char(t0))
        invariant
            ln == label@.len(),
            q <= t0 <= ln,
            forall|j: int| q <= j < t0 ==> is_space(label@[j]),
        decreases ln - t0,
    {
        t0 += 1;
    }
    proof {
        lemma_next_non_space_at(label@, q as int, t0 as int);
    }
    if t0 == ln {
        return None;
    }
    let mut t1: usize = t0;
    while t1 < ln && !is_space_char(label.get_char(t1))
        invariant
            ln == label@.len(),
            t0 <= t1 <= ln,
            forall|j: int| t0 <= j < t1 ==> !is_space(label@[j]),
        decreases ln - t1,
    {
        t1 += 1;
    }
    proof {
        lemma_next_space_at(label@, t0 as int, t1 as int);
    }
    Some(label.substring_char(t0, t1).to_owned())
}

impl Pattern {
    /// The alternative texts, as character sequences.
    pub open spec fn alts_view(&self) -> Seq<Seq<char>> {
        self.alts@.map_values(|t: String| t@)
    }

    /// Compiles a pattern text. Fails — with `BadPattern`, a configuration
    /// error — exactly when some alternative is empty; otherwise the
    /// compiled pattern holds the alternatives as written.
    pub fn compile(text: &str) -> (r: Result<Pattern, SwitchError>)
        ensures
            r is Ok <==> pattern_ok(text@),
            r matches Ok(p) ==> p.alts_view() == split_on(text@, '|'),
            r is Err ==> r == Err::<Pattern, SwitchError>(SwitchError::BadPattern),
    {
        let alts = split_on_char(text, '|');
        let ghost views = alts@.map_values(|t: String| t@);
        let mut i: usize = 0;
        while i < alts.len()
            invariant
                views == alts@.map_values(|t: String| t@),
                views == split_on(text@, '|'),
                i <= alts.len(),
                views.len() == alts.len(),
                forall|j: int| 0 <= j < i ==> (#[trigger] views[j]).len() > 0,
            decreases alts.len() - i,
        {
            if alts[i].as_str().unicode_len() == 0 {
                proof {
                    assert(split_on(text@, '|')[i as int].len() == 0);
                }
                return Err(SwitchError::BadPattern);
            }
            i += 1;
        }
        Ok(Pattern { alts })
    }

    /// Applies the pattern to a label: the token of the first alternative
    /// that yields one, or nothing when the label matches no alternative.
    pub fn capture(&self, label: &str) -> (r: Option<String>)
        ensures
            r is Some <==> pattern_token(self.alts_view(), label@) is Some,
            r matches Some(t) ==> pattern_token(self.alts_view(), label@) == Some(t@),
    {
        let n = self.alts.len();
        proof {
            assert(self.alts_view().skip(0) =~= self.alts_view());
        }
        let mut a: usize = 0;
        while a < n
            invariant
                n == self.alts@.len(),
                a <= n,
                pattern_token(self.alts_view(), label@) == pattern_token(
                    self.alts_view().skip(a as int),
                    label@,
                ),
            decreases n - a,
        {
            let r = alt_capture(label, self.alts[a].as_str());
            proof {
                assert(self.alts_view().skip(a as int)[0] == self.alts_view()[a as int]);
                assert(self.alts_view().skip(a as int).drop_first() =~= self.alts_view().skip(
                    a as int + 1,
                ));
            }
            match r {
                Some(tok) => {
                    return Some(tok);
                },
                None => {},
            }
            a += 1;
        }
        None
    }
}

} // verus!
