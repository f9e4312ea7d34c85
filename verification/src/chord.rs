//! The key-chord codec: a `+`-delimited chord string becomes an ordered
//! batch of key events — the presses in chord order, then the releases in
//! reverse chord order, so the last-pressed key is released first.
//!
//! A segment that names no supported key invalidates the whole chord: no
//! partial batch is ever produced.

use vstd::prelude::*;
use crate::error::SwitchError;
use crate::text::{lower_char, lower_seq, to_lower, trim_spec, trim_bounds, split_on, split_on_char};

verus! {

/// The supported keys. The set is deliberately small: chords used to switch
/// input methods combine modifiers and the space bar.
#[derive(Debug, Clone, Copy, PartialEq, Eq, Structural)]
pub enum Key {
    Shift,
    Ctrl,
    Alt,
    Space,
}

/// Whether an event presses its key or releases it.
#[derive(Debug, Clone, Copy, PartialEq, Eq, Structural)]
pub enum KeyAction {
    Press,
    Release,
}

/// One synthetic key event.
#[derive(Debug, Clone, Copy, PartialEq, Eq, Structural)]
pub struct KeyEvent {
    pub key: Key,
    pub action: KeyAction,
}

/// The key a lower-cased, trimmed name resolves to. `ctrl` and `control`
/// are synonyms.
pub open spec fn key_of_name(name: Seq<char>) -> Option<Key> {
    if name == seq!['s', 'h', 'i', 'f', 't'] {
        Some(Key::Shift)
    } else if name == seq!['c', 't', 'r', 'l'] {
        Some(Key::Ctrl)
    } else if name == seq!['c', 'o', 'n', 't', 'r', 'o', 'l'] {
        Some(Key::Ctrl)
    } else if name == seq!['a', 'l', 't'] {
        Some(Key::Alt)
    } else if name == seq!['s', 'p', 'a', 'c', 'e'] {
        Some(Key::Space)
    } else {
        None
    }
}

/// Whether the lower-cased characters of `s` equal the characters of `lit`.
fn lowered_eq(s: &str, lit: &str) -> (r: bool)
    ensures
        r == (lower_seq(s@) == lit@),
{
    let sn = s.unicode_len();
    let ln = lit.unicode_len();
    if sn != ln {
        assert(lower_seq(s@).len() == s@.len());
        return false;
    }
    let mut i: usize = 0;
    while i < sn
        invariant
            sn == s@.len(),
            sn == lit@.len(),
            i <= sn,
            forall|j: int| 0 <= j < i ==> lower_char(s@[j]) == lit@[j],
        decreases sn - i,
    {
        if to_lower(s.get_char(i)) != lit.get_char(i) {
            assert(lower_seq(s@)[i as int] == lower_char(s@[i as int]));
            return false;
        }
        i += 1;
    }
    assert(lower_seq(s@) =~= lit@);
    true
}

/// Resolves one key name, ignoring ASCII case. The name is taken as given:
/// surrounding whitespace is the caller's business.
pub fn parse_key(name: &str) -> (r: Option<Key>)
    ensures
        r == key_of_name(lower_seq(name@)),
{
    proof {
        reveal_strlit("shift");
        reveal_strlit("ctrl");
        reveal_strlit("control");
        reveal_strlit("alt");
        reveal_strlit("space");
        assert("shift"@ =~= seq!['s', 'h', 'i', 'f', 't']);
        assert("ctrl"@ =~= seq!['c', 't', 'r', 'l']);
        assert("control"@ =~= seq!['c', 'o', 'n', 't', 'r', 'o', 'l']);
        assert("alt"@ =~= seq!['a', 'l', 't']);
        assert("space"@ =~= seq!['s', 'p', 'a', 'c', 'e']);
    }
    if lowered_eq(name, "shift") {
        Some(Key::Shift)
    } else if lowered_eq(name, "ctrl") {
        Some(Key::Ctrl)
    } else if lowered_eq(name, "control") {
        Some(Key::Ctrl)
    } else if lowered_eq(name, "alt") {
        Some(Key::Alt)
    } else if lowered_eq(name, "space") {
        Some(Key::Space)
    } else {
        None
    }
}

/// The segments of a chord string: the runs between `+` separators, kept
/// verbatim, whitespace and all.
pub open spec fn plus_split(s: Seq<char>) -> Seq<Seq<char>> {
    split_on(s, '+')
}

/// Splits a chord string on `+`. Segments are kept verbatim: trimming and
/// case folding happen when a segment is resolved to a key.
pub fn split_chord(s: &str) -> (segs: Vec<String>)
    ensures
        segs@.map_values(|t: String| t@) == plus_split(s@),
{
    split_on_char(s, '+')
}

/// The key a raw chord segment resolves to: trimmed, lower-cased, looked up.
pub open spec fn seg_key(seg: Seq<char>) -> Option<Key> {
    key_of_name(lower_seq(trim_spec(seg)))
}

/// Whether every segment of the chord resolves to a key.
pub open spec fn chord_is_valid(chord: Seq<char>) -> bool {
    forall|i: int|
        0 <= i < plus_split(chord).len() ==> seg_key(#[trigger] plus_split(chord)[i]) is Some
}

/// The keys of a valid chord, in chord order.
pub open spec fn chord_keys(chord: Seq<char>) -> Seq<Key> {
    plus_split(chord).map(|_i: int, seg: Seq<char>| seg_key(seg).unwrap())
}

/// The position of the first segment that resolves to no key; the segment
/// count when every segment resolves.
pub open spec fn first_bad_segment(segs: Seq<Seq<char>>) -> int
    decreases segs.len(),
{
    if segs.len() == 0 {
        0
    } else if seg_key(segs[0]) is None {
        0
    } else {
        1 + first_bad_segment(segs.drop_first())
    }
}

proof fn lemma_first_bad_segment_at(segs: Seq<Seq<char>>, k: int)
    requires
        0 <= k < segs.len(),
        forall|j: int| 0 <= j < k ==> seg_key(#[trigger] segs[j]) is Some,
        seg_key(segs[k]) is None,
    ensures
        first_bad_segment(segs) == k,
    decreases segs.len(),
{
    if k > 0 {
        let t = segs.drop_first();
        assert(forall|j: int| 0 <= j < k - 1 ==> t[j] == segs[j + 1] && seg_key(#[trigger] t[j]) is Some);
        lemma_first_bad_segment_at(t, k - 1);
    }
}

/// Parses a chord string into its event batch: the presses in chord order,
/// then the releases in reverse chord order. One segment that resolves to no
/// key fails the whole chord — no partial batch is ever produced — and the
/// error carries the first such segment verbatim.
pub fn parse_chord(chord: &str) -> (r: Result<Vec<KeyEvent>, SwitchError>)
    ensures
        r is Ok <==> chord_is_valid(chord@),
        r matches Ok(batch) ==> batch@ == batch_of(chord_keys(chord@)),
        r matches Err(e) ==> e matches SwitchError::InvalidKey { segment } && {
            let segs = plus_split(chord@);
            let i = first_bad_segment(segs);
            &&& 0 <= i < segs.len()
            &&& segment@ == segs[i]
            &&& seg_key(segs[i]) is None
        },
{
    let segs = split_chord(chord);
    let ghost seg_views = segs@.map_values(|t: String| t@);
    let mut keys: Vec<Key> = Vec::new();
    let mut idx: usize = 0;
    while idx < segs.len()
        invariant
            seg_views == segs@.map_values(|t: String| t@),
            seg_views == plus_split(chord@),
            idx <= segs.len(),
            seg_views.len() == segs.len(),
            keys@.len() == idx,
            forall|j: int| 0 <= j < idx ==> seg_key(#[trigger] seg_views[j]) is Some,
            forall|j: int| 0 <= j < idx ==> keys@[j] == seg_key(#[trigger] seg_views[j]).unwrap(),
        decreases segs.len() - idx,
    {
        let (b, e) = trim_bounds(segs[idx].as_str());
        let trimmed = segs[idx].as_str().substring_char(b, e);
        assert(trimmed@ == trim_spec(seg_views[idx as int]));
        match parse_key(trimmed) {
            Some(key) => {
                keys.push(key);
            },
            None => {
                proof {
                    lemma_first_bad_segment_at(seg_views, idx as int);
                }
                return Err(SwitchError::InvalidKey { segment: segs[idx].clone() });
            },
        }
        idx += 1;
    }
    proof {
        assert(keys@ =~= chord_keys(chord@));
    }
    let n = keys.len();
    let mut events: Vec<KeyEvent> = Vec::new();
    let mut i: usize = 0;
    while i < n
        invariant
            n == keys@.len(),
            i <= n,
            events@.len() == i,
            forall|j: int| 0 <= j < i ==> events@[j] == presses(keys@)[j],
        decreases n - i,
    {
        events.push(KeyEvent { key: keys[i], action: KeyAction::Press });
        i += 1;
    }
    let mut i2: usize = 0;
    while i2 < n
        invariant
            n == keys@.len(),
            i2 <= n,
            events@.len() == n + i2,
            forall|j: int| 0 <= j < n ==> events@[j] == presses(keys@)[j],
            forall|j: int| 0 <= j < i2 ==> events@[n + j] == releases(keys@)[j],
        decreases n - i2,
    {
        events.push(KeyEvent { key: keys[n - 1 - i2], action: KeyAction::Release });
        i2 += 1;
    }
    proof {
        assert(events@ =~= batch_of(keys@));
    }
    Ok(events)
}

/// The press events of a chord, in chord order.
pub open spec fn presses(keys: Seq<Key>) -> Seq<KeyEvent> {
    Seq::new(keys.len(), |i: int| KeyEvent { key: keys[i], action: KeyAction::Press })
}

/// The release events of a chord, in reverse chord order.
pub open spec fn releases(keys: Seq<Key>) -> Seq<KeyEvent> {
    Seq::new(keys.len(), |i: int| KeyEvent { key: keys[keys.len() - 1 - i], action: KeyAction::Release })
}

/// The full event batch of a chord: presses, then releases.
pub open spec fn batch_of(keys: Seq<Key>) -> Seq<KeyEvent> {
    presses(keys) + releases(keys)
}

/// The batch of a chord always holds twice as many events as the chord has
/// keys; the first half presses the keys in chord order, the second half
/// releases them in reverse order — the keys of the release sub-sequence
/// are exactly the reverse of the keys of the press sub-sequence.
pub proof fn lemma_batch_round_trip(keys: Seq<Key>)
    ensures
        batch_of(keys).len() == 2 * keys.len(),
        forall|i: int|
            0 <= i < keys.len() ==> #[trigger] batch_of(keys)[i] == (KeyEvent {
                key: keys[i],
                action: KeyAction::Press,
            }),
        forall|i: int|
            keys.len() <= i < 2 * keys.len() ==> #[trigger] batch_of(keys)[i] == (KeyEvent {
                key: keys[2 * keys.len() - 1 - i],
                action: KeyAction::Release,
            }),
        batch_of(keys).subrange(keys.len() as int, 2 * keys.len() as int).map_values(
            |e: KeyEvent| e.key,
        ) == batch_of(keys).subrange(0, keys.len() as int).map_values(
            |e: KeyEvent| e.key,
        ).reverse(),
{
    let n = keys.len() as int;
    let b = batch_of(keys);
    let press_keys = b.subrange(0, n).map_values(|e: KeyEvent| e.key);
    let release_keys = b.subrange(n, 2 * n).map_values(|e: KeyEvent| e.key);
    assert(release_keys =~= press_keys.reverse());
}

} // verus!
