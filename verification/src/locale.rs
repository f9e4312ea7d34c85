//! Locale identifiers and decimal text.
//!
//! The direct, synchronous input-method interface speaks in numeric locale
//! identifiers carried as decimal strings: the current keyboard layout's
//! low word is reported as a decimal number, and a requested identifier is
//! parsed back from one. The reading and posting of OS messages stays
//! outside; these are the exact conversions between the numbers and their
//! text.

use vstd::prelude::*;
use crate::error::SwitchError;

verus! {

/// The character of one decimal digit value.
pub open spec fn dec_digit(d: int) -> char {
    ((48 + d) as u8) as char
}

/// The decimal representation of a number: no sign, no leading zero except
/// for the number zero itself.
pub open spec fn dec_rep(n: nat) -> Seq<char>
    decreases n,
{
    if n < 10 {
        seq![dec_digit(n as int)]
    } else {
        dec_rep(n / 10) + seq![dec_digit((n % 10) as int)]
    }
}

/// Whether a character is a decimal digit.
pub open spec fn is_digit(c: char) -> bool {
    48 <= c as u32 <= 57
}

/// The value of one digit character.
pub open spec fn digit_val(c: char) -> int {
    c as u32 - 48
}

/// The number a digit string denotes.
pub open spec fn dec_value(s: Seq<char>) -> int
    decreases s.len(),
{
    if s.len() == 0 {
        0
    } else {
        dec_value(s.drop_last()) * 10 + digit_val(s.last())
    }
}

/// The digits of a locale string: everything after an optional leading
/// plus sign.
pub open spec fn locale_digits(s: Seq<char>) -> Seq<char> {
    if s.len() > 0 && s[0] == '+' {
        s.drop_first()
    } else {
        s
    }
}

/// Whether a locale string parses: at least one character, all digits after
/// an optional leading plus sign, and a value that fits the identifier.
pub open spec fn locale_ok(s: Seq<char>) -> bool {
    let d = locale_digits(s);
    &&& d.len() > 0
    &&& forall|i: int| 0 <= i < d.len() ==> is_digit(#[trigger] d[i])
    &&& dec_value(d) <= u32::MAX
}

proof fn lemma_dec_value_nonneg(s: Seq<char>)
    requires
        forall|i: int| 0 <= i < s.len() ==> is_digit(#[trigger] s[i]),
    ensures
        dec_value(s) >= 0,
    decreases s.len(),
{
    if s.len() > 0 {
        let t = s.drop_last();
        assert(forall|i: int| 0 <= i < t.len() ==> is_digit(#[trigger] t[i]));
        lemma_dec_value_nonneg(t);
    }
}

/// A digit string is worth at least any of its prefixes.
proof fn lemma_dec_value_extend(s: Seq<char>, k: int)
    requires
        0 <= k <= s.len(),
        forall|i: int| 0 <= i < s.len() ==> is_digit(#[trigger] s[i]),
    ensures
        dec_value(s.take(k)) <= dec_value(s),
    decreases s.len() - k,
{
    if k < s.len() {
        lemma_dec_value_extend(s, k + 1);
        let p = s.take(k + 1);
        assert(p.drop_last() =~= s.take(k));
        assert(forall|i: int| 0 <= i < s.take(k).len() ==> is_digit(#[trigger] s.take(k)[i]));
        lemma_dec_value_nonneg(s.take(k));
        assert(dec_value(s.take(k)) <= dec_value(p));
    } else {
        assert(s.take(k) =~= s);
    }
}

/// One digit as text.
fn digit_str(d: u32) -> (s: &'static str)
    requires
        d < 10,
    ensures
        s@ == seq![dec_digit(d as int)],
{
    proof {
        reveal_strlit("0");
        reveal_strlit("1");
        reveal_strlit("2");
        reveal_strlit("3");
        reveal_strlit("4");
        reveal_strlit("5");
        reveal_strlit("6");
        reveal_strlit("7");
        reveal_strlit("8");
        reveal_strlit("9");
        assert("0"@ =~= seq!['0']);
        assert("1"@ =~= seq!['1']);
        assert("2"@ =~= seq!['2']);
        assert("3"@ =~= seq!['3']);
        assert("4"@ =~= seq!['4']);
        assert("5"@ =~= seq!['5']);
        assert("6"@ =~= seq!['6']);
        assert("7"@ =~= seq!['7']);
        assert("8"@ =~= seq!['8']);
        assert("9"@ =~= seq!['9']);
    }
    match d {
        0 => "0",
        1 => "1",
        2 => "2",
        3 => "3",
        4 => "4",
        5 => "5",
        6 => "6",
        7 => "7",
        8 => "8",
        _ => "9",
    }
}

/// A number as decimal text.
pub fn format_u64(n: u64) -> (s: String)
    ensures
        s@ == dec_rep(n as nat),
    decreases n,
{
    if n < 10 {
        digit_str(n as u32).to_owned()
    } else {
        let mut s = format_u64(n / 10);
        s.append(digit_str((n % 10) as u32));
        s
    }
}

/// Parses a locale identifier: decimal digits after an optional leading
/// plus sign, fitting the identifier's range. Anything else — an empty
/// string, a stray character, a value too large — is an invalid locale,
/// reported with the text as given.
pub fn parse_locale(text: &str) -> (r: Result<u32, SwitchError>)
    ensures
        r is Ok <==> locale_ok(text@),
        r matches Ok(n) ==> n as int == dec_value(locale_digits(text@)),
        r matches Err(e) ==> e matches SwitchError::InvalidLocale { text: t } && t@ == text@,
{
    let n = text.unicode_len();
    let start: usize = if n > 0 && text.get_char(0) == '+' {
        1
    } else {
        0
    };
    let ghost d = locale_digits(text@);
    proof {
        if start == 1 {
            assert(d =~= text@.subrange(1, n as int));
        } else {
            assert(d =~= text@.subrange(0, n as int));
            assert(text@.subrange(0, n as int) =~= text@);
        }
    }
    if start == n {
        return Err(SwitchError::InvalidLocale { text: text.to_owned() });
    }
    let mut acc: u32 = 0;
    let mut i: usize = start;
    while i < n
        invariant
            n == text@.len(),
            start <= i <= n,
            start <= 1,
            d == locale_digits(text@),
            d.len() == n - start,
            forall|j: int| 0 <= j < d.len() ==> d[j] == text@[j + start],
            forall|j: int| 0 <= j < i - start ==> is_digit(#[trigger] d[j]),
            acc as int == dec_value(d.take(i - start)),
        decreases n - i,
    {
        let c = text.get_char(i);
        let u = c as u32;
        if u < 48 || u > 57 {
            proof {
                assert(d[i - start] == text@[i as int]);
                assert(!is_digit(d[i - start]));
            }
            return Err(SwitchError::InvalidLocale { text: text.to_owned() });
        }
        let dv = u - 48;
        let wide: u64 = acc as u64 * 10 + dv as u64;
        proof {
            let k = i - start;
            assert(d.take(k + 1).drop_last() =~= d.take(k));
            assert(d.take(k + 1).last() == d[k]);
        }
        if wide > 0xffff_ffff {
            proof {
                let k = i - start;
                assert(forall|j: int| 0 <= j < d.len() ==> is_digit(#[trigger] d[j]) || j > k);
                if forall|j: int| 0 <= j < d.len() ==> is_digit(#[trigger] d[j]) {
                    lemma_dec_value_extend(d, k + 1);
                }
            }
            return Err(SwitchError::InvalidLocale { text: text.to_owned() });
        }
        acc = wide as u32;
        i += 1;
    }
    proof {
        assert(d.take(n - start) =~= d);
    }
    Ok(acc)
}

/// The locale identifier of a keyboard layout handle: its low sixteen bits,
/// handed over as the handle's raw bits.
pub fn layout_locale(layout_bits: u64) -> (locale: u32)
    ensures
        locale as int == layout_bits as int % 0x10000,
{
    (layout_bits % 0x10000) as u32
}

/// The current-layout text the direct interface reports: the layout
/// handle's locale identifier, in decimal.
pub fn layout_locale_text(layout_bits: u64) -> (s: String)
    ensures
        s@ == dec_rep((layout_bits as nat) % 0x10000),
{
    format_u64((layout_bits % 0x10000))
}

/// The token the conversion-mode interface reports: the native-mode marker
/// when the mode word's native bit is set, the latin-mode marker otherwise.
pub fn conversion_mode_token(mode: u32) -> (s: String)
    ensures
        mode & 1 == 1 ==> s@ == "中"@,
        mode & 1 == 0 ==> s@ == "英"@,
{
    if mode & 1 == 1 {
        "中".to_owned()
    } else {
        proof {
            assert(mode & 1 == 0 || mode & 1 == 1) by (bit_vector);
        }
        "英".to_owned()
    }
}

} // verus!
