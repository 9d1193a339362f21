//! Interpreting one line of user input against a menu of a given size.
//!
//! The line is trimmed of surrounding whitespace; `"q"` quits; otherwise the
//! line must be a non-negative base-10 integer selecting an item by 1-based
//! position. `0`, out-of-range numbers, and non-numeric text are recoverable
//! errors.

use vstd::prelude::*;
use crate::error::Error;
use crate::text::{all_digits, digits_val, is_digit};

verus! {

/// What a successfully interpreted input line asks for.
#[derive(Debug, PartialEq, Eq, Structural)]
pub enum UserAction {
    /// Select the item at this 0-based index.
    Select(usize),
    /// End the traversal immediately.
    Quit,
}

/// Whitespace that is trimmed from an input line: the Unicode `White_Space`
/// characters, the set `char::is_whitespace` accepts.
pub open spec fn is_ws(c: char) -> bool {
    ||| c == ' '
    ||| c == '\t'
    ||| c == '\n'
    ||| c == '\x0b'
    ||| c == '\x0c'
    ||| c == '\r'
    ||| c == '\u{85}'
    ||| c == '\u{a0}'
    ||| c == '\u{1680}'
    ||| '\u{2000}' as int <= c as int <= '\u{200a}' as int
    ||| c == '\u{2028}'
    ||| c == '\u{2029}'
    ||| c == '\u{202f}'
    ||| c == '\u{205f}'
    ||| c == '\u{3000}'
}

/// `s` with its leading whitespace removed.
pub open spec fn ltrim(s: Seq<char>) -> Seq<char>
    decreases s.len(),
{
    if s.len() == 0 {
        s
    } else if is_ws(s[0]) {
        ltrim(s.drop_first())
    } else {
        s
    }
}

/// `s` with its trailing whitespace removed.
pub open spec fn rtrim(s: Seq<char>) -> Seq<char>
    decreases s.len(),
{
    if s.len() == 0 {
        s
    } else if is_ws(s.last()) {
        rtrim(s.drop_last())
    } else {
        s
    }
}

/// `s` with surrounding whitespace removed.
pub open spec fn trimmed(s: Seq<char>) -> Seq<char> {
    rtrim(ltrim(s))
}

/// The message carried by a `Parse` error, by the reason the numeral
/// failed to parse: empty text, a non-digit character, or overflow.
pub open spec fn parse_fail_msg(t: Seq<char>) -> Seq<char> {
    if t.len() == 0 {
        "cannot parse integer from empty string"@
    } else if exists|i: int| 0 <= i < t.len() && !is_digit(t[i]) {
        "invalid digit found in string"@
    } else {
        "number too large to fit in target type"@
    }
}

/// The outcome owed for the trimmed line `t` against a menu of
/// `item_count` items: `"q"` quits; non-numerals are `Parse` errors with
/// the matching message; `0` and numbers above `item_count` are
/// `InvalidInput`; a number `v` in `1..=item_count` selects index `v - 1`.
pub open spec fn interp(t: Seq<char>, item_count: nat, r: Result<UserAction, Error>) -> bool {
    if t == "q"@ {
        r == Ok::<UserAction, Error>(UserAction::Quit)
    } else if !all_digits(t) || digits_val(t) > usize::MAX {
        r matches Err(Error::Parse(m)) && m@ == parse_fail_msg(t)
    } else if digits_val(t) == 0 || digits_val(t) > item_count {
        r == Err::<UserAction, Error>(Error::InvalidInput)
    } else {
        r == Ok::<UserAction, Error>(UserAction::Select((digits_val(t) - 1) as usize))
    }
}

/// If the first `lo` characters are whitespace and the one at `lo` (if any)
/// is not, left-trimming drops exactly those `lo` characters.
proof fn lemma_ltrim_at(s: Seq<char>, lo: int)
    requires
        0 <= lo <= s.len(),
        forall|j: int| 0 <= j < lo ==> is_ws(s[j]),
        lo < s.len() ==> !is_ws(s[lo]),
    ensures
        ltrim(s) == s.subrange(lo, s.len() as int),
    decreases lo,
{
    if lo == 0 {
        assert(s.subrange(0, s.len() as int) =~= s);
    } else {
        let d = s.drop_first();
        lemma_ltrim_at(d, lo - 1);
        assert(d.subrange(lo - 1, d.len() as int) =~= s.subrange(lo, s.len() as int));
    }
}

/// If the characters from `hi` on are whitespace and the one before `hi`
/// (if any) is not, right-trimming keeps exactly the first `hi` characters.
proof fn lemma_rtrim_at(s: Seq<char>, hi: int)
    requires
        0 <= hi <= s.len(),
        forall|j: int| hi <= j < s.len() ==> is_ws(s[j]),
        hi > 0 ==> !is_ws(s[hi - 1]),
    ensures
        rtrim(s) == s.subrange(0, hi),
    decreases s.len() - hi,
{
    if hi == s.len() {
        assert(s.subrange(0, s.len() as int) =~= s);
    } else {
        let d = s.drop_last();
        assert(is_ws(s.last()));
        lemma_rtrim_at(d, hi);
        assert(d.subrange(0, hi) =~= s.subrange(0, hi));
    }
}

/// Left-trimming ignores a whitespace prefix.
proof fn lemma_ltrim_ws_prefix(p: Seq<char>, s: Seq<char>)
    requires
        forall|i: int| 0 <= i < p.len() ==> is_ws(p[i]),
    ensures
        ltrim(p + s) == ltrim(s),
    decreases p.len(),
{
    if p.len() == 0 {
        assert(p + s =~= s);
    } else {
        assert((p + s)[0] == p[0]);
        assert((p + s).drop_first() =~= p.drop_first() + s);
        lemma_ltrim_ws_prefix(p.drop_first(), s);
    }
}

/// Right-trimming ignores a whitespace suffix.
proof fn lemma_rtrim_ws_suffix(s: Seq<char>, p: Seq<char>)
    requires
        forall|i: int| 0 <= i < p.len() ==> is_ws(p[i]),
    ensures
        rtrim(s + p) == rtrim(s),
    decreases p.len(),
{
    if p.len() == 0 {
        assert(s + p =~= s);
    } else {
        assert((s + p).last() == p.last());
        assert((s + p).drop_last() =~= s + p.drop_last());
        lemma_rtrim_ws_suffix(s, p.drop_last());
    }
}

/// When `s` holds a non-whitespace character, left-trimming `s + p` trims
/// within `s` alone.
proof fn lemma_ltrim_append(s: Seq<char>, p: Seq<char>)
    requires
        exists|i: int| 0 <= i < s.len() && !is_ws(s[i]),
    ensures
        ltrim(s + p) == ltrim(s) + p,
    decreases s.len(),
{
    if is_ws(s[0]) {
        assert((s + p)[0] == s[0]);
        assert((s + p).drop_first() =~= s.drop_first() + p);
        let i0 = choose|i: int| 0 <= i < s.len() && !is_ws(s[i]);
        assert(0 <= i0 - 1 < s.drop_first().len() && !is_ws(s.drop_first()[i0 - 1]));
        lemma_ltrim_append(s.drop_first(), p);
    } else {
        assert((s + p)[0] == s[0]);
        assert(ltrim(s + p) == s + p);
    }
}

/// Left-trimming pure whitespace leaves nothing.
proof fn lemma_ltrim_all_ws(s: Seq<char>)
    requires
        forall|i: int| 0 <= i < s.len() ==> is_ws(s[i]),
    ensures
        ltrim(s) == Seq::<char>::empty(),
    decreases s.len(),
{
    if s.len() == 0 {
        assert(s =~= Seq::<char>::empty());
    } else {
        lemma_ltrim_all_ws(s.drop_first());
    }
}

/// Surrounding whitespace never changes what a line means: trimming
/// `pad1 + s + pad2` gives exactly `trimmed(s)` whenever `pad1` and `pad2`
/// consist of whitespace. In particular, `interpret_input` owes the same
/// result for a line and for that line padded with whitespace.
pub proof fn lemma_trim_ignores_padding(pad1: Seq<char>, s: Seq<char>, pad2: Seq<char>)
    requires
        forall|i: int| 0 <= i < pad1.len() ==> is_ws(pad1[i]),
        forall|i: int| 0 <= i < pad2.len() ==> is_ws(pad2[i]),
    ensures
        trimmed(pad1 + s + pad2) == trimmed(s),
{
    assert(pad1 + s + pad2 =~= pad1 + (s + pad2));
    lemma_ltrim_ws_prefix(pad1, s + pad2);
    if exists|i: int| 0 <= i < s.len() && !is_ws(s[i]) {
        lemma_ltrim_append(s, pad2);
        lemma_rtrim_ws_suffix(ltrim(s), pad2);
    } else {
        assert(forall|i: int| 0 <= i < (s + pad2).len() ==> is_ws((s + pad2)[i]));
        lemma_ltrim_all_ws(s + pad2);
        lemma_ltrim_all_ws(s);
    }
}

/// Reading a longer prefix of a numeral never decreases its value.
proof fn lemma_digits_val_mono(s: Seq<char>, i: int, j: int)
    requires
        0 <= i <= j <= s.len(),
    ensures
        digits_val(s.subrange(0, i)) <= digits_val(s.subrange(0, j)),
    decreases j - i,
{
    if i < j {
        lemma_digits_val_mono(s, i, j - 1);
        let p = s.subrange(0, j);
        assert(p.drop_last() =~= s.subrange(0, j - 1));
    }
}

/// Interprets one raw input line against a menu of `item_count` items,
/// as `interp` prescribes for the trimmed line.
pub fn interpret_input(raw: &str, item_count: usize) -> (r: Result<UserAction, Error>)
    ensures
        interp(trimmed(raw@), item_count as nat, r),
{
    let n = raw.unicode_len();
    let ghost s = raw@;

    let mut lo: usize = 0;
    while lo < n && is_ws_exec(raw.get_char(lo))
        invariant
            s == raw@,
            n == s.len(),
            0 <= lo <= n,
            forall|j: int| 0 <= j < lo ==> is_ws(s[j]),
        decreases n - lo,
    {
        lo = lo + 1;
    }
    let mut hi: usize = n;
    while hi > lo && is_ws_exec(raw.get_char(hi - 1))
        invariant
            s == raw@,
            n == s.len(),
            lo <= hi <= n,
            forall|j: int| hi <= j < n ==> is_ws(s[j]),
        decreases hi,
    {
        hi = hi - 1;
    }
    let ghost t = s.subrange(lo as int, hi as int);
    proof {
        lemma_ltrim_at(s, lo as int);
        let u = s.subrange(lo as int, s.len() as int);
        lemma_rtrim_at(u, hi - lo);
        assert(u.subrange(0, hi - lo) =~= t);
        assert(trimmed(s) == t);
    }

    if hi - lo == 1 && raw.get_char(lo) == 'q' {
        proof {
            reveal_strlit("q");
            assert(t =~= "q"@);
        }
        return Ok(UserAction::Quit);
    }
    proof {
        reveal_strlit("q");
        assert(t != "q"@) by {
            if t == "q"@ {
                assert(t.len() == 1);
                assert(t[0] == 'q');
                assert(s[lo as int] == 'q');
            }
        }
    }

    if hi == lo {
        return Err(Error::Parse("cannot parse integer from empty string".to_owned()));
    }

    let mut i: usize = lo;
    while i < hi
        invariant
            s == raw@,
            n == s.len(),
            lo <= i <= hi <= n,
            lo < hi,
            t == s.subrange(lo as int, hi as int),
            t == trimmed(s),
            t != "q"@,
            forall|j: int| lo <= j < i ==> is_digit(s[j]),
        decreases hi - i,
    {
        let c = raw.get_char(i);
        let cv = c as u32;
        if cv < 48 || cv > 57 {
            proof {
                assert(t[i - lo] == c);
                assert(!is_digit(t[i - lo]));
            }
            return Err(Error::Parse("invalid digit found in string".to_owned()));
        }
        i = i + 1;
    }
    proof {
        assert(forall|j: int| 0 <= j < t.len() ==> is_digit(t[j]));
        assert(all_digits(t));
    }

    let mut acc: usize = 0;
    i = lo;
    while i < hi
        invariant
            s == raw@,
            n == s.len(),
            lo <= i <= hi <= n,
            lo < hi,
            t == s.subrange(lo as int, hi as int),
            t == trimmed(s),
            t != "q"@,
            all_digits(t),
            forall|j: int| lo <= j < hi ==> is_digit(s[j]),
            acc as nat == digits_val(t.subrange(0, i - lo)),
        decreases hi - i,
    {
        let c = raw.get_char(i);
        let cv = c as u32;
        let d = (cv - 48) as usize;
        proof {
            assert(is_digit(t[i - lo]));
            assert(t.subrange(0, i + 1 - lo).drop_last() =~= t.subrange(0, i - lo));
            assert(t.subrange(0, i + 1 - lo).last() == c);
        }
        if acc > (usize::MAX - d) / 10 {
            proof {
                assert(acc * 10 + d > usize::MAX) by (nonlinear_arith)
                    requires
                        acc > (usize::MAX - d) / 10,
                        d <= 9,
                ;
                assert(digits_val(t.subrange(0, i + 1 - lo)) > usize::MAX);
                lemma_digits_val_mono(t, i + 1 - lo, t.len() as int);
                assert(t.subrange(0, t.len() as int) =~= t);
                assert(digits_val(t) > usize::MAX);
            }
            return Err(Error::Parse("number too large to fit in target type".to_owned()));
        }
        proof {
            assert(acc * 10 + d <= usize::MAX) by (nonlinear_arith)
                requires
                    acc <= (usize::MAX - d) / 10,
                    d <= 9,
            ;
        }
        acc = acc * 10 + d;
        i = i + 1;
    }
    proof {
        assert(t.subrange(0, t.len() as int) =~= t);
        assert(acc as nat == digits_val(t));
    }

    if acc == 0 {
        return Err(Error::InvalidInput);
    }
    let idx = acc - 1;
    if idx >= item_count {
        return Err(Error::InvalidInput);
    }
    Ok(UserAction::Select(idx))
}

/// Whether `c` is trimmed as whitespace.
fn is_ws_exec(c: char) -> (r: bool)
    ensures
        r == is_ws(c),
{
    let cv = c as u32;
    c == ' ' || c == '\t' || c == '\n' || c == '\x0b' || c == '\x0c' || c == '\r'
        || c == '\u{85}' || c == '\u{a0}' || c == '\u{1680}'
        || (0x2000 <= cv && cv <= 0x200a)
        || c == '\u{2028}' || c == '\u{2029}' || c == '\u{202f}' || c == '\u{205f}'
        || c == '\u{3000}'
}

} // verus!
