//! Character-level utilities on strings. Column and offset arithmetic
//! throughout the crate counts Unicode scalar values, matching how the
//! external compiler counts columns in its diagnostics.

use vstd::prelude::*;

verus! {

/// True when `p` is a prefix of `s`.
pub open spec fn seq_starts_with(s: Seq<char>, p: Seq<char>) -> bool {
    p.len() <= s.len() && s.take(p.len() as int) == p
}

/// Number of occurrences of `c` in `s`.
pub open spec fn count_char(s: Seq<char>, c: char) -> nat
    decreases s.len(),
{
    if s.len() == 0 {
        0
    } else {
        count_char(s.drop_last(), c) + if s.last() == c {
            1nat
        } else {
            0nat
        }
    }
}

/// The digit character for a value below ten.
pub open spec fn digit_char(d: int) -> char {
    if d == 0 {
        '0'
    } else if d == 1 {
        '1'
    } else if d == 2 {
        '2'
    } else if d == 3 {
        '3'
    } else if d == 4 {
        '4'
    } else if d == 5 {
        '5'
    } else if d == 6 {
        '6'
    } else if d == 7 {
        '7'
    } else if d == 8 {
        '8'
    } else {
        '9'
    }
}

/// Decimal digits of `n`, most significant first.
pub open spec fn spec_decimal(n: int) -> Seq<char>
    decreases n,
{
    if n < 10 {
        seq![digit_char(n)]
    } else {
        spec_decimal(n / 10).push(digit_char(n % 10))
    }
}

/// The one-character string holding the digit for `d`.
fn digit_str(d: u64) -> (r: &'static str)
    requires
        d < 10,
    ensures
        r@ =~= seq![digit_char(d as int)],
{
    proof {
        reveal_strlit("0");
        reveal_strlit("1");
        reveal_strlit("2");
        reveal_strlit("3");
        reveal_strlit("4");
        reveal_strlit("5");
        reveal_strlit("6");
        reveal_strlit("7");
        reveal_strlit("8");
        reveal_strlit("9");
    }
    if d == 0 {
        "0"
    } else if d == 1 {
        "1"
    } else if d == 2 {
        "2"
    } else if d == 3 {
        "3"
    } else if d == 4 {
        "4"
    } else if d == 5 {
        "5"
    } else if d == 6 {
        "6"
    } else if d == 7 {
        "7"
    } else if d == 8 {
        "8"
    } else {
        "9"
    }
}

/// Append the decimal form of `n` to `out`.
pub fn append_decimal(out: &mut String, n: u64)
    ensures
        final(out)@ == old(out)@ + spec_decimal(n as int),
    decreases n,
{
    if n < 10 {
        out.append(digit_str(n));
    } else {
        append_decimal(out, n / 10);
        out.append(digit_str(n % 10));
        proof {
            assert(old(out)@ + spec_decimal(n as int / 10) + seq![
                digit_char(n as int % 10),
            ] =~= old(out)@ + spec_decimal(n as int));
        }
    }
}

/// The decimal form of `n`.
pub fn u64_to_string(n: u64) -> (r: String)
    ensures
        r@ == spec_decimal(n as int),
{
    let mut out = String::new();
    append_decimal(&mut out, n);
    proof {
        assert(Seq::<char>::empty() + spec_decimal(n as int) =~= spec_decimal(n as int));
    }
    out
}

/// Character-wise equality of two string slices.
pub fn str_eq(a: &str, b: &str) -> (r: bool)
    ensures
        r == (a@ == b@),
{
    let alen = a.unicode_len();
    let blen = b.unicode_len();
    if alen != blen {
        assert(a@ != b@);
        return false;
    }
    let mut i: usize = 0;
    while i < alen
        invariant
            alen == a@.len(),
            alen == b@.len(),
            i <= alen,
            forall|j: int| 0 <= j < i ==> a@[j] == b@[j],
        decreases alen - i,
    {
        if a.get_char(i) != b.get_char(i) {
            assert(a@ != b@);
            return false;
        }
        i += 1;
    }
    proof {
        assert(a@ =~= b@);
    }
    true
}

/// `sub` occurs somewhere in `s`.
pub open spec fn spec_contains_sub(s: Seq<char>, sub: Seq<char>) -> bool {
    exists|i: int| 0 <= i <= s.len() - sub.len() && (#[trigger] s.subrange(i, i + sub.len())) == sub
}

/// Does `sub` occur in `s`?
pub fn str_contains(s: &str, sub: &str) -> (r: bool)
    ensures
        r == spec_contains_sub(s@, sub@),
{
    let len = s.unicode_len();
    let sub_len = sub.unicode_len();
    if sub_len > len {
        return false;
    }
    if sub_len == 0 {
        proof {
            assert(s@.subrange(0, 0 + sub@.len() as int) =~= sub@);
        }
        return true;
    }
    let mut i: usize = 0;
    while i <= len - sub_len
        invariant
            len == s@.len(),
            sub_len == sub@.len(),
            0 < sub_len <= len,
            i <= len - sub_len + 1,
            forall|j: int| 0 <= j < i ==> (#[trigger] s@.subrange(j, j + sub@.len())) != sub@,
        decreases len - sub_len - i + 1,
    {
        let mut k: usize = 0;
        let mut all = true;
        while k < sub_len
            invariant
                len == s@.len(),
                sub_len == sub@.len(),
                i + sub_len <= len,
                k <= sub_len,
                all ==> forall|t: int| 0 <= t < k ==> s@[i + t] == sub@[t],
                !all ==> s@.subrange(i as int, i + sub@.len()) != sub@,
            decreases sub_len - k,
        {
            if s.get_char(i + k) != sub.get_char(k) {
                all = false;
                proof {
                    assert(s@.subrange(i as int, i + sub@.len())[k as int] != sub@[k as int]);
                    assert(s@.subrange(i as int, i + sub@.len()) != sub@);
                }
                k = sub_len;
            } else {
                k += 1;
            }
        }
        if all {
            proof {
                assert(s@.subrange(i as int, i + sub@.len()) =~= sub@);
            }
            return true;
        }
        i += 1;
    }
    false
}

/// True when `s` begins with the characters of `p`.
pub fn str_starts_with(s: &str, p: &str) -> (r: bool)
    ensures
        r == seq_starts_with(s@, p@),
{
    let slen = s.unicode_len();
    let plen = p.unicode_len();
    if plen > slen {
        return false;
    }
    let mut i: usize = 0;
    while i < plen
        invariant
            slen == s@.len(),
            plen == p@.len(),
            plen <= slen,
            i <= plen,
            forall|j: int| 0 <= j < i ==> s@[j] == p@[j],
        decreases plen - i,
    {
        if s.get_char(i) != p.get_char(i) {
            assert(s@.take(p@.len() as int)[i as int] != p@[i as int]);
            return false;
        }
        i += 1;
    }
    proof {
        assert(s@.take(p@.len() as int) =~= p@);
    }
    true
}

/// True when `s` ends with the characters of `p`.
pub open spec fn seq_ends_with(s: Seq<char>, p: Seq<char>) -> bool {
    p.len() <= s.len() && s.skip(s.len() - p.len()) == p
}

/// Does `s` end with the characters of `p`?
pub fn str_ends_with(s: &str, p: &str) -> (r: bool)
    ensures
        r == seq_ends_with(s@, p@),
{
    let slen = s.unicode_len();
    let plen = p.unicode_len();
    if plen > slen {
        return false;
    }
    let base = slen - plen;
    let mut i: usize = 0;
    while i < plen
        invariant
            slen == s@.len(),
            plen == p@.len(),
            plen <= slen,
            base == slen - plen,
            i <= plen,
            forall|j: int| 0 <= j < i ==> s@[base + j] == p@[j],
        decreases plen - i,
    {
        if s.get_char(base + i) != p.get_char(i) {
            assert(s@.skip(s@.len() - p@.len())[i as int] != p@[i as int]);
            return false;
        }
        i += 1;
    }
    proof {
        assert(s@.skip(s@.len() - p@.len()) =~= p@);
    }
    true
}


/// Lines joined back together with a newline between each pair.
pub open spec fn joined_lines(s: Seq<String>) -> Seq<char>
    decreases s.len(),
{
    if s.len() == 0 {
        Seq::empty()
    } else if s.len() == 1 {
        s[0]@
    } else {
        joined_lines(s.drop_last()) + seq!['\n'] + s.last()@
    }
}

/// Split text into its lines, without their newlines. Joining the lines
/// with newlines, and appending one when the text ended with one, restores
/// the text exactly.
pub fn split_lines(text: &str) -> (r: Vec<String>)
    requires
        text@.len() < usize::MAX,
    ensures
        text@.len() == 0 ==> r@.len() == 0,
        text@.len() > 0 && text@.last() == '\n' ==> joined_lines(r@).push('\n') == text@,
        text@.len() > 0 && text@.last() != '\n' ==> joined_lines(r@) == text@,
        forall|i: int, j: int|
            0 <= i < r@.len() && 0 <= j < r@[i]@.len() ==> #[trigger] r@[i]@[j] != '\n',
{
    let ghost s = text@;
    let len = text.unicode_len();
    let mut out: Vec<String> = Vec::new();
    let mut pos: usize = 0;
    let mut tail = false;
    while pos < len && !tail
        invariant
            len == s.len(),
            s == text@,
            pos <= len,
            forall|i: int, j: int|
                0 <= i < out@.len() && 0 <= j < out@[i]@.len() ==> #[trigger] out@[i]@[j] != '\n',
            !tail && pos == 0 ==> out@.len() == 0,
            !tail && pos > 0 ==> s[pos as int - 1] == '\n' && out@.len() > 0 && joined_lines(out@)
                + seq!['\n'] == s.take(pos as int),
            tail ==> pos == len && len > 0 && s.last() != '\n' && joined_lines(out@) == s,
        decreases len - pos + if tail {
            0int
        } else {
            1int
        },
    {
        let line_end = next_newline(text, pos);
        let piece = text.substring_char(pos, line_end).to_owned();
        let ghost pre = out@;
        out.push(piece);
        proof {
            assert(out@.drop_last() =~= pre);
            assert(forall|i: int, j: int|
                0 <= i < pre.len() && 0 <= j < pre[i]@.len() ==> #[trigger] pre[i]@[j] != '\n');
            assert(out@.last()@ == s.subrange(pos as int, line_end as int));
        }
        if line_end < len {
            proof {
                if pre.len() == 0 {
                    assert(joined_lines(out@) == out@.last()@);
                    assert(joined_lines(out@) + seq!['\n'] =~= s.take(line_end + 1));
                } else {
                    assert(joined_lines(out@) == joined_lines(pre) + seq!['\n'] + out@.last()@);
                    assert(joined_lines(out@) + seq!['\n'] =~= s.take(line_end + 1));
                }
            }
            pos = line_end + 1;
        } else {
            proof {
                if pre.len() == 0 {
                    assert(joined_lines(out@) == out@.last()@);
                    assert(joined_lines(out@) =~= s);
                } else {
                    assert(joined_lines(out@) == joined_lines(pre) + seq!['\n'] + out@.last()@);
                    assert(joined_lines(out@) =~= s);
                }
                assert(s.last() != '\n');
            }
            pos = len;
            tail = true;
        }
    }
    proof {
        if !tail && pos > 0 {
            assert(joined_lines(out@).push('\n') =~= joined_lines(out@) + seq!['\n']);
        }
    }
    out
}

/// Index of the first newline at or after `from`, or the length of `s`.
fn next_newline(s: &str, from: usize) -> (r: usize)
    requires
        from <= s@.len(),
    ensures
        from <= r <= s@.len(),
        forall|j: int| from <= j < r ==> s@[j] != '\n',
        r < s@.len() ==> s@[r as int] == '\n',
{
    let len = s.unicode_len();
    let mut i: usize = from;
    while i < len && s.get_char(i) != '\n'
        invariant
            from <= i <= len,
            len == s@.len(),
            forall|j: int| from <= j < i ==> s@[j] != '\n',
        decreases len - i,
    {
        i += 1;
    }
    i
}

} // verus!
