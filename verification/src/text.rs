//! Character- and byte-level text utilities: searching, decimal numbers,
//! UTF-8 decoding, and substring comparison, with exact specifications.
use vstd::prelude::*;
use vstd::string::StrSliceExecFns;
use vstd::utf8::{decode_utf8, valid_utf8};

verus! {

/// Index of the first occurrence of `c` in `s` within `[from, to)`,
/// or `to` when there is none.
pub open spec fn find_in(s: Seq<char>, c: char, from: int, to: int) -> int
    decreases to - from,
{
    if from >= to {
        to
    } else if s[from] == c {
        from
    } else {
        find_in(s, c, from + 1, to)
    }
}

pub proof fn lemma_find_in(s: Seq<char>, c: char, from: int, to: int)
    requires
        0 <= from <= to <= s.len(),
    ensures
        from <= find_in(s, c, from, to) <= to,
        find_in(s, c, from, to) < to ==> s[find_in(s, c, from, to)] == c,
        forall|i: int| from <= i < find_in(s, c, from, to) ==> s[i] != c,
    decreases to - from,
{
    if from < to && s[from] != c {
        lemma_find_in(s, c, from + 1, to);
    }
}

/// First occurrence of `c` in `s` within `[from, to)`, or `to` when absent.
pub fn find_char(s: &str, c: char, from: usize, to: usize) -> (r: usize)
    requires
        from <= to <= s@.len(),
    ensures
        r == find_in(s@, c, from as int, to as int),
{
    let mut i: usize = from;
    while i < to
        invariant
            from <= i <= to <= s@.len(),
            forall|j: int| from <= j < i ==> s@[j] != c,
        decreases to - i,
    {
        if s.get_char(i) == c {
            proof {
                lemma_find_in(s@, c, from as int, to as int);
                let f = find_in(s@, c, from as int, to as int);
                if f < i {
                    assert(s@[f] != c);
                } else if f > i {
                    assert(s@[i as int] != c);
                }
            }
            return i;
        }
        i = i + 1;
    }
    proof {
        lemma_find_in(s@, c, from as int, to as int);
    }
    to
}

/// Index of the last occurrence of `c` in `s` within `[from, to)`, or
/// `from - 1` when there is none.
pub open spec fn rfind_in(s: Seq<char>, c: char, from: int, to: int) -> int
    decreases to - from,
{
    if to <= from {
        from - 1
    } else if s[to - 1] == c {
        to - 1
    } else {
        rfind_in(s, c, from, to - 1)
    }
}

/// One past the last occurrence of `c` in `s[from..to]`, or `from` when
/// there is none.
pub fn rfind_after(s: &str, c: char, from: usize, to: usize) -> (r: usize)
    requires
        from <= to <= s@.len(),
    ensures
        r as int == rfind_in(s@, c, from as int, to as int) + 1,
        from <= r <= to,
{
    let mut t = to;
    while t > from
        invariant
            from <= t <= to <= s@.len(),
            rfind_in(s@, c, from as int, t as int) == rfind_in(s@, c, from as int, to as int),
        decreases t,
    {
        if s.get_char(t - 1) == c {
            return t;
        }
        t = t - 1;
    }
    from
}

/// The end of `s[..end]` once every trailing `c` is removed.
pub open spec fn trim_end(s: Seq<char>, c: char, end: int) -> int
    decreases end,
{
    if end > 0 && s[end - 1] == c {
        trim_end(s, c, end - 1)
    } else {
        end
    }
}

/// End of the content of the line starting at `p` whose newline (or the
/// input's end) sits at `e`: a carriage return directly before a newline is
/// stripped, while a final line without a newline keeps one.
pub open spec fn line_body_end(s: Seq<char>, p: int, e: int) -> int {
    if e == s.len() {
        e
    } else if e > p && s[e - 1] == '\r' {
        e - 1
    } else {
        e
    }
}

pub open spec fn is_digit(c: char) -> bool {
    48 <= c as int <= 57
}

pub open spec fn digit_val(c: char) -> nat {
    (c as int - 48) as nat
}

pub open spec fn all_digits(s: Seq<char>, from: int, to: int) -> bool {
    forall|i: int| from <= i < to ==> is_digit(s[i])
}

/// Numeric value of the digit run `s[from..to]`, most significant first.
pub open spec fn digits_val(s: Seq<char>, from: int, to: int) -> nat
    decreases to - from,
{
    if from >= to {
        0
    } else {
        digits_val(s, from, to - 1) * 10 + digit_val(s[to - 1])
    }
}

pub proof fn lemma_digits_val_mono(s: Seq<char>, from: int, i: int, j: int)
    requires
        from <= i <= j,
    ensures
        digits_val(s, from, i) <= digits_val(s, from, j),
    decreases j - i,
{
    if i < j {
        lemma_digits_val_mono(s, from, i, j - 1);
        assert(digits_val(s, from, j) == digits_val(s, from, j - 1) * 10 + digit_val(s[j - 1]));
        assert(digits_val(s, from, j - 1) * 10 >= digits_val(s, from, j - 1)) by (nonlinear_arith);
    }
}

/// Value of the decimal token `s[from..to]` under std's unsigned parsing:
/// an optional leading `+`, then at least one digit; `None` otherwise.
pub open spec fn uint_of(s: Seq<char>, from: int, to: int) -> Option<nat> {
    let start = if from < to && s[from] == '+' {
        from + 1
    } else {
        from
    };
    if start < to && all_digits(s, start, to) {
        Some(digits_val(s, start, to))
    } else {
        None
    }
}

/// Parse the decimal token `s[from..to]`. Mirrors std's unsigned parsing:
/// `None` on a malformed token or on a value above `usize::MAX`.
pub fn parse_uint(s: &str, from: usize, to: usize) -> (r: Option<usize>)
    requires
        from <= to <= s@.len(),
    ensures
        r is Some ==> uint_of(s@, from as int, to as int) == Some(r->Some_0 as nat),
        r is None ==> (uint_of(s@, from as int, to as int) is None || uint_of(
            s@,
            from as int,
            to as int,
        )->Some_0 > usize::MAX),
{
    let mut i: usize = from;
    if i < to && s.get_char(i) == '+' {
        i = i + 1;
    }
    let ghost start = i as int;
    proof {
        assert(if from < to && s@[from as int] == '+' {
            start == from + 1
        } else {
            start == from
        });
    }
    if i == to {
        return None;
    }
    let mut val: usize = 0;
    while i < to
        invariant
            from <= start <= i <= to <= s@.len(),
            start == (if from < to && s@[from as int] == '+' {
                from + 1
            } else {
                from as int
            }),
            start < to,
            all_digits(s@, start, i as int),
            val == digits_val(s@, start, i as int),
        decreases to - i,
    {
        let c = s.get_char(i);
        let d = c as u32;
        if d < 48 || d > 57 {
            proof {
                assert(!is_digit(s@[i as int]));
                assert(!all_digits(s@, start, to as int));
                assert(uint_of(s@, from as int, to as int) is None);
            }
            return None;
        }
        let dv = (d - 48) as usize;
        if val > (usize::MAX - dv) / 10 {
            proof {
                assert(val * 10 + dv > usize::MAX) by (nonlinear_arith)
                    requires
                        val > (usize::MAX - dv) / 10,
                        dv <= 9,
                ;
                if all_digits(s@, start, to as int) {
                    lemma_digits_val_mono(s@, start, i as int + 1, to as int);
                    assert(digits_val(s@, start, i as int + 1) == val * 10 + dv);
                    assert(uint_of(s@, from as int, to as int)->Some_0 > usize::MAX);
                } else {
                    assert(uint_of(s@, from as int, to as int) is None);
                }
            }
            return None;
        }
        proof {
            assert(val * 10 + dv <= usize::MAX) by (nonlinear_arith)
                requires
                    val <= (usize::MAX - dv) / 10,
                    dv <= 9,
            ;
        }
        val = val * 10 + dv;
        i = i + 1;
    }
    Some(val)
}

/// The decimal digits of `n` as ASCII bytes, most significant first.
pub open spec fn dec_bytes(n: nat) -> Seq<u8>
    decreases n,
{
    if n < 10 {
        seq![(48 + n) as u8]
    } else {
        dec_bytes(n / 10).push((48 + n % 10) as u8)
    }
}

/// Render `n` in decimal as ASCII bytes.
pub fn render_dec(n: usize) -> (r: Vec<u8>)
    ensures
        r@ == dec_bytes(n as nat),
    decreases n,
{
    if n < 10 {
        let mut v: Vec<u8> = Vec::new();
        v.push(48 + n as u8);
        proof {
            assert(v@ =~= dec_bytes(n as nat));
        }
        v
    } else {
        let mut v = render_dec(n / 10);
        v.push(48 + (n % 10) as u8);
        v
    }
}

/// The decimal digits of `n` as characters, most significant first.
pub open spec fn dec_chars(n: nat) -> Seq<char>
    decreases n,
{
    if n < 10 {
        seq![((48 + n) as u8) as char]
    } else {
        dec_chars(n / 10).push(((48 + n % 10) as u8) as char)
    }
}

/// Render `n` in decimal as text.
pub fn render_dec_string(n: usize) -> (r: String)
    ensures
        r@ == dec_chars(n as nat),
    decreases n,
{
    if n < 10 {
        let mut s = String::new();
        push_char(&mut s, (48 + n as u8) as char);
        proof {
            assert(s@ =~= dec_chars(n as nat));
        }
        s
    } else {
        let mut s = render_dec_string(n / 10);
        push_char(&mut s, (48 + (n % 10) as u8) as char);
        s
    }
}

/// Relies on std's str::from_utf8: it succeeds exactly on valid UTF-8 and
/// returns text carrying the same bytes, hence the decoding of them.
#[verifier::external_body]
pub(crate) fn bytes_as_str(v: &[u8]) -> (r: Option<&str>)
    ensures
        r is Some <==> valid_utf8(v@),
        r is Some ==> r->Some_0@ == decode_utf8(v@),
{
    core::str::from_utf8(v).ok()
}

/// Relies on String::push: appends exactly the one character.
#[verifier::external_body]
pub fn push_char(s: &mut String, c: char)
    ensures
        final(s)@ == old(s)@.push(c),
{
    s.push(c);
}

/// Whether `s[from..to]` equals the view of `pat`.
pub fn str_range_eq(s: &str, from: usize, to: usize, pat: &str) -> (r: bool)
    requires
        from <= to <= s@.len(),
    ensures
        r == (s@.subrange(from as int, to as int) == pat@),
{
    let sub = s.substring_char(from, to);
    sub.to_owned() == pat.to_owned()
}

/// Whether `pat` occurs as a contiguous run inside `s[from..to]`.
pub open spec fn contains_seq(s: Seq<char>, from: int, to: int, pat: Seq<char>) -> bool {
    exists|i: int|
        from <= i && i + pat.len() <= to && #[trigger] s.subrange(i, i + pat.len() as int) == pat
}

/// Substring search for `pat` inside `s[from..to]`.
pub fn range_contains(s: &str, from: usize, to: usize, pat: &str) -> (r: bool)
    requires
        from <= to <= s@.len(),
    ensures
        r == contains_seq(s@, from as int, to as int, pat@),
{
    let pl = pat.unicode_len();
    if pl > to - from {
        return false;
    }
    if pl == 0 {
        proof {
            assert(s@.subrange(from as int, from as int + pat@.len() as int) =~= pat@);
        }
        return true;
    }
    let last = to - pl;
    let mut i: usize = from;
    while i <= last
        invariant
            from <= i <= last + 1,
            last == to - pl,
            1 <= pl == pat@.len(),
            from <= to <= s@.len(),
            forall|j: int|
                from <= j < i ==> #[trigger] s@.subrange(j, j + pat@.len() as int) != pat@,
        decreases last + 1 - i,
    {
        if str_range_eq(s, i, i + pl, pat) {
            return true;
        }
        i = i + 1;
    }
    false
}

} // verus!
