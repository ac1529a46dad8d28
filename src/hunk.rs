use vstd::prelude::*;

verus! {

/// A count in a hunk header, as it was written.
#[derive(Clone, Copy, Debug, PartialEq, Eq)]
pub enum Count {
    /// No `,<count>` group: the hunk covers one line.
    Omitted,
    /// A count that was written and read.
    Given(usize),
    /// Digits were written but their value does not fit in `usize`; one line
    /// is assumed, and this variant keeps that substitution visible.
    Lenient,
}

impl Count {
    pub open spec fn spec_lines(self) -> nat {
        match self {
            Count::Given(n) => n as nat,
            _ => 1,
        }
    }

    /// The number of lines that the count stands for.
    pub fn lines(&self) -> (r: usize)
        ensures
            r == self.spec_lines(),
    {
        match self {
            Count::Given(n) => *n,
            _ => 1,
        }
    }
}

/// A parsed `@@ -<old_start>[,<old_count>] +<new_start>[,<new_count>] @@` line.
/// A start is `None` when its digits do not fit in `usize`.
#[derive(Clone, Copy, Debug, PartialEq, Eq)]
pub struct HunkHeader {
    pub old_start: Option<usize>,
    pub old_count: Count,
    pub new_start: Option<usize>,
    pub new_count: Count,
}

/// An ASCII decimal digit.
pub open spec fn is_digit(c: char) -> bool {
    '0' <= c && c <= '9'
}

/// `s` holds `c` at index `i`.
pub open spec fn char_at(s: Seq<char>, i: int, c: char) -> bool {
    0 <= i < s.len() && s[i] == c
}

/// The index just past the run of ASCII digits of `s` that starts at `i`.
pub open spec fn digits_end(s: Seq<char>, i: int) -> int
    decreases s.len() - i,
{
    if 0 <= i < s.len() && is_digit(s[i]) {
        digits_end(s, i + 1)
    } else {
        i
    }
}

/// The value of a run of ASCII digits.
pub open spec fn decimal_value(d: Seq<char>) -> nat
    decreases d.len(),
{
    if d.len() == 0 {
        0
    } else {
        decimal_value(d.drop_last()) * 10 + (d.last() as nat - '0' as nat) as nat
    }
}

/// A start line read from its digits: `None` when it does not fit in `usize`.
pub open spec fn start_from(d: Seq<char>) -> Option<usize> {
    if decimal_value(d) <= usize::MAX {
        Some(decimal_value(d) as usize)
    } else {
        None
    }
}

/// A count read from its digits: `Lenient` when it does not fit in `usize`.
pub open spec fn count_from(d: Seq<char>) -> Count {
    if decimal_value(d) <= usize::MAX {
        Count::Given(decimal_value(d) as usize)
    } else {
        Count::Lenient
    }
}

/// The optional `,<digits>` group at `i`: the count and the index past it.
pub open spec fn count_group(s: Seq<char>, i: int) -> (Count, int) {
    if char_at(s, i, ',') && digits_end(s, i + 1) > i + 1 {
        (count_from(s.subrange(i + 1, digits_end(s, i + 1))), digits_end(s, i + 1))
    } else {
        (Count::Omitted, i)
    }
}

/// The hunk header at the start of `s`, if `s` begins with one; what follows
/// the closing `@@` is not read.
pub open spec fn header_of(s: Seq<char>) -> Option<HunkHeader> {
    let a = 4int;
    let ae = digits_end(s, a);
    let (oc, p) = count_group(s, ae);
    let b = p + 2;
    let be = digits_end(s, b);
    let (nc, q) = count_group(s, be);
    if char_at(s, 0, '@') && char_at(s, 1, '@') && char_at(s, 2, ' ') && char_at(s, 3, '-')
        && ae > a && char_at(s, p, ' ') && char_at(s, p + 1, '+') && be > b && char_at(s, q, ' ')
        && char_at(s, q + 1, '@') && char_at(s, q + 2, '@') {
        Some(
            HunkHeader {
                old_start: start_from(s.subrange(a, ae)),
                old_count: oc,
                new_start: start_from(s.subrange(b, be)),
                new_count: nc,
            },
        )
    } else {
        None
    }
}

fn char_is(s: &Vec<char>, i: usize, c: char) -> (r: bool)
    ensures
        r == char_at(s@, i as int, c),
        r ==> i < s.len(),
{
    i < s.len() && s[i] == c
}

proof fn lemma_digits_end_bounds(s: Seq<char>, i: int)
    requires
        0 <= i <= s.len(),
    ensures
        i <= digits_end(s, i) <= s.len(),
        forall|k: int| i <= k < digits_end(s, i) ==> is_digit(#[trigger] s[k]),
    decreases s.len() - i,
{
    if i < s.len() && is_digit(s[i]) {
        lemma_digits_end_bounds(s, i + 1);
    }
}

/// Reads the run of digits at `i`: its end, and its value when that fits in `usize`.
fn read_number(s: &Vec<char>, i: usize) -> (r: (usize, Option<usize>))
    requires
        i <= s@.len(),
    ensures
        r.0 == digits_end(s@, i as int),
        i <= r.0 <= s@.len(),
        r.1 == start_from(s@.subrange(i as int, r.0 as int)),
{
    proof {
        lemma_digits_end_bounds(s@, i as int);
    }
    let mut j: usize = i;
    let mut value: Option<usize> = Some(0);
    while j < s.len() && '0' <= s[j] && s[j] <= '9'
        invariant
            i <= j <= digits_end(s@, i as int) <= s@.len(),
            digits_end(s@, j as int) == digits_end(s@, i as int),
            value == start_from(s@.subrange(i as int, j as int)),
        decreases s@.len() - j,
    {
        let d: usize = ((s[j] as u32) - 48) as usize;
        let ghost before = s@.subrange(i as int, j as int);
        let ghost after = s@.subrange(i as int, j + 1);
        assert(after.drop_last() =~= before);
        proof {
            lemma_digits_end_bounds(s@, j + 1);
        }
        assert(decimal_value(after) == decimal_value(before) * 10 + d);
        value = match value {
            Some(v) => {
                if v <= (usize::MAX - d) / 10 {
                    assert(v * 10 + d <= usize::MAX) by (nonlinear_arith)
                        requires
                            v <= (usize::MAX - d) / 10,
                            d <= 9,
                    ;
                    Some(v * 10 + d)
                } else {
                    assert(v * 10 + d > usize::MAX) by (nonlinear_arith)
                        requires
                            v > (usize::MAX - d) / 10,
                            d <= 9,
                    ;
                    None
                }
            },
            None => None,
        };
        j = j + 1;
    }
    (j, value)
}

fn count_group_exec(s: &Vec<char>, i: usize) -> (r: (Count, usize))
    requires
        i <= s@.len(),
    ensures
        (r.0, r.1 as int) == count_group(s@, i as int),
        i <= r.1 <= s@.len(),
{
    if char_is(s, i, ',') {
        let (e, v) = read_number(s, i + 1);
        if e > i + 1 {
            let c = match v {
                Some(n) => Count::Given(n),
                None => Count::Lenient,
            };
            return (c, e);
        }
    }
    (Count::Omitted, i)
}

/// Parses the hunk header at the start of `line`.
pub fn parse_header_chars(line: &Vec<char>) -> (r: Option<HunkHeader>)
    ensures
        r == header_of(line@),
{
    if !(char_is(line, 0, '@') && char_is(line, 1, '@') && char_is(line, 2, ' ') && char_is(
        line,
        3,
        '-',
    )) {
        return None;
    }
    let (ae, old_start) = read_number(line, 4);
    if ae == 4 {
        return None;
    }
    let (old_count, p) = count_group_exec(line, ae);
    if !(char_is(line, p, ' ') && char_is(line, p + 1, '+')) {
        return None;
    }
    let b = p + 2;
    let (be, new_start) = read_number(line, b);
    if be == b {
        return None;
    }
    let (new_count, q) = count_group_exec(line, be);
    if !(char_is(line, q, ' ') && char_is(line, q + 1, '@') && char_is(line, q + 2, '@')) {
        return None;
    }
    Some(HunkHeader { old_start, old_count, new_start, new_count })
}

/// Parses the hunk header at the start of `line`: `None` when `line` does not
/// begin with one.
pub fn parse_hunk_header(line: &str) -> (r: Option<HunkHeader>)
    ensures
        r == header_of(line@),
{
    let chars = crate::text::chars_vec(line);
    parse_header_chars(&chars)
}

} // verus!
