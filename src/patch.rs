use vstd::prelude::*;
use crate::hunk::{header_of, parse_header_chars, HunkHeader};
use crate::text::{
    all_white, chars_vec, decimal_text, is_blank, push_decimal, string_of,
};

verus! {

/// Where the scan of a patch stands: before the first hunk, or inside a hunk
/// with the counts its header announced and the counts seen so far.
pub enum Scan {
    BeforeHunk,
    InHunk { expected_old: nat, expected_new: nat, seen_old: nat, seen_new: nat },
}

/// Why a patch is rejected, over mathematical values.
pub enum Fault {
    EmptyPatch,
    NoHunkFound,
    OldCountMismatch { expected: nat, seen: nat },
    NewCountMismatch { expected: nat, seen: nat },
    UnsupportedLine { line: Seq<char> },
}

/// Why a patch is rejected.
#[derive(Debug)]
pub enum PatchError {
    /// The patch is empty or holds only white space.
    EmptyPatch,
    /// No hunk header was found.
    NoHunkFound,
    /// A hunk holds another number of old-side lines than its header says.
    OldCountMismatch { expected: usize, seen: usize },
    /// A hunk holds another number of new-side lines than its header says.
    NewCountMismatch { expected: usize, seen: usize },
    /// A line inside a hunk is neither context, removal, addition nor marker.
    UnsupportedLine { line: String },
}

impl View for PatchError {
    type V = Fault;

    open spec fn view(&self) -> Fault {
        match self {
            PatchError::EmptyPatch => Fault::EmptyPatch,
            PatchError::NoHunkFound => Fault::NoHunkFound,
            PatchError::OldCountMismatch { expected, seen } => Fault::OldCountMismatch {
                expected: *expected as nat,
                seen: *seen as nat,
            },
            PatchError::NewCountMismatch { expected, seen } => Fault::NewCountMismatch {
                expected: *expected as nat,
                seen: *seen as nat,
            },
            PatchError::UnsupportedLine { line } => Fault::UnsupportedLine { line: line@ },
        }
    }
}

/// A line closed by `\n`, without the `\r` that may stand before the `\n`.
pub open spec fn strip_cr(l: Seq<char>) -> Seq<char> {
    if l.len() > 0 && l.last() == '\r' {
        l.drop_last()
    } else {
        l
    }
}

/// The lines of `s[start..]`, scanning from index `i`, where `s[start..i]`
/// holds no `\n`. Lines end at `\n` (a `\r` before it is dropped); a final line
/// without `\n` is kept as it is, and text that ends in `\n` has no empty last
/// line.
pub open spec fn lines_from(s: Seq<char>, i: int, start: int) -> Seq<Seq<char>>
    decreases s.len() - i,
{
    if i >= s.len() {
        if start < s.len() {
            seq![s.subrange(start, s.len() as int)]
        } else {
            seq![]
        }
    } else if s[i] == '\n' {
        seq![strip_cr(s.subrange(start, i))] + lines_from(s, i + 1, i + 1)
    } else {
        lines_from(s, i + 1, start)
    }
}

/// The lines of `s`.
pub open spec fn lines_of(s: Seq<char>) -> Seq<Seq<char>> {
    lines_from(s, 0, 0)
}

pub open spec fn starts_with(l: Seq<char>, p: Seq<char>) -> bool {
    p.len() <= l.len() && l.subrange(0, p.len() as int) == p
}

pub open spec fn first_is(l: Seq<char>, c: char) -> bool {
    l.len() > 0 && l[0] == c
}

/// The marker `\ No newline` that diff writes after a last line without newline.
pub open spec fn no_newline_marker() -> Seq<char> {
    seq!['\\', ' ', 'N', 'o', ' ', 'n', 'e', 'w', 'l', 'i', 'n', 'e']
}

/// The check made when a hunk ends.
pub open spec fn close_hunk(st: Scan) -> Result<(), Fault> {
    match st {
        Scan::InHunk { expected_old, expected_new, seen_old, seen_new } => {
            if seen_old != expected_old {
                Err(Fault::OldCountMismatch { expected: expected_old, seen: seen_old })
            } else if seen_new != expected_new {
                Err(Fault::NewCountMismatch { expected: expected_new, seen: seen_new })
            } else {
                Ok(())
            }
        },
        Scan::BeforeHunk => Ok(()),
    }
}

/// One line of the scan. A header closes the open hunk and opens another.
/// Before the first hunk other lines are skipped. Inside a hunk a line that
/// starts with ` ` counts on both sides, `-` on the old side, `+` on the new
/// side (so `--- ` and `+++ ` lines count too); the no-newline marker is
/// skipped and any other line is refused.
pub open spec fn step(st: Scan, line: Seq<char>) -> Result<Scan, Fault> {
    match header_of(line) {
        Some(h) => match close_hunk(st) {
            Err(f) => Err(f),
            Ok(_) => Ok(
                Scan::InHunk {
                    expected_old: h.old_count.spec_lines(),
                    expected_new: h.new_count.spec_lines(),
                    seen_old: 0,
                    seen_new: 0,
                },
            ),
        },
        None => match st {
            Scan::BeforeHunk => Ok(Scan::BeforeHunk),
            Scan::InHunk { expected_old, expected_new, seen_old, seen_new } => {
                if first_is(line, ' ') {
                    Ok(
                        Scan::InHunk {
                            expected_old,
                            expected_new,
                            seen_old: seen_old + 1,
                            seen_new: seen_new + 1,
                        },
                    )
                } else if first_is(line, '-') {
                    Ok(Scan::InHunk { expected_old, expected_new, seen_old: seen_old + 1, seen_new })
                } else if first_is(line, '+') {
                    Ok(Scan::InHunk { expected_old, expected_new, seen_old, seen_new: seen_new + 1 })
                } else if starts_with(line, no_newline_marker()) {
                    Ok(st)
                } else {
                    Err(Fault::UnsupportedLine { line })
                }
            },
        },
    }
}

/// The scan of `lines` from state `st` to the end of the input.
pub open spec fn run(lines: Seq<Seq<char>>, st: Scan) -> Result<(), Fault>
    decreases lines.len(),
{
    if lines.len() == 0 {
        match st {
            Scan::BeforeHunk => Err(Fault::NoHunkFound),
            _ => close_hunk(st),
        }
    } else {
        match step(st, lines[0]) {
            Err(f) => Err(f),
            Ok(next) => run(lines.drop_first(), next),
        }
    }
}

/// The verdict on a patch: `Ok` when it is well formed, else the first fault.
pub open spec fn patch_verdict(s: Seq<char>) -> Result<(), Fault> {
    if all_white(s) {
        Err(Fault::EmptyPatch)
    } else {
        run(lines_of(s), Scan::BeforeHunk)
    }
}

/// What the scan of a patch reports: `"ok"`, or the fault in words.
pub open spec fn fault_text(f: Fault) -> Seq<char> {
    match f {
        Fault::EmptyPatch => "Patch is empty"@,
        Fault::NoHunkFound => "Patch must contain at least one unified diff hunk (@@ ...)."@,
        Fault::OldCountMismatch { expected, seen } => "Old-side hunk line count mismatch: expected "@
            + decimal_text(expected) + ", got "@ + decimal_text(seen),
        Fault::NewCountMismatch { expected, seen } => "New-side hunk line count mismatch: expected "@
            + decimal_text(expected) + ", got "@ + decimal_text(seen),
        Fault::UnsupportedLine { line } => "Unsupported patch line in hunk: "@ + line,
    }
}

pub open spec fn verdict_text(v: Result<(), Fault>) -> Seq<char> {
    match v {
        Ok(_) => "ok"@,
        Err(f) => fault_text(f),
    }
}

impl PatchError {
    /// The fault in words.
    pub fn reason(&self) -> (r: String)
        ensures
            r@ == fault_text(self@),
    {
        match self {
            PatchError::EmptyPatch => String::from_str("Patch is empty"),
            PatchError::NoHunkFound => String::from_str(
                "Patch must contain at least one unified diff hunk (@@ ...).",
            ),
            PatchError::OldCountMismatch { expected, seen } => count_text(
                "Old-side hunk line count mismatch: expected ",
                *expected,
                *seen,
            ),
            PatchError::NewCountMismatch { expected, seen } => count_text(
                "New-side hunk line count mismatch: expected ",
                *expected,
                *seen,
            ),
            PatchError::UnsupportedLine { line } => {
                let mut r = String::from_str("Unsupported patch line in hunk: ");
                r.append(line.as_str());
                r
            },
        }
    }
}

fn count_text(head: &str, expected: usize, seen: usize) -> (r: String)
    ensures
        r@ == head@ + decimal_text(expected as nat) + ", got "@ + decimal_text(seen as nat),
{
    let mut r = String::from_str(head);
    push_decimal(&mut r, expected as u64);
    r.append(", got ");
    push_decimal(&mut r, seen as u64);
    r
}

/// The counters of the hunk being scanned.
#[derive(Clone, Copy, Debug)]
pub struct Tally {
    pub expected_old: usize,
    pub expected_new: usize,
    pub seen_old: usize,
    pub seen_new: usize,
}

pub open spec fn scan_of(t: Option<Tally>) -> Scan {
    match t {
        None => Scan::BeforeHunk,
        Some(t) => Scan::InHunk {
            expected_old: t.expected_old as nat,
            expected_new: t.expected_new as nat,
            seen_old: t.seen_old as nat,
            seen_new: t.seen_new as nat,
        },
    }
}

pub open spec fn seen_at_most(t: Option<Tally>, n: int) -> bool {
    match t {
        None => true,
        Some(t) => t.seen_old <= n && t.seen_new <= n,
    }
}

pub open spec fn seen_max(t: Option<Tally>) -> int {
    match t {
        None => 0,
        Some(t) => if t.seen_old >= t.seen_new {
            t.seen_old as int
        } else {
            t.seen_new as int
        },
    }
}

fn close_tally(t: &Tally) -> (r: Result<(), PatchError>)
    ensures
        match r {
            Ok(_) => close_hunk(scan_of(Some(*t))) is Ok,
            Err(e) => close_hunk(scan_of(Some(*t))) == Err::<(), Fault>(e@),
        },
{
    if t.seen_old != t.expected_old {
        Err(PatchError::OldCountMismatch { expected: t.expected_old, seen: t.seen_old })
    } else if t.seen_new != t.expected_new {
        Err(PatchError::NewCountMismatch { expected: t.expected_new, seen: t.seen_new })
    } else {
        Ok(())
    }
}

fn first_char_is(l: &Vec<char>, c: char) -> (r: bool)
    ensures
        r == first_is(l@, c),
{
    l.len() > 0 && l[0] == c
}

fn has_no_newline_marker(l: &Vec<char>) -> (r: bool)
    ensures
        r == starts_with(l@, no_newline_marker()),
{
    let m: Vec<char> = vec!['\\', ' ', 'N', 'o', ' ', 'n', 'e', 'w', 'l', 'i', 'n', 'e'];
    assert(m@ =~= no_newline_marker());
    if l.len() < m.len() {
        return false;
    }
    let mut i: usize = 0;
    while i < m.len()
        invariant
            i <= m@.len() <= l@.len(),
            m@ == no_newline_marker(),
            forall|k: int| 0 <= k < i ==> l@[k] == m@[k],
        decreases m@.len() - i,
    {
        if l[i] != m[i] {
            assert(l@.subrange(0, m@.len() as int)[i as int] != no_newline_marker()[i as int]);
            return false;
        }
        i = i + 1;
    }
    assert(l@.subrange(0, m@.len() as int) =~= m@);
    true
}

/// One line of the scan, on the counters of the open hunk (`None` before the first).
fn step_line(state: Option<Tally>, line: &Vec<char>) -> (r: Result<Option<Tally>, PatchError>)
    requires
        seen_at_most(state, usize::MAX - 1),
    ensures
        match r {
            Ok(t) => step(scan_of(state), line@) == Ok::<Scan, Fault>(scan_of(t)),
            Err(e) => step(scan_of(state), line@) == Err::<Scan, Fault>(e@),
        },
        r matches Ok(t) ==> seen_at_most(t, seen_max(state) + 1),
{
    match parse_header_chars(line) {
        Some(h) => {
            if let Some(t) = state {
                if let Err(e) = close_tally(&t) {
                    return Err(e);
                }
            }
            Ok(
                Some(
                    Tally {
                        expected_old: h.old_count.lines(),
                        expected_new: h.new_count.lines(),
                        seen_old: 0,
                        seen_new: 0,
                    },
                ),
            )
        },
        None => match state {
            None => Ok(None),
            Some(t) => {
                if first_char_is(line, ' ') {
                    Ok(Some(Tally { seen_old: t.seen_old + 1, seen_new: t.seen_new + 1, ..t }))
                } else if first_char_is(line, '-') {
                    Ok(Some(Tally { seen_old: t.seen_old + 1, ..t }))
                } else if first_char_is(line, '+') {
                    Ok(Some(Tally { seen_new: t.seen_new + 1, ..t }))
                } else if has_no_newline_marker(line) {
                    Ok(state)
                } else {
                    Err(PatchError::UnsupportedLine { line: string_of(line) })
                }
            },
        },
    }
}

/// The characters of `s[start..end]`, less a last `\r` when `strip` is set.
fn line_chars(s: &Vec<char>, start: usize, end: usize, strip: bool) -> (r: Vec<char>)
    requires
        start <= end <= s@.len(),
    ensures
        r@ == if strip {
            strip_cr(s@.subrange(start as int, end as int))
        } else {
            s@.subrange(start as int, end as int)
        },
{
    let stop: usize = if strip && end > start && s[end - 1] == '\r' {
        end - 1
    } else {
        end
    };
    let mut r: Vec<char> = Vec::new();
    let mut k: usize = start;
    while k < stop
        invariant
            start <= k <= stop <= end <= s@.len(),
            r@ == s@.subrange(start as int, k as int),
        decreases stop - k,
    {
        r.push(s[k]);
        k = k + 1;
        assert(r@ =~= s@.subrange(start as int, k as int));
    }
    proof {
        if end > start {
            assert(s@.subrange(start as int, end as int).drop_last() =~= s@.subrange(
                start as int,
                end as int - 1,
            ));
        }
    }
    r
}

proof fn lemma_run_cons(l: Seq<char>, rest: Seq<Seq<char>>, st: Scan)
    ensures
        run(seq![l] + rest, st) == match step(st, l) {
            Err(f) => Err(f),
            Ok(next) => run(rest, next),
        },
{
    let all = seq![l] + rest;
    assert(all[0] == l);
    assert(all.drop_first() =~= rest);
}

/// Checks that `patch` is a well-formed unified diff: at least one hunk, and
/// in each hunk as many old-side and new-side lines as its header announces.
pub fn validate(patch: &str) -> (r: Result<(), PatchError>)
    ensures
        match r {
            Ok(_) => patch_verdict(patch@) is Ok,
            Err(e) => patch_verdict(patch@) == Err::<(), Fault>(e@),
        },
{
    let s = chars_vec(patch);
    if is_blank(&s) {
        return Err(PatchError::EmptyPatch);
    }
    let mut state: Option<Tally> = None;
    let mut start: usize = 0;
    let mut i: usize = 0;
    while i < s.len()
        invariant
            start <= i <= s@.len(),
            s@ == patch@,
            !all_white(s@),
            run(lines_from(s@, i as int, start as int), scan_of(state)) == run(
                lines_of(s@),
                Scan::BeforeHunk,
            ),
            seen_at_most(state, start as int),
        decreases s@.len() - i,
    {
        if s[i] == '\n' {
            let line = line_chars(&s, start, i, true);
            proof {
                lemma_run_cons(line@, lines_from(s@, i + 1, i + 1), scan_of(state));
            }
            match step_line(state, &line) {
                Err(e) => return Err(e),
                Ok(t) => state = t,
            }
            start = i + 1;
        }
        i = i + 1;
    }
    if start < s.len() {
        let line = line_chars(&s, start, s.len(), false);
        proof {
            lemma_run_cons(line@, seq![], scan_of(state));
            assert(seq![line@] + Seq::<Seq<char>>::empty() =~= seq![line@]);
        }
        match step_line(state, &line) {
            Err(e) => return Err(e),
            Ok(t) => state = t,
        }
    }
    match state {
        None => Err(PatchError::NoHunkFound),
        Some(t) => close_tally(&t),
    }
}

/// Checks `patch` and reports `(true, "ok")`, or `false` and the fault in words.
pub fn validate_patch(patch: &str) -> (r: (bool, String))
    ensures
        r.0 == patch_verdict(patch@) is Ok,
        r.1@ == verdict_text(patch_verdict(patch@)),
{
    match validate(patch) {
        Ok(_) => (true, String::from_str("ok")),
        Err(e) => (false, e.reason()),
    }
}

/// Validation depends on the text alone: two runs on equal texts give the
/// same verdict and the same reason.
pub proof fn lemma_validate_patch_deterministic(
    p: Seq<char>,
    q: Seq<char>,
    first: (bool, String),
    second: (bool, String),
)
    requires
        p == q,
        first.0 == patch_verdict(p) is Ok,
        first.1@ == verdict_text(patch_verdict(p)),
        second.0 == patch_verdict(q) is Ok,
        second.1@ == verdict_text(patch_verdict(q)),
    ensures
        first.0 == second.0,
        first.1@ == second.1@,
{
}

} // verus!
