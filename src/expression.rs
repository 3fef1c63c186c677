//! Checks on the text of a cron expression, made on its bytes before the
//! expression is handed to `cron_clock`.
//!
//! Two kinds of text are refused: a step of zero (`*/0`), and a year field
//! that leaves out some year. A field is a run of non-blank bytes here; the
//! text keeps to that when no two fields are written together without a
//! blank (`*2025`). Six runs then mean six fields and no year field; seven
//! runs whose last is `*` mean a year field of every year.
use vstd::prelude::*;
use vstd::string::StringSliceAdditionalSpecFns;

verus! {

pub open spec fn is_blank(c: u8) -> bool {
    c == 32 || c == 9 || c == 10 || c == 13
}

pub open spec fn is_digit(c: u8) -> bool {
    48 <= c <= 57
}

pub open spec fn is_letter(c: u8) -> bool {
    (65 <= c <= 90) || (97 <= c <= 122)
}

/// Whether `d` right after `c` may start a new field: the two bytes cannot
/// belong to one specifier (`*` or `?` go on only with `/` or `,`; a number
/// or a name only with more of itself, `-`, `/` or `,`).
pub open spec fn glued(c: u8, d: u8) -> bool {
    let joiner = d == 47 || d == 44 || d == 45;
    &&& !is_blank(c) && !is_blank(d)
    &&& if c == 42 || c == 63 {
        !(d == 47 || d == 44)
    } else if is_digit(c) {
        !(is_digit(d) || joiner)
    } else if is_letter(c) {
        !(is_letter(d) || joiner)
    } else {
        false
    }
}

/// The state after the first `n` bytes of a scan for a zero step: 1 just
/// after a `/` (and any blanks), 2 inside a run of zeros that follows one,
/// 0 elsewhere.
pub open spec fn step_state(b: Seq<u8>, n: int) -> int
    decreases n,
{
    if n <= 0 || n > b.len() {
        0
    } else {
        let s = step_state(b, n - 1);
        let c = b[n - 1];
        if c == 47 {
            1
        } else if s == 1 && is_blank(c) {
            1
        } else if (s == 1 || s == 2) && c == 48 {
            2
        } else {
            0
        }
    }
}

/// Whether a step made of zeros ends within the first `n` bytes.
pub open spec fn zero_step_within(b: Seq<u8>, n: int) -> bool
    decreases n,
{
    if n <= 0 || n > b.len() {
        false
    } else {
        zero_step_within(b, n - 1) || (step_state(b, n - 1) == 2 && !is_digit(b[n - 1]))
    }
}

/// Whether the text holds a `/` whose step is made of zeros only.
pub open spec fn has_zero_step(b: Seq<u8>) -> bool {
    zero_step_within(b, b.len() as int) || step_state(b, b.len() as int) == 2
}

/// The number of runs of non-blank bytes among the first `n`.
pub open spec fn run_count(b: Seq<u8>, n: int) -> int
    decreases n,
{
    if n <= 0 || n > b.len() {
        0
    } else {
        run_count(b, n - 1) + if !is_blank(b[n - 1]) && (n == 1 || is_blank(b[n - 2])) {
            1int
        } else {
            0int
        }
    }
}

/// Whether two fields are written together somewhere among the first `n` bytes.
pub open spec fn glued_within(b: Seq<u8>, n: int) -> bool
    decreases n,
{
    if n <= 1 || n > b.len() {
        false
    } else {
        glued_within(b, n - 1) || glued(b[n - 2], b[n - 1])
    }
}

/// Whether the last run among the first `n` bytes is a lone `*`.
pub open spec fn last_run_is_star(b: Seq<u8>, n: int) -> bool
    decreases n,
{
    if n <= 0 || n > b.len() {
        false
    } else if is_blank(b[n - 1]) {
        last_run_is_star(b, n - 1)
    } else {
        b[n - 1] == 42 && (n == 1 || is_blank(b[n - 2]))
    }
}

/// Whether the text's year field, if it has one, takes every year.
pub open spec fn every_year(b: Seq<u8>) -> bool {
    let n = b.len() as int;
    &&& !glued_within(b, n)
    &&& run_count(b, n) <= 6 || (run_count(b, n) == 7 && last_run_is_star(b, n))
}

/// Whether the text may be handed to `cron_clock`.
pub open spec fn cron_text_allowed(b: Seq<u8>) -> bool {
    !has_zero_step(b) && every_year(b)
}

/// Checks the text: no zero step, and no year field that leaves out a year.
pub fn check_cron_text(expression: &str) -> (r: bool)
    ensures
        r == cron_text_allowed(expression.spec_bytes()),
{
    let b = expression.as_bytes();
    let ghost bs = b@;
    let mut state: u8 = 0;
    let mut zero_step = false;
    let mut runs: usize = 0;
    let mut together = false;
    let mut star_last = false;
    let mut i: usize = 0;
    while i < b.len()
        invariant
            bs == b@,
            0 <= i <= bs.len(),
            state as int == step_state(bs, i as int),
            zero_step == zero_step_within(bs, i as int),
            runs as int == run_count(bs, i as int),
            runs <= i,
            together == glued_within(bs, i as int),
            star_last == last_run_is_star(bs, i as int),
        decreases bs.len() - i,
    {
        let c = b[i];
        if state == 2 && !(48 <= c && c <= 57) {
            zero_step = true;
        }
        if c == 47 {
            state = 1;
        } else if state == 1 && (c == 32 || c == 9 || c == 10 || c == 13) {
            state = 1;
        } else if (state == 1 || state == 2) && c == 48 {
            state = 2;
        } else {
            state = 0;
        }
        let blank = c == 32 || c == 9 || c == 10 || c == 13;
        if !blank {
            let starts = i == 0 || {
                let p = b[i - 1];
                p == 32 || p == 9 || p == 10 || p == 13
            };
            if starts {
                runs = runs + 1;
            }
            star_last = c == 42 && starts;
            if i > 0 && glued_bytes(b[i - 1], c) {
                together = true;
            }
        }
        i = i + 1;
    }
    !(zero_step || state == 2) && !together && (runs <= 6 || (runs == 7 && star_last))
}

fn glued_bytes(c: u8, d: u8) -> (r: bool)
    ensures
        r == glued(c, d),
{
    let blank_c = c == 32 || c == 9 || c == 10 || c == 13;
    let blank_d = d == 32 || d == 9 || d == 10 || d == 13;
    if blank_c || blank_d {
        return false;
    }
    let joiner = d == 47 || d == 44 || d == 45;
    if c == 42 || c == 63 {
        !(d == 47 || d == 44)
    } else if 48 <= c && c <= 57 {
        !((48 <= d && d <= 57) || joiner)
    } else if (65 <= c && c <= 90) || (97 <= c && c <= 122) {
        !(((65 <= d && d <= 90) || (97 <= d && d <= 122)) || joiner)
    } else {
        false
    }
}

} // verus!
