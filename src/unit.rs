//! Scanners for the atomic tokens: string and integer literals, identifier
//! chains and runs of operator characters.

use vstd::prelude::*;

use crate::ast::{ErrorKind, Statement};
use crate::grammar::{
    digits_value, lemma_run_end, in_run, run_end, scan_chain, scan_int, scan_special, scan_string, Run, Scan,
};
use crate::stream::Stream;
use crate::symbol::is_digit_char;

verus! {

/// A scanner's result with where it stopped, as a value of the model.
pub open spec fn scan_of(r: Result<Statement, ErrorKind>, end: int) -> Scan {
    (
        match r {
            Ok(st) => Ok(st.model()),
            Err(k) => Err(k),
        },
        end,
    )
}

fn is_in_run(r: Run, c: char) -> (b: bool)
    ensures
        b == in_run(r, c),
{
    match r {
        Run::Blank => c == ' ' || c == '\t',
        Run::Digits => '0' <= c && c <= '9',
        Run::Chain => ('a' <= c && c <= 'z') || ('A' <= c && c <= 'Z') || c == '_' || ('0' <= c
            && c <= '9') || c == '.',
        Run::Specials => c == '+' || c == '-' || c == '*' || c == '/' || c == '=' || c == '<' || c
            == '>' || c == '!' || c == '&' || c == '|' || c == '^' || c == '%' || c == '~' || c
            == '?' || c == ':' || c == ';' || c == '@' || c == '$',
        Run::StringBody => c != '"',
    }
}

/// Consumes the maximal run of kind `r` and returns its characters.
pub fn take_run(st: &mut Stream, r: Run) -> (v: Vec<char>)
    requires
        old(st).wf(),
    ensures
        final(st).wf(),
        final(st).text() == old(st).text(),
        final(st).cursor() == run_end(old(st).text(), old(st).cursor(), r),
        old(st).cursor() <= final(st).cursor() <= old(st).text().len(),
        forall|j: int|
            old(st).cursor() <= j < final(st).cursor() ==> in_run(r, #[trigger] old(st).text()[j]),
        v@ == old(st).text().subrange(old(st).cursor(), final(st).cursor()),
{
    let ghost s = st.text();
    let ghost i0 = st.cursor();
    proof {
        lemma_run_end(s, i0, r);
    }
    let mut v: Vec<char> = Vec::new();
    loop
        invariant
            st.wf(),
            st.text() == s,
            s == old(st).text(),
            i0 == old(st).cursor(),
            i0 <= st.cursor() <= run_end(s, i0, r),
            i0 <= run_end(s, i0, r) <= s.len(),
            forall|j: int| i0 <= j < run_end(s, i0, r) ==> in_run(r, #[trigger] s[j]),
            run_end(s, st.cursor(), r) == run_end(s, i0, r),
            v@ == s.subrange(i0, st.cursor()),
        decreases s.len() - st.cursor(),
    {
        match st.peek() {
            Some(c) => {
                if is_in_run(r, c) {
                    proof {
                        lemma_run_end(s, st.cursor() + 1, r);
                    }
                    st.next();
                    v.push(c);
                    assert(v@ =~= s.subrange(i0, st.cursor()));
                } else {
                    assert(run_end(s, st.cursor(), r) == st.cursor());
                    return v;
                }
            },
            None => {
                return v;
            },
        }
    }
}

/// Scans a string literal; the stream stands on its opening quote.
pub fn string_lit(st: &mut Stream) -> (r: Result<Statement, ErrorKind>)
    requires
        old(st).wf(),
        old(st).cursor() < old(st).text().len(),
        old(st).text()[old(st).cursor()] == '"',
    ensures
        final(st).wf(),
        final(st).text() == old(st).text(),
        scan_of(r, final(st).cursor()) == scan_string(old(st).text(), old(st).cursor()),
{
    st.next();
    let body = take_run(st, Run::StringBody);
    match st.next() {
        Some(_) => Ok(Statement::LitString(body)),
        None => Err(ErrorKind::UnterminatedString),
    }
}

/// Scans an identifier chain; the stream stands on its first letter.
pub fn chain(st: &mut Stream) -> (r: Result<Statement, ErrorKind>)
    requires
        old(st).wf(),
        old(st).cursor() < old(st).text().len(),
        in_run(Run::Chain, old(st).text()[old(st).cursor()]),
    ensures
        final(st).wf(),
        final(st).text() == old(st).text(),
        scan_of(r, final(st).cursor()) == scan_chain(old(st).text(), old(st).cursor()),
{
    proof {
        lemma_run_end(old(st).text(), old(st).cursor(), Run::Chain);
    }
    let body = take_run(st, Run::Chain);
    if body[body.len() - 1] == '.' {
        Err(ErrorKind::ChainEndsWithDot)
    } else {
        Ok(Statement::Chain(body))
    }
}

/// Scans a run of operator characters.
pub fn special(st: &mut Stream) -> (r: Result<Statement, ErrorKind>)
    requires
        old(st).wf(),
    ensures
        final(st).wf(),
        final(st).text() == old(st).text(),
        scan_of(r, final(st).cursor()) == scan_special(old(st).text(), old(st).cursor()),
{
    Ok(Statement::Special(take_run(st, Run::Specials)))
}

/// Scans an integer literal: a maximal run of digits, read in base ten.
pub fn integer(st: &mut Stream) -> (r: Result<Statement, ErrorKind>)
    requires
        old(st).wf(),
    ensures
        final(st).wf(),
        final(st).text() == old(st).text(),
        scan_of(r, final(st).cursor()) == scan_int(old(st).text(), old(st).cursor()),
        final(st).cursor() > old(st).cursor() <== (old(st).cursor() < old(st).text().len()
            && is_digit_char(old(st).text()[old(st).cursor()])),
{
    let ghost s = st.text();
    let ghost i0 = st.cursor();
    proof {
        lemma_run_end(s, i0, Run::Digits);
    }
    let digits = take_run(st, Run::Digits);
    let mut v: u64 = 0;
    let mut overflow = false;
    let mut k: usize = 0;
    while k < digits.len()
        invariant
            k <= digits@.len(),
            forall|j: int| 0 <= j < digits@.len() ==> is_digit_char(#[trigger] digits@[j]),
            !overflow ==> v == digits_value(digits@.subrange(0, k as int)),
            overflow ==> digits_value(digits@.subrange(0, k as int)) > u64::MAX,
            digits_value(digits@.subrange(0, k as int)) >= 0,
        decreases digits.len() - k,
    {
        let c = digits[k];
        let d = (c as u32 - '0' as u32) as u64;
        let ghost prev = digits_value(digits@.subrange(0, k as int));
        assert(digits@.subrange(0, k + 1).drop_last() =~= digits@.subrange(0, k as int));
        assert(digits_value(digits@.subrange(0, k + 1)) == prev * 10 + d);
        if !overflow {
            match v.checked_mul(10) {
                Some(m) => match m.checked_add(d) {
                    Some(n) => {
                        v = n;
                    },
                    None => {
                        overflow = true;
                    },
                },
                None => {
                    overflow = true;
                },
            }
        }
        k = k + 1;
    }
    assert(digits@.subrange(0, k as int) =~= digits@);
    if overflow {
        Err(ErrorKind::IntegerOverflow)
    } else {
        Ok(Statement::LitInt(v))
    }
}

} // verus!
