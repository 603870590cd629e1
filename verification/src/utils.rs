//! Small shared helpers: page requests, date and organisation-number
//! formatting.

use vstd::prelude::*;
use vstd::string::StrSliceExecFns;
use vstd::string::StringExecFns;
use crate::datum::{datum_text, Datum};
use crate::text;

verus! {

/// One page of a paginated listing request.
#[derive(Clone, Copy, Debug, PartialEq, Eq, Structural)]
pub struct PageReq {
    pub page: u32,
    pub size: u32,
}

/// Renders a date as `YYYY-MM-DD`.
pub fn format_local_date(date: &Datum) -> (r: String)
    requires
        date.giltigt(),
    ensures
        r@ == datum_text(*date),
{
    crate::datum::datum_text_exec(date)
}

/// An organisation number: ten or twelve digits get a hyphen before the last
/// four; anything else is only trimmed.
pub open spec fn orgnr_spec(s: Seq<char>) -> Seq<char> {
    let t = text::trimmad(s);
    if text::alla_siffror(t) && (t.len() == 10 || t.len() == 12) {
        t.subrange(0, t.len() - 4) + seq!['-'] + t.subrange(t.len() - 4, t.len() as int)
    } else {
        t
    }
}

fn alla_siffror_exec(s: &str) -> (r: bool)
    ensures
        r == text::alla_siffror(s@),
{
    let n = s.unicode_len();
    let mut i: usize = 0;
    while i < n
        invariant
            0 <= i <= n,
            n == s@.len(),
            forall|k: int| 0 <= k < i ==> text::ar_siffra(#[trigger] s@[k]),
        decreases n - i,
    {
        let c = s.get_char(i);
        let cu = c as u32;
        if cu < '0' as u32 || cu > '9' as u32 {
            proof {
                assert(!text::ar_siffra(s@[i as int]));
            }
            return false;
        }
        i = i + 1;
    }
    true
}

/// Prompts on the terminal and reads one line of input, trimmed.  A failed
/// read counts as no input at all.
pub fn read_prompt_trim(prompt: &str) -> (r: String)
    ensures
        r@ == text::trimmad(r@),
{
    crate::term::skriv_prompt(prompt);
    match crate::term::las_rad() {
        Some(rad) => {
            let t = text::trimma(rad.as_str());
            proof {
                text::lemma_trimmad_idempotent(rad@);
            }
            t
        },
        None => String::new(),
    }
}

/// Prompts for a secret: with echo off on a terminal, as a plain line
/// otherwise.  The result is trimmed; a failed read counts as no input.
pub fn read_password_trim(prompt: &str) -> (r: String)
    ensures
        r@ == text::trimmad(r@),
{
    let rad = if crate::term::stdin_ar_terminal() {
        crate::term::las_losenord(prompt)
    } else {
        crate::term::skriv_prompt(prompt);
        crate::term::las_rad()
    };
    match rad {
        Some(s) => {
            let t = text::trimma(s.as_str());
            proof {
                text::lemma_trimmad_idempotent(s@);
            }
            t
        },
        None => String::new(),
    }
}

/// Normalises an organisation number for the cashier service.
pub fn format_orgnr(orgnr: &str) -> (r: String)
    ensures
        r@ == orgnr_spec(orgnr@),
{
    let t = text::trimma(orgnr);
    let n = t.as_str().unicode_len();
    if alla_siffror_exec(t.as_str()) && (n == 10 || n == 12) {
        let mut r = t.as_str().substring_char(0, n - 4).to_owned();
        proof {
            reveal_strlit("-");
        }
        r.append("-");
        r.append(t.as_str().substring_char(n - 4, n));
        proof {
            assert(r@ =~= orgnr_spec(orgnr@));
        }
        r
    } else {
        t
    }
}

} // verus!
