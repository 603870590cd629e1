//! Calendar dates as plain year, month and day values, with Gregorian
//! validity, ordering, day-stepping and `YYYY-MM-DD` rendering.

use vstd::prelude::*;
use vstd::string::StringExecFns;
use crate::text;

verus! {

/// A calendar date.
#[derive(Clone, Copy, Debug, PartialEq, Eq, Structural)]
pub struct Datum {
    pub ar: u32,
    pub manad: u8,
    pub dag: u8,
}

/// A Gregorian leap year.
pub open spec fn skottar(ar: int) -> bool {
    ar % 4 == 0 && (ar % 100 != 0 || ar % 400 == 0)
}

/// Days of the given month in the given year.
pub open spec fn dagar_i_manad(ar: int, manad: int) -> int
    recommends
        1 <= manad <= 12,
{
    if manad == 2 {
        if skottar(ar) {
            29
        } else {
            28
        }
    } else if manad == 4 || manad == 6 || manad == 9 || manad == 11 {
        30
    } else {
        31
    }
}

impl Datum {
    /// A well-formed date with a four-digit year.
    pub open spec fn giltigt(self) -> bool {
        1 <= self.ar <= 9999 && 1 <= self.manad <= 12 && 1 <= self.dag <= dagar_i_manad(
            self.ar as int,
            self.manad as int,
        )
    }
}

/// Strict calendar order.
pub open spec fn fore(a: Datum, b: Datum) -> bool {
    a.ar < b.ar || (a.ar == b.ar && (a.manad < b.manad || (a.manad == b.manad && a.dag < b.dag)))
}

/// Calendar order, equality allowed.
pub open spec fn fore_eller_lika(a: Datum, b: Datum) -> bool {
    fore(a, b) || a == b
}

/// Whether `a` lies strictly before `b`.
pub fn ar_fore(a: &Datum, b: &Datum) -> (r: bool)
    ensures
        r == fore(*a, *b),
{
    a.ar < b.ar || (a.ar == b.ar && (a.manad < b.manad || (a.manad == b.manad && a.dag < b.dag)))
}

fn dagar_i_manad_exec(ar: u32, manad: u8) -> (r: u8)
    requires
        1 <= manad <= 12,
    ensures
        r as int == dagar_i_manad(ar as int, manad as int),
{
    if manad == 2 {
        if ar % 4 == 0 && (ar % 100 != 0 || ar % 400 == 0) {
            29
        } else {
            28
        }
    } else if manad == 4 || manad == 6 || manad == 9 || manad == 11 {
        30
    } else {
        31
    }
}

/// The previous calendar day, or nothing at the first representable day.
pub open spec fn forra_dagen(d: Datum) -> Option<Datum> {
    if d.dag > 1 {
        Some(Datum { ar: d.ar, manad: d.manad, dag: (d.dag - 1) as u8 })
    } else if d.manad > 1 {
        Some(
            Datum {
                ar: d.ar,
                manad: (d.manad - 1) as u8,
                dag: dagar_i_manad(d.ar as int, d.manad - 1) as u8,
            },
        )
    } else if d.ar > 1 {
        Some(Datum { ar: (d.ar - 1) as u32, manad: 12, dag: 31 })
    } else {
        None
    }
}

/// The date `n` days earlier, or nothing if that falls before year one.
pub open spec fn minus_dagar(d: Datum, n: nat) -> Option<Datum>
    decreases n,
{
    if n == 0 {
        Some(d)
    } else {
        match forra_dagen(d) {
            Some(p) => minus_dagar(p, (n - 1) as nat),
            None => None,
        }
    }
}

fn forra_dag_exec(d: &Datum) -> (r: Option<Datum>)
    requires
        d.giltigt(),
    ensures
        r == forra_dagen(*d),
        r is Some ==> r->Some_0.giltigt(),
{
    if d.dag > 1 {
        Some(Datum { ar: d.ar, manad: d.manad, dag: d.dag - 1 })
    } else if d.manad > 1 {
        let m = d.manad - 1;
        Some(Datum { ar: d.ar, manad: m, dag: dagar_i_manad_exec(d.ar, m) })
    } else if d.ar > 1 {
        Some(Datum { ar: d.ar - 1, manad: 12, dag: 31 })
    } else {
        None
    }
}

/// Steps the date `n` days back.
pub fn minus_dagar_exec(d: &Datum, n: u32) -> (r: Option<Datum>)
    requires
        d.giltigt(),
    ensures
        r == minus_dagar(*d, n as nat),
        r is Some ==> r->Some_0.giltigt(),
{
    let mut cur = *d;
    let mut k: u32 = n;
    while k > 0
        invariant
            cur.giltigt(),
            minus_dagar(*d, n as nat) == minus_dagar(cur, k as nat),
        decreases k,
    {
        match forra_dag_exec(&cur) {
            Some(p) => {
                cur = p;
                k = k - 1;
            },
            None => {
                return None;
            },
        }
    }
    Some(cur)
}

/// A run of zero characters, for zero-padding.
pub open spec fn nollor(k: nat) -> Seq<char>
    decreases k,
{
    if k == 0 {
        Seq::empty()
    } else {
        nollor((k - 1) as nat).push('0')
    }
}

/// `s` widened to `w` characters with zeros on the left.
pub open spec fn nollpad(s: Seq<char>, w: int) -> Seq<char> {
    if s.len() >= w {
        s
    } else {
        nollor((w - s.len()) as nat) + s
    }
}

/// The `YYYY-MM-DD` rendering of a date.
pub open spec fn datum_text(d: Datum) -> Seq<char>
    recommends
        d.giltigt(),
{
    nollpad(text::dec_str(d.ar as nat), 4) + seq!['-'] + text::tva_siffror(d.manad as int)
        + seq!['-'] + text::tva_siffror(d.dag as int)
}

fn nollsteg(k: usize) -> (r: String)
    ensures
        r@ == nollor(k as nat),
{
    let mut s = String::new();
    let mut i: usize = 0;
    while i < k
        invariant
            i <= k,
            s@ =~= nollor(i as nat),
        decreases k - i,
    {
        proof {
            reveal_strlit("0");
        }
        s.append("0");
        i = i + 1;
        proof {
            assert(s@ =~= nollor(i as nat));
        }
    }
    s
}

/// Renders a date as `YYYY-MM-DD`, the wire format of both services.
pub fn datum_text_exec(d: &Datum) -> (r: String)
    requires
        d.giltigt(),
    ensures
        r@ == datum_text(*d),
{
    proof {
        reveal_strlit("-");
    }
    let artal = text::fmt_u32(d.ar);
    let mut s = if artal.as_str().unicode_len() >= 4 {
        String::new()
    } else {
        nollsteg(4 - artal.as_str().unicode_len())
    };
    s.append(artal.as_str());
    s.append("-");
    s.append(text::fmt_tva_siffror(d.manad as u64).as_str());
    s.append("-");
    s.append(text::fmt_tva_siffror(d.dag as u64).as_str());
    proof {
        assert(s@ =~= datum_text(*d));
    }
    s
}

} // verus!
