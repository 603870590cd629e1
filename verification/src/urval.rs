//! Selection of unmatched reports to import.  A bare newline or a yes word
//! selects every candidate, a no word selects none, and otherwise the line
//! must be whitespace-separated candidate sequence numbers; any other token
//! rejects the whole line and the prompt repeats.

use vstd::prelude::*;
use vstd::string::StrSliceExecFns;
use vstd::string::StringExecFns;
use crate::avstamning::RapportImport;
use crate::text;

verus! {

/// The outcome of one line of selection input.
#[derive(Debug)]
pub enum Urval {
    /// Import every candidate.
    Alla,
    /// Import nothing and leave the selection loop.
    Ingen,
    /// Ask again without complaint.
    Omval,
    /// Import exactly these sequence numbers, in input order.
    Valda(Vec<u32>),
    /// The line was rejected; the payload is its first offending token.
    Ogiltig(String),
}

/// The line, lower-cased after trimming; what the word checks and the token
/// split look at.
pub open spec fn sankt(rad: Seq<char>) -> Seq<char> {
    text::gemener(text::trimmad(rad))
}

/// The tokens of the line.
pub open spec fn urval_tokens(rad: Seq<char>) -> Seq<Seq<char>> {
    text::tokens(sankt(rad))
}

/// A bare newline or a yes word selects all candidates.
pub open spec fn urval_alla(rad: Seq<char>) -> bool {
    rad == "\n"@ || sankt(rad) == "yes"@ || sankt(rad) == "y"@
}

/// No input at all or a no word selects none.
pub open spec fn urval_ingen(rad: Seq<char>) -> bool {
    !urval_alla(rad) && (rad.len() == 0 || sankt(rad) == "no"@ || sankt(rad) == "q"@)
}

/// An acceptable token: it parses as a number that is a candidate.
pub open spec fn token_ok(t: Seq<char>, mojliga: Seq<u32>) -> bool {
    text::parse_u32_spec(t) is Some && mojliga.contains(text::parse_u32_spec(t)->Some_0)
}

fn strang_lika(a: &String, b: &str) -> (r: bool)
    ensures
        r == (a@ == b@),
{
    let bs = String::from_str(b);
    *a == bs
}

/// Reads one line of selection input against the candidate numbers.
pub fn tolka_urval(rad: &str, mojliga: &Vec<u32>) -> (r: Urval)
    ensures
        match r {
            Urval::Alla => urval_alla(rad@),
            Urval::Ingen => urval_ingen(rad@),
            Urval::Omval => !urval_alla(rad@) && !urval_ingen(rad@) && urval_tokens(rad@).len()
                == 0,
            Urval::Valda(v) => !urval_alla(rad@) && !urval_ingen(rad@) && urval_tokens(
                rad@,
            ).len() > 0 && v@.len() == urval_tokens(rad@).len() && forall|k: int|
                0 <= k < v@.len() ==> text::parse_u32_spec(urval_tokens(rad@)[k]) == Some(
                    #[trigger] v@[k],
                ) && mojliga@.contains(v@[k]),
            Urval::Ogiltig(t) => !urval_alla(rad@) && !urval_ingen(rad@) && exists|k: int|
                0 <= k < urval_tokens(rad@).len() && t@ == urval_tokens(rad@)[k] && !token_ok(
                    #[trigger] urval_tokens(rad@)[k],
                    mojliga@,
                ) && forall|j: int| 0 <= j < k ==> token_ok(#[trigger] urval_tokens(rad@)[j], mojliga@),
        },
{
    let n = rad.unicode_len();
    if n == 0 {
        proof {
            reveal_strlit("\n");
            reveal_strlit("yes");
            reveal_strlit("y");
        }
        return Urval::Ingen;
    }
    if n == 1 && rad.get_char(0) == '\n' {
        proof {
            reveal_strlit("\n");
            assert(rad@ =~= "\n"@);
        }
        return Urval::Alla;
    }
    proof {
        reveal_strlit("\n");
        assert(rad@ != "\n"@) by {
            if rad@ == "\n"@ {
                assert(rad@.len() == 1);
                assert(rad@[0] == '\n');
            }
        }
    }
    let t = text::trimma(rad);
    let sank = text::gemener_exec(t.as_str());
    if strang_lika(&sank, "yes") || strang_lika(&sank, "y") {
        return Urval::Alla;
    }
    if strang_lika(&sank, "no") || strang_lika(&sank, "q") {
        proof {
            reveal_strlit("yes");
            reveal_strlit("y");
            reveal_strlit("no");
            reveal_strlit("q");
        }
        return Urval::Ingen;
    }
    let ts = crate::text::dela_blank(sank.as_str());
    if ts.len() == 0 {
        return Urval::Omval;
    }
    let mut valda: Vec<u32> = Vec::new();
    let mut i: usize = 0;
    while i < ts.len()
        invariant
            0 <= i <= ts@.len(),
            ts@.map_values(|x: String| x@) == urval_tokens(rad@),
            ts@.len() == urval_tokens(rad@).len(),
            !urval_alla(rad@),
            !urval_ingen(rad@),
            valda@.len() == i,
            forall|k: int|
                0 <= k < i ==> text::parse_u32_spec(urval_tokens(rad@)[k]) == Some(
                    #[trigger] valda@[k],
                ) && mojliga@.contains(valda@[k]),
            forall|k: int| 0 <= k < i ==> token_ok(#[trigger] urval_tokens(rad@)[k], mojliga@),
        decreases ts@.len() - i,
    {
        proof {
            assert(ts@.map_values(|x: String| x@)[i as int] == ts@[i as int]@);
        }
        let tok = &ts[i];
        match text::parse_u32(tok.as_str()) {
            Some(v) => {
                if text::innehaller(mojliga, v) {
                    valda.push(v);
                    i = i + 1;
                } else {
                    return Urval::Ogiltig(tok.clone());
                }
            },
            None => {
                return Urval::Ogiltig(tok.clone());
            },
        }
    }
    Urval::Valda(valda)
}

/// The sequence numbers of the records not yet matched, in table order.
pub open spec fn omatchade(s: Seq<RapportImport>) -> Seq<u32>
    decreases s.len(),
{
    if s.len() == 0 {
        Seq::empty()
    } else {
        omatchade(s.drop_last()) + if s.last().verifikat is None {
            seq![s.last().rapport.sequence_number]
        } else {
            Seq::<u32>::empty()
        }
    }
}

/// Whether some record carries this sequence number and is still unmatched.
pub open spec fn omatchad_seq(s: Seq<RapportImport>, n: u32) -> bool {
    exists|i: int|
        0 <= i < s.len() && (#[trigger] s[i]).rapport.sequence_number == n && s[i].verifikat
            is None
}

/// The candidate numbers are exactly those of the unmatched records.
pub proof fn lemma_omatchade_medlem(s: Seq<RapportImport>, n: u32)
    ensures
        omatchade(s).contains(n) <==> omatchad_seq(s, n),
    decreases s.len(),
{
    if s.len() > 0 {
        let resten = s.drop_last();
        lemma_omatchade_medlem(resten, n);
        if omatchade(s).contains(n) {
            if omatchade(resten).contains(n) {
                let i = choose|i: int|
                    0 <= i < resten.len() && (#[trigger] resten[i]).rapport.sequence_number == n
                        && resten[i].verifikat is None;
                assert((s[i]).rapport.sequence_number == n && s[i].verifikat is None);
            } else {
                let j = choose|j: int| 0 <= j < omatchade(s).len() && omatchade(s)[j] == n;
                assert(s.last().verifikat is None && s.last().rapport.sequence_number == n);
                assert((s[s.len() - 1]).rapport.sequence_number == n && s[s.len() - 1].verifikat
                    is None);
            }
        }
        if omatchad_seq(s, n) {
            let i = choose|i: int|
                0 <= i < s.len() && (#[trigger] s[i]).rapport.sequence_number == n
                    && s[i].verifikat is None;
            if i < s.len() - 1 {
                assert((resten[i]).rapport.sequence_number == n && resten[i].verifikat is None);
                assert(omatchade(resten).contains(n));
                let j = choose|j: int|
                    0 <= j < omatchade(resten).len() && omatchade(resten)[j] == n;
                assert(omatchade(s)[j] == n);
            } else {
                assert(omatchade(s).last() == n);
            }
        }
    }
}

/// The sequence numbers still open for import, in table order.
pub fn mojliga_rapporter(rapporter: &Vec<RapportImport>) -> (r: Vec<u32>)
    ensures
        r@ == omatchade(rapporter@),
{
    let ghost alla = rapporter@;
    let mut r: Vec<u32> = Vec::new();
    let mut i: usize = 0;
    while i < rapporter.len()
        invariant
            0 <= i <= alla.len(),
            rapporter@ == alla,
            r@ == omatchade(alla.subrange(0, i as int)),
        decreases alla.len() - i,
    {
        proof {
            assert(alla.subrange(0, i + 1).drop_last() =~= alla.subrange(0, i as int));
            assert(alla.subrange(0, i + 1).last() == alla[i as int]);
        }
        if rapporter[i].verifikat.is_none() {
            r.push(rapporter[i].rapport.sequence_number);
        }
        i = i + 1;
        proof {
            assert(r@ =~= omatchade(alla.subrange(0, i as int)));
        }
    }
    proof {
        assert(alla.subrange(0, alla.len() as int) =~= alla);
    }
    r
}

/// Soundness of a completed selection: numbers drawn from the candidate list
/// always belong to still unmatched reports, whatever the user typed.  The
/// retry-until-valid prompt loop itself is the caller's, since nothing bounds
/// how often a user may mistype.
pub proof fn lemma_valda_omatchade(rapporter: Seq<RapportImport>, valda: Seq<u32>)
    requires
        forall|i: int|
            0 <= i < valda.len() ==> omatchade(rapporter).contains(#[trigger] valda[i]),
    ensures
        forall|i: int| 0 <= i < valda.len() ==> omatchad_seq(rapporter, #[trigger] valda[i]),
{
    assert forall|i: int| 0 <= i < valda.len() implies omatchad_seq(
        rapporter,
        #[trigger] valda[i],
    ) by {
        lemma_omatchade_medlem(rapporter, valda[i]);
    }
}

} // verus!
