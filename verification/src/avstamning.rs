//! Reconciliation: pairing fetched Z-reports with existing journal entries.
//! A report matches an entry exactly when the entry's title equals the
//! report's canonical verification title and the entry is not reversed; the
//! first match in listing order wins.

use vstd::prelude::*;
use vstd::string::StringExecFns;
use crate::easycashier::{kontosumma, ZRapport};
use crate::journal::JournalEntry;
use crate::text;

verus! {

/// The ledger account whose aggregate the table shows as card payments.
pub const KONTO_KORT: u16 = 1580;

/// The ledger account whose aggregate the table shows as cash.
pub const KONTO_KONTANT: u16 = 1911;

/// The ledger account whose aggregate the table shows as mobile payments.
pub const KONTO_SWISH: u16 = 1932;

/// One report paired with its matched journal entry, if any.  A report is
/// already imported exactly when `verifikat` is present.
#[derive(Debug)]
pub struct RapportImport {
    pub rapport: ZRapport,
    pub verifikat: Option<JournalEntry>,
}

/// Whether the entry vouches for the report: same canonical title, and the
/// entry is not reversed.
pub open spec fn matchar(e: JournalEntry, r: ZRapport) -> bool {
    e.title@ == r.titel() && e.reversed_by_journal_entry_id is None
}

/// The first entry in listing order that matches the report.
pub open spec fn forsta_match(journal: Seq<JournalEntry>, r: ZRapport) -> Option<JournalEntry>
    decreases journal.len(),
{
    if journal.len() == 0 {
        None
    } else if matchar(journal[0], r) {
        Some(journal[0])
    } else {
        forsta_match(journal.drop_first(), r)
    }
}

/// The import record a fetched report becomes.
pub open spec fn import_av(journal: Seq<JournalEntry>, r: ZRapport) -> RapportImport {
    RapportImport { rapport: r, verifikat: forsta_match(journal, r) }
}

/// A report is matched exactly when some listed entry bears its canonical
/// title and carries no reversal reference; what is matched is such an entry.
pub proof fn lemma_match_finns(journal: Seq<JournalEntry>, r: ZRapport)
    ensures
        (forsta_match(journal, r) is Some) <==> exists|i: int|
            0 <= i < journal.len() && matchar(#[trigger] journal[i], r),
        forsta_match(journal, r) is Some ==> matchar(forsta_match(journal, r)->Some_0, r),
    decreases journal.len(),
{
    if journal.len() > 0 && !matchar(journal[0], r) {
        let resten = journal.drop_first();
        lemma_match_finns(resten, r);
        assert forall|i: int| 0 <= i < resten.len() implies resten[i] == journal[i + 1] by {}
        if exists|i: int| 0 <= i < journal.len() && matchar(#[trigger] journal[i], r) {
            let i = choose|i: int| 0 <= i < journal.len() && matchar(#[trigger] journal[i], r);
            assert(i >= 1);
            assert(matchar(resten[i - 1], r));
        }
    }
}

/// Matching is a function of the journal listing and the reports alone, so
/// running it again over the same inputs yields the same pairing.
pub proof fn lemma_match_deterministisk(
    journal: Seq<JournalEntry>,
    sida: Seq<ZRapport>,
    r1: Seq<RapportImport>,
    r2: Seq<RapportImport>,
)
    requires
        r1 == sida.map_values(|z: ZRapport| import_av(journal, z)),
        r2 == sida.map_values(|z: ZRapport| import_av(journal, z)),
    ensures
        r1 == r2,
{
}

fn hitta_verifikat(journal: &Vec<JournalEntry>, rapport: &ZRapport) -> (r: Option<JournalEntry>)
    ensures
        r == forsta_match(journal@, *rapport),
{
    let titel = rapport.verifikatnamn();
    let n = journal.len();
    let mut i: usize = 0;
    proof {
        assert(journal@.subrange(0, n as int) =~= journal@);
    }
    while i < n
        invariant
            0 <= i <= n,
            n == journal@.len(),
            titel@ == rapport.titel(),
            forsta_match(journal@, *rapport) == forsta_match(
                journal@.subrange(i as int, n as int),
                *rapport,
            ),
        decreases n - i,
    {
        let ghost suffix = journal@.subrange(i as int, n as int);
        proof {
            assert(suffix[0] == journal@[i as int]);
            assert(suffix.drop_first() =~= journal@.subrange(i + 1, n as int));
        }
        let e = &journal[i];
        if e.title == titel && e.reversed_by_journal_entry_id.is_none() {
            return Some(e.clone());
        }
        i = i + 1;
    }
    proof {
        assert(journal@.subrange(n as int, n as int) =~= Seq::<JournalEntry>::empty());
    }
    None
}

/// Appends one fetched page to the accumulated imports, pairing each report
/// with the first matching journal entry, in page order.
pub fn lagg_till_sida(
    importer: &mut Vec<RapportImport>,
    journal: &Vec<JournalEntry>,
    sida: Vec<ZRapport>,
)
    ensures
        final(importer)@ == old(importer)@ + sida@.map_values(
            |z: ZRapport| import_av(journal@, z),
        ),
{
    let ghost orig = sida@;
    let mut sida = sida;
    proof {
        assert(orig.subrange(0, orig.len() as int) =~= orig);
        assert(orig.subrange(0, 0) =~= Seq::<ZRapport>::empty());
        assert(importer@ =~= old(importer)@ + orig.subrange(0, 0).map_values(
            |z: ZRapport| import_av(journal@, z),
        ));
    }
    while sida.len() > 0
        invariant
            sida@.len() <= orig.len(),
            sida@ =~= orig.subrange(orig.len() - sida@.len(), orig.len() as int),
            importer@ == old(importer)@ + orig.subrange(0, orig.len() - sida@.len()).map_values(
                |z: ZRapport| import_av(journal@, z),
            ),
        decreases sida@.len(),
    {
        let ghost k = orig.len() - sida@.len();
        let z = sida.remove(0);
        proof {
            assert(z == orig[k]);
            assert(sida@ =~= orig.subrange(orig.len() - sida@.len(), orig.len() as int));
        }
        let verifikat = hitta_verifikat(journal, &z);
        let ghost fore = importer@;
        importer.push(RapportImport { rapport: z, verifikat });
        proof {
            assert(orig.subrange(0, k + 1).drop_last() =~= orig.subrange(0, k));
            assert(importer@ =~= old(importer)@ + orig.subrange(0, k + 1).map_values(
                |z0: ZRapport| import_av(journal@, z0),
            ));
        }
    }
    proof {
        assert(sida@.len() == 0);
        assert(orig.subrange(0, orig.len() as int) =~= orig);
    }
}

/// How many of the records are already matched.
pub open spec fn antal_matchade(s: Seq<RapportImport>) -> int
    decreases s.len(),
{
    if s.len() == 0 {
        0
    } else {
        antal_matchade(s.drop_last()) + if s.last().verifikat is Some {
            1int
        } else {
            0int
        }
    }
}

/// Counts the records already paired with a journal entry.
pub fn rakna_importerade_rapporter(importer: &Vec<RapportImport>) -> (r: usize)
    ensures
        r == antal_matchade(importer@),
{
    let ghost alla = importer@;
    let mut r: usize = 0;
    let mut i: usize = 0;
    while i < importer.len()
        invariant
            0 <= i <= alla.len(),
            importer@ == alla,
            r <= i,
            r == antal_matchade(alla.subrange(0, i as int)),
        decreases alla.len() - i,
    {
        proof {
            assert(alla.subrange(0, i + 1).drop_last() =~= alla.subrange(0, i as int));
            assert(alla.subrange(0, i + 1).last() == alla[i as int]);
        }
        if importer[i].verifikat.is_some() {
            r = r + 1;
        }
        i = i + 1;
    }
    proof {
        assert(alla.subrange(0, alla.len() as int) =~= alla);
    }
    r
}

/// The mark column of the table: a check for an already matched report.
pub open spec fn bock(e: RapportImport) -> Seq<char> {
    if e.verifikat is Some {
        "✅"@
    } else {
        " "@
    }
}

/// The journal-entry number column: empty while unmatched.
pub open spec fn vernr_text(e: RapportImport) -> Seq<char> {
    match e.verifikat {
        Some(v) => v.journal_entry_number@,
        None => Seq::<char>::empty(),
    }
}

/// One table row: mark, sequence number, date, canonical title, and the
/// card, cash and mobile-payment aggregates, then the entry number.
pub open spec fn rad_text(e: RapportImport) -> Seq<char> {
    let rader = e.rapport.z_report_transactions@;
    "| "@ + bock(e) + " | "@ + text::pad_vanster(text::dec_str(e.rapport.sequence_number as nat), 4)
        + " | "@ + e.rapport.date_created@.subrange(0, 10) + " | "@ + text::pad_hoger(
        e.rapport.titel(),
        39,
    ) + " | "@ + text::pad_vanster(text::belopp_text(kontosumma(rader, KONTO_KORT)), 8) + " | "@
        + text::pad_vanster(text::belopp_text(kontosumma(rader, KONTO_KONTANT)), 8) + " | "@
        + text::pad_vanster(text::belopp_text(kontosumma(rader, KONTO_SWISH)), 7) + " | "@
        + text::pad_hoger(vernr_text(e), 5) + " |"@
}

/// Renders one table row for a report and its match state.
pub fn rapport_rad(e: &RapportImport) -> (r: String)
    requires
        e.rapport.valformad(),
    ensures
        r@ == rad_text(*e),
{
    proof {
        crate::easycashier::lemma_kontosumma_abs(
            e.rapport.z_report_transactions@,
            KONTO_KORT,
        );
        crate::easycashier::lemma_kontosumma_abs(
            e.rapport.z_report_transactions@,
            KONTO_KONTANT,
        );
        crate::easycashier::lemma_kontosumma_abs(
            e.rapport.z_report_transactions@,
            KONTO_SWISH,
        );
    }
    let mut s = "| ".to_owned();
    match &e.verifikat {
        Some(_) => s.append("✅"),
        None => s.append(" "),
    }
    s.append(" | ");
    s.append(text::padda_vanster(text::fmt_u32(e.rapport.sequence_number).as_str(), 4).as_str());
    s.append(" | ");
    s.append(e.rapport.datum().as_str());
    s.append(" | ");
    s.append(text::padda_hoger(e.rapport.verifikatnamn().as_str(), 39).as_str());
    s.append(" | ");
    s.append(text::padda_vanster(e.rapport.konto(KONTO_KORT).text().as_str(), 8).as_str());
    s.append(" | ");
    s.append(text::padda_vanster(e.rapport.konto(KONTO_KONTANT).text().as_str(), 8).as_str());
    s.append(" | ");
    s.append(text::padda_vanster(e.rapport.konto(KONTO_SWISH).text().as_str(), 7).as_str());
    s.append(" | ");
    match &e.verifikat {
        Some(v) => s.append(text::padda_hoger(v.journal_entry_number.as_str(), 5).as_str()),
        None => {
            proof {
                reveal_strlit("");
            }
            s.append(text::padda_hoger("", 5).as_str());
        },
    }
    s.append(" |");
    proof {
        assert(s@ =~= rad_text(*e));
    }
    s
}

/// Prints the table of all fetched reports with their match state.
pub fn lista_rapporter(importer: &Vec<RapportImport>)
    requires
        forall|i: int| 0 <= i < importer@.len() ==> (#[trigger] importer@[i]).rapport.valformad(),
{
    crate::term::skriv_rad(
        "| ✅ |   NR | DATUM      | TITEL                                   |     KORT |  KONTANT |   SWISH | VERNR |",
    );
    crate::term::skriv_rad(
        "|---|------|------------|-----------------------------------------|----------|----------|---------|-------|",
    );
    let mut i: usize = 0;
    while i < importer.len()
        invariant
            0 <= i <= importer@.len(),
            forall|k: int|
                0 <= k < importer@.len() ==> (#[trigger] importer@[k]).rapport.valformad(),
        decreases importer@.len() - i,
    {
        let rad = rapport_rad(&importer[i]);
        crate::term::skriv_rad(rad.as_str());
        i = i + 1;
    }
}

} // verus!
