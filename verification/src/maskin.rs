//! The per-batch import state machine.  The caller performs each outside
//! step — fetching the PDF, creating the journal entry, uploading evidence —
//! and reports the outcome; the machine decides what follows.  A failure
//! while fetching or creating leaves the report unmatched and abandons the
//! rest of the batch; a failed evidence upload changes nothing, because the
//! entry already exists.

use vstd::prelude::*;
use crate::avstamning::RapportImport;
use crate::journal::JournalEntry;

verus! {

/// The step the orchestration is at for the report being imported.
#[derive(Debug)]
pub enum ImportSteg {
    /// Fetch the report's PDF from the cashier service.
    HamtaPdf { seq: u32 },
    /// Create the journal entry in the bookkeeping service.
    Bokfor { seq: u32 },
    /// Upload the stored PDF as evidence on the created entry.
    LaddaUpp { seq: u32, verifikat_id: String, verifikat_nummer: String },
    /// The batch is finished: every selected report handled, or abandoned.
    Klar,
}

/// The sequence number the current step concerns.
pub open spec fn steg_seq(s: ImportSteg) -> Option<u32> {
    match s {
        ImportSteg::HamtaPdf { seq } => Some(seq),
        ImportSteg::Bokfor { seq } => Some(seq),
        ImportSteg::LaddaUpp { seq, verifikat_id: _, verifikat_nummer: _ } => Some(seq),
        ImportSteg::Klar => None,
    }
}

/// The first position holding the report with this sequence number.
pub open spec fn forsta_index(s: Seq<RapportImport>, n: u32) -> int
    decreases s.len(),
{
    if s.len() == 0 {
        0
    } else if s[0].rapport.sequence_number == n {
        0
    } else {
        1 + forsta_index(s.drop_first(), n)
    }
}

proof fn lemma_forsta_index(s: Seq<RapportImport>, n: u32, j: int)
    requires
        0 <= j < s.len(),
        s[j].rapport.sequence_number == n,
        forall|k: int| 0 <= k < j ==> (#[trigger] s[k]).rapport.sequence_number != n,
    ensures
        forsta_index(s, n) == j,
    decreases j,
{
    if j > 0 {
        let resten = s.drop_first();
        assert(forall|k: int|
            0 <= k < j - 1 ==> (#[trigger] resten[k]).rapport.sequence_number != n);
        lemma_forsta_index(resten, n, j - 1);
    }
}

/// One user-selected batch being imported, report by report, step by step.
#[derive(Debug)]
pub struct ImportBatch {
    /// The selected sequence numbers not yet begun, in selection order.
    pub kvar: Vec<u32>,
    /// The current step.
    pub steg: ImportSteg,
}

impl ImportBatch {
    /// Starts a batch over the selected sequence numbers.
    pub fn ny(valda: Vec<u32>) -> (r: ImportBatch)
        ensures
            valda@.len() == 0 ==> r.steg == ImportSteg::Klar && r.kvar@.len() == 0,
            valda@.len() > 0 ==> r.steg == (ImportSteg::HamtaPdf { seq: valda@[0] }) && r.kvar@
                == valda@.drop_first(),
    {
        let mut valda = valda;
        if valda.len() == 0 {
            ImportBatch { kvar: valda, steg: ImportSteg::Klar }
        } else {
            let forsta = valda.remove(0);
            ImportBatch { kvar: valda, steg: ImportSteg::HamtaPdf { seq: forsta } }
        }
    }

    /// The PDF arrived; the journal entry is created next.
    pub fn pdf_hamtad(&mut self)
        requires
            old(self).steg is HamtaPdf,
        ensures
            final(self).steg == (ImportSteg::Bokfor { seq: steg_seq(old(self).steg)->Some_0 }),
            final(self).kvar == old(self).kvar,
    {
        let seq = match &self.steg {
            ImportSteg::HamtaPdf { seq } => *seq,
            _ => 0,
        };
        self.steg = ImportSteg::Bokfor { seq };
    }

    /// The PDF could not be fetched: the report stays unmatched and the rest
    /// of the batch is abandoned.
    pub fn pdf_misslyckades(&mut self)
        requires
            old(self).steg is HamtaPdf,
        ensures
            final(self).steg == ImportSteg::Klar,
            final(self).kvar@.len() == 0,
    {
        self.kvar = Vec::new();
        self.steg = ImportSteg::Klar;
    }

    /// The journal entry was created: the first record with the current
    /// sequence number is marked imported at once — before the evidence
    /// upload, whose outcome can no longer undo the import — and the upload
    /// step follows, carrying the new entry's id and number.
    pub fn bokford(&mut self, rapporter: &mut Vec<RapportImport>, verifikat: JournalEntry)
        requires
            old(self).steg is Bokfor,
            exists|i: int|
                0 <= i < old(rapporter)@.len() && (#[trigger] old(
                    rapporter,
                )@[i]).rapport.sequence_number == steg_seq(old(self).steg)->Some_0,
        ensures
            ({
                let seq = steg_seq(old(self).steg)->Some_0;
                let j = forsta_index(old(rapporter)@, seq);
                &&& final(rapporter)@ == old(rapporter)@.update(
                    j,
                    RapportImport {
                        rapport: old(rapporter)@[j].rapport,
                        verifikat: Some(verifikat),
                    },
                )
                &&& final(self).steg == (ImportSteg::LaddaUpp {
                    seq,
                    verifikat_id: verifikat.id,
                    verifikat_nummer: verifikat.journal_entry_number,
                })
                &&& final(self).kvar == old(self).kvar
            }),
    {
        let seq = match &self.steg {
            ImportSteg::Bokfor { seq } => *seq,
            _ => 0,
        };
        let n = rapporter.len();
        let mut j: usize = 0;
        while rapporter[j].rapport.sequence_number != seq
            invariant
                n == rapporter@.len(),
                0 <= j < rapporter@.len(),
                rapporter@ == old(rapporter)@,
                seq == steg_seq(old(self).steg)->Some_0,
                exists|i: int|
                    j <= i < rapporter@.len() && (#[trigger] rapporter@[i]).rapport.sequence_number
                        == seq,
                forall|k: int|
                    0 <= k < j ==> (#[trigger] rapporter@[k]).rapport.sequence_number != seq,
            decreases rapporter@.len() - j,
        {
            j = j + 1;
            proof {
                let i = choose|i: int|
                    j - 1 <= i < rapporter@.len() && (#[trigger] rapporter@[i]).rapport.sequence_number
                        == seq;
                assert(i >= j);
            }
        }
        proof {
            lemma_forsta_index(rapporter@, seq, j as int);
        }
        let id = verifikat.id.clone();
        let nummer = verifikat.journal_entry_number.clone();
        let post = rapporter.remove(j);
        rapporter.insert(j, RapportImport { rapport: post.rapport, verifikat: Some(verifikat) });
        proof {
            assert(rapporter@ =~= old(rapporter)@.update(
                j as int,
                RapportImport {
                    rapport: old(rapporter)@[j as int].rapport,
                    verifikat: Some(verifikat),
                },
            ));
        }
        self.steg = ImportSteg::LaddaUpp { seq, verifikat_id: id, verifikat_nummer: nummer };
    }

    /// Creating the journal entry failed: the report stays unmatched and the
    /// rest of the batch is abandoned, so a failing service is not hammered
    /// once per remaining report.
    pub fn bokforing_misslyckades(&mut self)
        requires
            old(self).steg is Bokfor,
        ensures
            final(self).steg == ImportSteg::Klar,
            final(self).kvar@.len() == 0,
    {
        self.kvar = Vec::new();
        self.steg = ImportSteg::Klar;
    }

    /// The evidence upload finished.  Success and failure advance alike —
    /// the upload is best effort and the import already stands — so the next
    /// selected report begins, or the batch is done.
    pub fn uppladdning_klar(&mut self, lyckades: bool)
        requires
            old(self).steg is LaddaUpp,
        ensures
            old(self).kvar@.len() == 0 ==> final(self).steg == ImportSteg::Klar
                && final(self).kvar@.len() == 0,
            old(self).kvar@.len() > 0 ==> final(self).steg == (ImportSteg::HamtaPdf {
                seq: old(self).kvar@[0],
            }) && final(self).kvar@ == old(self).kvar@.drop_first(),
    {
        let _ = lyckades;
        if self.kvar.len() == 0 {
            self.steg = ImportSteg::Klar;
        } else {
            let seq = self.kvar.remove(0);
            self.steg = ImportSteg::HamtaPdf { seq };
        }
    }
}

} // verus!
