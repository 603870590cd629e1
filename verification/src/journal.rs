//! The bookkeeping side: journal entries as the service reports them, and
//! the construction of a balanced journal-creation request from a Z-report.

use vstd::prelude::*;
use crate::belopp::Belopp;
use crate::easycashier::{abs_summa, ZRapport};

verus! {

/// A journal entry as listed by the bookkeeping service.  A present
/// `reversed_by_journal_entry_id` means the entry is void for matching.
#[derive(Debug)]
pub struct JournalEntry {
    pub id: String,
    pub journal_entry_number: String,
    pub title: String,
    pub reversed_by_journal_entry_id: Option<String>,
}

impl Clone for JournalEntry {
    fn clone(&self) -> (res: JournalEntry)
        ensures
            res == *self,
    {
        let reversed = match &self.reversed_by_journal_entry_id {
            Some(s) => Some(s.clone()),
            None => None,
        };
        JournalEntry {
            id: self.id.clone(),
            journal_entry_number: self.journal_entry_number.clone(),
            title: self.title.clone(),
            reversed_by_journal_entry_id: reversed,
        }
    }
}

/// One posting line of a journal-creation request.
#[derive(Debug)]
pub struct CreateJournalAccount {
    pub account: i32,
    pub debit: Belopp,
    pub credit: Belopp,
}

/// A journal-creation request: title, date, and one posting per report line.
#[derive(Debug)]
pub struct CreateJournal {
    pub title: String,
    pub date: String,
    pub items: Vec<CreateJournalAccount>,
}

/// The posting a report line turns into: the positive part is debited and
/// the negative part credited, never both.
pub open spec fn post_av_rad(kontonr: u16, ore: int) -> CreateJournalAccount {
    CreateJournalAccount {
        account: kontonr as i32,
        debit: Belopp { ore: (if ore >= 0 { ore } else { 0 }) as i64 },
        credit: Belopp { ore: (if ore < 0 { -ore } else { 0 }) as i64 },
    }
}

/// Builds the journal-creation request for one report: the canonical title,
/// the ten-character date prefix, and exactly one posting per transaction
/// line, in order.  Each posting debits the positive part and credits the
/// magnitude of the negative part, so debit minus credit is the line amount
/// and at most one side is nonzero, both zero only for a zero line.
pub fn create_journal_entry(rapport: &ZRapport) -> (r: CreateJournal)
    requires
        rapport.valformad(),
    ensures
        r.title@ == rapport.titel(),
        r.date@ == rapport.date_created@.subrange(0, 10),
        r.items@.len() == rapport.z_report_transactions@.len(),
        forall|i: int|
            0 <= i < r.items@.len() ==> #[trigger] r.items@[i] == post_av_rad(
                rapport.z_report_transactions@[i].account_number,
                rapport.z_report_transactions@[i].amount.ore as int,
            ),
        forall|i: int|
            0 <= i < r.items@.len() ==> {
                let rad = rapport.z_report_transactions@[i];
                let post = #[trigger] r.items@[i];
                post.debit.ore - post.credit.ore == rad.amount.ore && (post.debit.ore == 0
                    || post.credit.ore == 0) && ((post.debit.ore == 0 && post.credit.ore == 0)
                    <==> rad.amount.ore == 0)
            },
{
    let title = rapport.verifikatnamn();
    let date = rapport.datum();
    let rader = &rapport.z_report_transactions;
    let ghost alla = rader@;
    let mut items: Vec<CreateJournalAccount> = Vec::new();
    let mut i: usize = 0;
    while i < rader.len()
        invariant
            0 <= i <= alla.len(),
            rader@ == alla,
            abs_summa(alla) <= i64::MAX,
            items@.len() == i,
            forall|k: int|
                0 <= k < i ==> #[trigger] items@[k] == post_av_rad(
                    alla[k].account_number,
                    alla[k].amount.ore as int,
                ),
        decreases alla.len() - i,
    {
        proof {
            crate::easycashier::lemma_rad_abs(alla, i as int);
        }
        let rad = &rader[i];
        let ore = rad.amount.ore;
        let post = if ore >= 0 {
            CreateJournalAccount {
                account: rad.account_number as i32,
                debit: Belopp { ore },
                credit: Belopp { ore: 0 },
            }
        } else {
            CreateJournalAccount {
                account: rad.account_number as i32,
                debit: Belopp { ore: 0 },
                credit: Belopp { ore: -ore },
            }
        };
        items.push(post);
        i = i + 1;
    }
    proof {
        assert forall|k: int| 0 <= k < alla.len() implies {
            let rad = #[trigger] alla[k];
            let post = post_av_rad(rad.account_number, rad.amount.ore as int);
            post.debit.ore - post.credit.ore == rad.amount.ore && (post.debit.ore == 0
                || post.credit.ore == 0) && ((post.debit.ore == 0 && post.credit.ore == 0)
                <==> rad.amount.ore == 0)
        } by {
            crate::easycashier::lemma_rad_abs(alla, k);
        }
    }
    CreateJournal { title, date, items }
}

} // verus!
