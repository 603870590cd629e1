//! The cashier back-office model: Z-reports and their transaction lines,
//! per-account aggregation, the canonical verification title, the request
//! URLs of the service, and the date-range resolver.

use vstd::prelude::*;
use vstd::string::StrSliceExecFns;
use vstd::string::StringExecFns;
use crate::belopp::Belopp;
use crate::datum::{fore, fore_eller_lika, Datum};
use crate::text::dec_str;
use crate::utils::PageReq;

verus! {

/// The default base address of the cashier back office.
pub const EASYCASHIER_URL: &'static str = "https://backoffice.easycashier.se";

/// One transaction line of a Z-report: a ledger account and a signed amount.
#[derive(Debug)]
pub struct ZRapportTrans {
    pub account_number: u16,
    pub amount: Belopp,
}

/// An end-of-day cash-register report.
#[derive(Debug)]
pub struct ZRapport {
    pub sequence_number: u32,
    pub store_number: u32,
    pub cash_register_number: u32,
    pub first_receipt: u32,
    pub last_receipt: u32,
    pub date_created: String,
    pub company_name: String,
    pub corporate_identity: String,
    pub z_report_transactions: Vec<ZRapportTrans>,
}

/// Sum of all line amounts, in hundredths.
pub open spec fn radsumma(rader: Seq<ZRapportTrans>) -> int
    decreases rader.len(),
{
    if rader.len() == 0 {
        0
    } else {
        radsumma(rader.drop_last()) + rader.last().amount.ore
    }
}

/// Magnitude of one amount, in hundredths.
pub open spec fn abs_ore(x: int) -> int {
    if x < 0 {
        -x
    } else {
        x
    }
}

/// Sum of the magnitudes of all line amounts.
pub open spec fn abs_summa(rader: Seq<ZRapportTrans>) -> int
    decreases rader.len(),
{
    if rader.len() == 0 {
        0
    } else {
        abs_summa(rader.drop_last()) + abs_ore(rader.last().amount.ore as int)
    }
}

/// Sum of the amounts of the lines on the given account.
pub open spec fn kontosumma(rader: Seq<ZRapportTrans>, konto: u16) -> int
    decreases rader.len(),
{
    if rader.len() == 0 {
        0
    } else {
        kontosumma(rader.drop_last(), konto) + if rader.last().account_number == konto {
            rader.last().amount.ore as int
        } else {
            0
        }
    }
}

proof fn lemma_abs_summa_prefix(rader: Seq<ZRapportTrans>, i: int, j: int)
    requires
        0 <= i <= j <= rader.len(),
    ensures
        abs_summa(rader.subrange(0, i)) <= abs_summa(rader.subrange(0, j)),
    decreases j - i,
{
    if i < j {
        lemma_abs_summa_prefix(rader, i, j - 1);
        assert(rader.subrange(0, j).drop_last() =~= rader.subrange(0, j - 1));
    }
}

pub proof fn lemma_kontosumma_abs(rader: Seq<ZRapportTrans>, konto: u16)
    ensures
        abs_ore(kontosumma(rader, konto)) <= abs_summa(rader),
    decreases rader.len(),
{
    if rader.len() > 0 {
        lemma_kontosumma_abs(rader.drop_last(), konto);
    }
}

/// Magnitude of one line is below the total magnitude.
pub proof fn lemma_rad_abs(rader: Seq<ZRapportTrans>, i: int)
    requires
        0 <= i < rader.len(),
    ensures
        abs_ore(rader[i].amount.ore as int) <= abs_summa(rader),
    decreases rader.len(),
{
    if i == rader.len() - 1 {
        lemma_abs_summa_prefix(rader, 0, rader.len() - 1);
        assert(rader.subrange(0, rader.len() as int) =~= rader);
        assert(rader.subrange(0, rader.len() - 1) =~= rader.drop_last());
    } else {
        lemma_rad_abs(rader.drop_last(), i);
    }
}

impl ZRapport {
    /// Well-formed for this library: the creation timestamp starts with a
    /// ten-character date, and the total magnitude of the line amounts fits
    /// the amount type, so every partial sum does too.
    pub open spec fn valformad(self) -> bool {
        self.date_created@.len() >= 10 && abs_summa(self.z_report_transactions@) <= i64::MAX
    }

    /// Checks well-formedness; the boundary must call this before handing a
    /// freshly decoded report to the rest of the library.
    pub fn ar_valformad(&self) -> (r: bool)
        ensures
            r == self.valformad(),
    {
        if self.date_created.as_str().unicode_len() < 10 {
            return false;
        }
        let rader = &self.z_report_transactions;
        let ghost alla = rader@;
        let mut acc: i128 = 0;
        let mut i: usize = 0;
        while i < rader.len()
            invariant
                0 <= i <= alla.len(),
                rader@ == alla,
                alla == self.z_report_transactions@,
                self.date_created@.len() >= 10,
                acc == abs_summa(alla.subrange(0, i as int)),
                acc <= i64::MAX,
            decreases alla.len() - i,
        {
            let x = rader[i].amount.ore;
            let a: i128 = if x < 0 {
                -(x as i128)
            } else {
                x as i128
            };
            acc = acc + a;
            i = i + 1;
            proof {
                assert(alla.subrange(0, i as int).drop_last() =~= alla.subrange(0, i - 1));
            }
            if acc > 0x7fff_ffff_ffff_ffff {
                proof {
                    lemma_abs_summa_prefix(alla, i as int, alla.len() as int);
                    assert(alla.subrange(0, alla.len() as int) =~= alla);
                }
                return false;
            }
        }
        proof {
            assert(alla.subrange(0, alla.len() as int) =~= alla);
        }
        true
    }

    /// The date part of the creation timestamp: its first ten characters.
    pub fn datum(&self) -> (r: String)
        requires
            self.date_created@.len() >= 10,
        ensures
            r@ == self.date_created@.subrange(0, 10),
    {
        self.date_created.as_str().substring_char(0, 10).to_owned()
    }

    /// Aggregates the lines on one ledger account; lines on other accounts do
    /// not contribute, and an empty match set sums to exactly zero.
    pub fn konto(&self, account: u16) -> (r: Belopp)
        requires
            self.valformad(),
        ensures
            r.ore == kontosumma(self.z_report_transactions@, account),
    {
        let rader = &self.z_report_transactions;
        let ghost alla = rader@;
        let mut summa: i64 = 0;
        let mut i: usize = 0;
        while i < rader.len()
            invariant
                0 <= i <= alla.len(),
                rader@ == alla,
                abs_summa(alla) <= i64::MAX,
                summa == kontosumma(alla.subrange(0, i as int), account),
            decreases alla.len() - i,
        {
            proof {
                assert(alla.subrange(0, i + 1).drop_last() =~= alla.subrange(0, i as int));
                assert(alla.subrange(0, i + 1).last() == alla[i as int]);
                lemma_kontosumma_abs(alla.subrange(0, i + 1), account);
                lemma_abs_summa_prefix(alla, i + 1, alla.len() as int);
                assert(alla.subrange(0, alla.len() as int) =~= alla);
            }
            let rad = &rader[i];
            if rad.account_number == account {
                summa = summa + rad.amount.ore;
            }
            i = i + 1;
        }
        proof {
            assert(alla.subrange(0, alla.len() as int) =~= alla);
        }
        Belopp { ore: summa }
    }

    /// The canonical verification title of the report.  It is both the title
    /// of a created journal entry and the key that matching compares against.
    pub open spec fn titel(self) -> Seq<char> {
        "Z, Bu: "@ + dec_str(self.store_number as nat) + " Ka: "@ + dec_str(
            self.cash_register_number as nat,
        ) + " Nr: "@ + dec_str(self.sequence_number as nat) + " Kv: "@ + dec_str(
            self.first_receipt as nat,
        ) + " - "@ + dec_str(self.last_receipt as nat)
    }

    /// Renders the canonical verification title.
    pub fn verifikatnamn(&self) -> (r: String)
        ensures
            r@ == self.titel(),
    {
        let mut s = "Z, Bu: ".to_owned();
        s.append(crate::text::fmt_u32(self.store_number).as_str());
        s.append(" Ka: ");
        s.append(crate::text::fmt_u32(self.cash_register_number).as_str());
        s.append(" Nr: ");
        s.append(crate::text::fmt_u32(self.sequence_number).as_str());
        s.append(" Kv: ");
        s.append(crate::text::fmt_u32(self.first_receipt).as_str());
        s.append(" - ");
        s.append(crate::text::fmt_u32(self.last_receipt).as_str());
        s
    }
}

/// Paging metadata of a report listing response.
#[derive(Clone, Copy, Debug, PartialEq, Eq, Structural)]
pub struct EasyCashierMetaInformation {
    pub current_page: u32,
    pub total_pages: u32,
    pub total_resources: u32,
}

/// One page of listed Z-reports.
#[derive(Debug)]
pub struct ZRapportListResponse {
    pub meta_information: EasyCashierMetaInformation,
    pub items: Vec<ZRapport>,
}

/// Whether another page should be requested after the one described by `meta`.
pub fn fler_sidor(sida: &PageReq, meta: &EasyCashierMetaInformation) -> (r: bool)
    ensures
        r == (sida.page < meta.total_pages),
{
    sida.page < meta.total_pages
}

/// The request for the page after `sida`.
pub fn nasta_sida(sida: &PageReq) -> (r: PageReq)
    requires
        sida.page < u32::MAX,
    ensures
        r.page == sida.page + 1,
        r.size == sida.size,
{
    PageReq { page: sida.page + 1, size: sida.size }
}

/// The organisation a session is scoped to: an explicitly given number wins
/// over the default that the login response offers.
pub fn valj_foretag(orgnummer: Option<String>, standard: Option<String>) -> (r: Option<String>)
    ensures
        orgnummer is Some ==> r == orgnummer,
        orgnummer is None ==> r == standard,
{
    match orgnummer {
        Some(o) => Some(o),
        None => standard,
    }
}

/// A session against the cashier back office: where it talks, for which
/// company, and with which access token.
#[derive(Debug)]
pub struct EasyCashier {
    pub base_url: String,
    pub company: String,
    pub token: String,
}

impl EasyCashier {
    /// The login endpoint of a cashier service at `base_url`.
    pub fn login_url(base_url: &str) -> (r: String)
        ensures
            r@ == base_url@ + "/v1/login"@,
    {
        let mut s = base_url.to_owned();
        s.append("/v1/login");
        s
    }

    /// The report-listing URL for one date range and one page.
    pub fn zrapporter_url(&self, date: &DateRequest, page: &PageReq) -> (r: String)
        requires
            date.start_date.giltigt(),
            date.end_date.giltigt(),
        ensures
            r@ == self.base_url@ + "/v1/company/"@ + self.company@ + "/zReport?itemsPerPage="@
                + dec_str(page.size as nat) + "&pageNumber="@ + dec_str(page.page as nat)
                + "&sortColumn=sequenceNumber&sortDirection=asc&dateSelectionType="@
                + date.date_type@ + "&startDate="@ + crate::datum::datum_text(date.start_date)
                + "&stopDate="@ + crate::datum::datum_text(date.end_date),
    {
        let mut s = self.base_url.clone();
        s.append("/v1/company/");
        s.append(self.company.as_str());
        s.append("/zReport?itemsPerPage=");
        s.append(crate::text::fmt_u32(page.size).as_str());
        s.append("&pageNumber=");
        s.append(crate::text::fmt_u32(page.page).as_str());
        s.append("&sortColumn=sequenceNumber&sortDirection=asc&dateSelectionType=");
        s.append(date.date_type.as_str());
        s.append("&startDate=");
        s.append(crate::datum::datum_text_exec(&date.start_date).as_str());
        s.append("&stopDate=");
        s.append(crate::datum::datum_text_exec(&date.end_date).as_str());
        s
    }

    /// The PDF endpoint for one report.
    pub fn zrapport_pdf_url(&self, rapport: &ZRapport) -> (r: String)
        ensures
            r@ == self.base_url@ + "/v1/company/"@ + self.company@ + "/zReport/"@ + dec_str(
                rapport.store_number as nat,
            ) + "/"@ + dec_str(rapport.cash_register_number as nat) + "/"@ + dec_str(
                rapport.sequence_number as nat,
            ) + "/pdf"@,
    {
        let mut s = self.base_url.clone();
        s.append("/v1/company/");
        s.append(self.company.as_str());
        s.append("/zReport/");
        s.append(crate::text::fmt_u32(rapport.store_number).as_str());
        s.append("/");
        s.append(crate::text::fmt_u32(rapport.cash_register_number).as_str());
        s.append("/");
        s.append(crate::text::fmt_u32(rapport.sequence_number).as_str());
        s.append("/pdf");
        s
    }

    /// The stem of the local artifact files written for one report.
    pub open spec fn filstam(self, rapport: ZRapport) -> Seq<char> {
        "Z-Rapport_"@ + self.company@ + "_"@ + dec_str(rapport.store_number as nat) + "-"@
            + dec_str(rapport.cash_register_number as nat) + "-"@ + dec_str(
            rapport.sequence_number as nat,
        )
    }

    fn filstam_exec(&self, rapport: &ZRapport) -> (r: String)
        ensures
            r@ == self.filstam(*rapport),
    {
        let mut s = "Z-Rapport_".to_owned();
        s.append(self.company.as_str());
        s.append("_");
        s.append(crate::text::fmt_u32(rapport.store_number).as_str());
        s.append("-");
        s.append(crate::text::fmt_u32(rapport.cash_register_number).as_str());
        s.append("-");
        s.append(crate::text::fmt_u32(rapport.sequence_number).as_str());
        s
    }

    /// The name under which the report's PDF is stored locally.
    pub fn pdf_filnamn(&self, rapport: &ZRapport) -> (r: String)
        ensures
            r@ == self.filstam(*rapport) + ".pdf"@,
    {
        let mut s = self.filstam_exec(rapport);
        s.append(".pdf");
        s
    }

    /// The name of the local raw-report snapshot.
    pub fn json_filnamn(&self, rapport: &ZRapport) -> (r: String)
        ensures
            r@ == self.filstam(*rapport) + ".json"@,
    {
        let mut s = self.filstam_exec(rapport);
        s.append(".json");
        s
    }

    /// The name of the local journal-request snapshot.
    pub fn bokio_json_filnamn(&self, rapport: &ZRapport) -> (r: String)
        ensures
            r@ == self.filstam(*rapport) + "_bokio.json"@,
    {
        let mut s = self.filstam_exec(rapport);
        s.append("_bokio.json");
        s
    }
}

/// A resolved date range with its derived selection-type tag.
#[derive(Debug)]
pub struct DateRequest {
    pub start_date: Datum,
    pub end_date: Datum,
    pub date_type: String,
}

/// The range the resolver derives from optional start and end dates: both
/// kept as given; a lone start runs until today; a lone end starts today
/// unless it lies in the past, in which case it collapses to one day;
/// nothing given means today alone.
pub open spec fn upplost_intervall(start: Option<Datum>, end: Option<Datum>, idag: Datum) -> (
    Datum,
    Datum,
) {
    match (start, end) {
        (Some(s), Some(e)) => (s, e),
        (Some(s), None) => (s, idag),
        (None, Some(e)) => if fore(idag, e) {
            (idag, e)
        } else {
            (e, e)
        },
        (None, None) => (idag, idag),
    }
}

/// The selection-type tag of a resolved range.
pub open spec fn urvalstyp(start: Datum, end: Datum, idag: Datum) -> Seq<char> {
    if start == end {
        if start == idag {
            "today"@
        } else {
            "date"@
        }
    } else {
        "interval"@
    }
}

impl DateRequest {
    /// Resolves optional start and end dates against the current date.
    pub fn new(start_date: &Option<Datum>, end_date: &Option<Datum>, idag: &Datum) -> (r:
        DateRequest)
        ensures
            (r.start_date, r.end_date) == upplost_intervall(*start_date, *end_date, *idag),
            r.date_type@ == urvalstyp(r.start_date, r.end_date, *idag),
    {
        let (s, e): (Datum, Datum) = match (start_date, end_date) {
            (Some(s), Some(e)) => (*s, *e),
            (Some(s), None) => (*s, *idag),
            (None, Some(e)) => if crate::datum::ar_fore(idag, e) {
                (*idag, *e)
            } else {
                (*e, *e)
            },
            (None, None) => (*idag, *idag),
        };
        let date_type: String = if s == e {
            if s == *idag {
                "today".to_owned()
            } else {
                "date".to_owned()
            }
        } else {
            "interval".to_owned()
        };
        DateRequest { start_date: s, end_date: e, date_type }
    }
}

/// The resolver never returns a reversed range, provided a fully given range
/// is ordered and a lone start date does not lie in the future.
pub proof fn lemma_intervall_ordnat(start: Option<Datum>, end: Option<Datum>, idag: Datum)
    requires
        start is Some && end is Some ==> fore_eller_lika(start->Some_0, end->Some_0),
        start is Some && end is None ==> fore_eller_lika(start->Some_0, idag),
    ensures
        fore_eller_lika(
            upplost_intervall(start, end, idag).0,
            upplost_intervall(start, end, idag).1,
        ),
{
}

/// The selection type is `today` exactly for today's single day, `date` for
/// any other single day, and `interval` otherwise.
pub proof fn lemma_urvalstyp(start: Datum, end: Datum, idag: Datum)
    ensures
        (urvalstyp(start, end, idag) == "today"@) <==> (start == end && end == idag),
        (urvalstyp(start, end, idag) == "date"@) <==> (start == end && end != idag),
        (urvalstyp(start, end, idag) == "interval"@) <==> (start != end),
{
    reveal_strlit("today");
    reveal_strlit("date");
    reveal_strlit("interval");
    assert("today"@.len() == 5);
    assert("date"@.len() == 4);
    assert("interval"@.len() == 8);
}

/// The journal-listing window opens fourteen days before the report range,
/// because postings may be dated earlier than the report is confirmed.
pub fn lookback_start(start: &Datum) -> (r: Option<Datum>)
    requires
        start.giltigt(),
    ensures
        r == crate::datum::minus_dagar(*start, 14),
        r is Some ==> r->Some_0.giltigt(),
{
    crate::datum::minus_dagar_exec(start, 14)
}

} // verus!

verus! {

/// Sum of `kontosumma` over a list of accounts.
pub open spec fn kontosummor(konton: Seq<u16>, rader: Seq<ZRapportTrans>) -> int
    decreases konton.len(),
{
    if konton.len() == 0 {
        0
    } else {
        kontosummor(konton.drop_last(), rader) + kontosumma(rader, konton.last())
    }
}

/// Sum of `x` over the occurrences of `konto` in `konton`.
spec fn bidrag(konton: Seq<u16>, konto: u16, x: int) -> int
    decreases konton.len(),
{
    if konton.len() == 0 {
        0
    } else {
        bidrag(konton.drop_last(), konto, x) + if konton.last() == konto {
            x
        } else {
            0
        }
    }
}

proof fn lemma_kontosummor_tom(konton: Seq<u16>)
    ensures
        kontosummor(konton, Seq::<ZRapportTrans>::empty()) == 0,
    decreases konton.len(),
{
    if konton.len() > 0 {
        lemma_kontosummor_tom(konton.drop_last());
    }
}

proof fn lemma_kontosummor_steg(konton: Seq<u16>, rader: Seq<ZRapportTrans>)
    requires
        rader.len() > 0,
    ensures
        kontosummor(konton, rader) == kontosummor(konton, rader.drop_last()) + bidrag(
            konton,
            rader.last().account_number,
            rader.last().amount.ore as int,
        ),
    decreases konton.len(),
{
    if konton.len() > 0 {
        lemma_kontosummor_steg(konton.drop_last(), rader);
    }
}

proof fn lemma_bidrag_en(konton: Seq<u16>, konto: u16, x: int)
    requires
        forall|i: int, j: int| 0 <= i < j < konton.len() ==> konton[i] != konton[j],
        konton.contains(konto),
    ensures
        bidrag(konton, konto, x) == x,
    decreases konton.len(),
{
    let sista = konton.last();
    let resten = konton.drop_last();
    if sista == konto {
        assert(!resten.contains(konto)) by {
            if resten.contains(konto) {
                let i = choose|i: int| 0 <= i < resten.len() && resten[i] == konto;
                assert(konton[i] == konton[konton.len() - 1]);
            }
        }
        lemma_bidrag_ingen(resten, konto, x);
    } else {
        assert(resten.contains(konto)) by {
            let i = choose|i: int| 0 <= i < konton.len() && konton[i] == konto;
            assert(resten[i] == konto);
        }
        lemma_bidrag_en(resten, konto, x);
    }
}

proof fn lemma_bidrag_ingen(konton: Seq<u16>, konto: u16, x: int)
    requires
        !konton.contains(konto),
    ensures
        bidrag(konton, konto, x) == 0,
    decreases konton.len(),
{
    if konton.len() > 0 {
        assert(!konton.drop_last().contains(konto)) by {
            if konton.drop_last().contains(konto) {
                let i = choose|i: int|
                    0 <= i < konton.drop_last().len() && konton.drop_last()[i] == konto;
                assert(konton[i] == konto);
            }
        }
        lemma_bidrag_ingen(konton.drop_last(), konto, x);
    }
}

/// Conservation of money: over any duplicate-free account list that covers
/// every account occurring in the lines, the per-account aggregates sum to
/// the plain sum of all line amounts.
pub proof fn lemma_konto_konservering(rader: Seq<ZRapportTrans>, konton: Seq<u16>)
    requires
        forall|i: int, j: int| 0 <= i < j < konton.len() ==> konton[i] != konton[j],
        forall|i: int|
            0 <= i < rader.len() ==> konton.contains(#[trigger] rader[i].account_number),
    ensures
        kontosummor(konton, rader) == radsumma(rader),
    decreases rader.len(),
{
    if rader.len() == 0 {
        assert(rader =~= Seq::<ZRapportTrans>::empty());
        lemma_kontosummor_tom(konton);
    } else {
        let resten = rader.drop_last();
        assert(forall|i: int|
            0 <= i < resten.len() ==> konton.contains(#[trigger] resten[i].account_number))
            by {
            assert(forall|i: int| 0 <= i < resten.len() ==> resten[i] == rader[i]);
        }
        lemma_konto_konservering(resten, konton);
        lemma_kontosummor_steg(konton, rader);
        assert(konton.contains(rader[rader.len() - 1].account_number));
        lemma_bidrag_en(konton, rader.last().account_number, rader.last().amount.ore as int);
    }
}

} // verus!
