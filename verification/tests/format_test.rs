use zrapport::belopp::Belopp;
use zrapport::datum::Datum;
use zrapport::easycashier::{DateRequest, EasyCashier, ZRapport, ZRapportTrans};
use zrapport::text;
use zrapport::utils::{format_local_date, format_orgnr, PageReq};

fn rapport(seq: u32) -> ZRapport {
    ZRapport {
        sequence_number: seq,
        store_number: 1,
        cash_register_number: 2,
        first_receipt: 10,
        last_receipt: 20,
        date_created: "2024-03-07T12:34:56".to_string(),
        company_name: "Kiosken AB".to_string(),
        corporate_identity: "556036-0793".to_string(),
        z_report_transactions: Vec::new(),
    }
}

#[test]
fn fmt_u32_renders_decimal() {
    assert_eq!(text::fmt_u32(0), "0");
    assert_eq!(text::fmt_u32(7), "7");
    assert_eq!(text::fmt_u32(407), "407");
    assert_eq!(text::fmt_u32(u32::MAX), "4294967295");
}

#[test]
fn belopp_text_two_decimals() {
    assert_eq!(Belopp::fran_ore(12050).text(), "120.50");
    assert_eq!(Belopp::fran_ore(-3000).text(), "-30.00");
    assert_eq!(Belopp::fran_ore(0).text(), "0.00");
    assert_eq!(Belopp::fran_ore(-5).text(), "-0.05");
    assert_eq!(Belopp::fran_ore(100).text(), "1.00");
    assert_eq!(Belopp::fran_ore(9).text(), "0.09");
}

#[test]
fn padding_widens_but_never_cuts() {
    assert_eq!(text::padda_vanster("ab", 4), "  ab");
    assert_eq!(text::padda_hoger("ab", 4), "ab  ");
    assert_eq!(text::padda_vanster("abcdef", 4), "abcdef");
    assert_eq!(text::padda_hoger("abcdef", 4), "abcdef");
}

#[test]
fn datum_text_is_zero_padded() {
    assert_eq!(format_local_date(&Datum { ar: 2024, manad: 3, dag: 7 }), "2024-03-07");
    assert_eq!(format_local_date(&Datum { ar: 987, manad: 1, dag: 5 }), "0987-01-05");
    assert_eq!(format_local_date(&Datum { ar: 2024, manad: 12, dag: 31 }), "2024-12-31");
}

#[test]
fn orgnr_gets_hyphen_for_ten_and_twelve_digits() {
    assert_eq!(format_orgnr("5560360793"), "556036-0793");
    assert_eq!(format_orgnr("165560360793"), "16556036-0793");
    assert_eq!(format_orgnr(" 5560360793 "), "556036-0793");
    assert_eq!(format_orgnr("556036-0793"), "556036-0793");
    assert_eq!(format_orgnr("123"), "123");
    assert_eq!(format_orgnr("  abc  "), "abc");
    assert_eq!(format_orgnr(""), "");
}

#[test]
fn verifikatnamn_is_the_canonical_title() {
    let r = rapport(3);
    assert_eq!(r.verifikatnamn(), "Z, Bu: 1 Ka: 2 Nr: 3 Kv: 10 - 20");
}

#[test]
fn datum_takes_the_date_prefix() {
    let r = rapport(3);
    assert_eq!(r.datum(), "2024-03-07");
}

#[test]
fn url_builders_compose_the_service_paths() {
    let easy = EasyCashier {
        base_url: "https://example.test".to_string(),
        company: "556036-0793".to_string(),
        token: "testtoken".to_string(),
    };
    assert_eq!(
        EasyCashier::login_url("https://example.test"),
        "https://example.test/v1/login"
    );
    let datum_req = DateRequest::new(
        &Some(Datum { ar: 2024, manad: 3, dag: 1 }),
        &Some(Datum { ar: 2024, manad: 3, dag: 7 }),
        &Datum { ar: 2024, manad: 3, dag: 7 },
    );
    let sida = PageReq { page: 1, size: 100 };
    assert_eq!(
        easy.zrapporter_url(&datum_req, &sida),
        "https://example.test/v1/company/556036-0793/zReport?itemsPerPage=100&pageNumber=1\
         &sortColumn=sequenceNumber&sortDirection=asc&dateSelectionType=interval\
         &startDate=2024-03-01&stopDate=2024-03-07"
    );
    let r = rapport(3);
    assert_eq!(
        easy.zrapport_pdf_url(&r),
        "https://example.test/v1/company/556036-0793/zReport/1/2/3/pdf"
    );
    assert_eq!(easy.pdf_filnamn(&r), "Z-Rapport_556036-0793_1-2-3.pdf");
    assert_eq!(easy.json_filnamn(&r), "Z-Rapport_556036-0793_1-2-3.json");
    assert_eq!(easy.bokio_json_filnamn(&r), "Z-Rapport_556036-0793_1-2-3_bokio.json");
}

#[test]
fn valformad_requires_date_and_bounded_sums() {
    let mut r = rapport(3);
    assert!(r.ar_valformad());
    r.date_created = "2024".to_string();
    assert!(!r.ar_valformad());
    let mut r = rapport(4);
    r.z_report_transactions = vec![
        ZRapportTrans { account_number: 1, amount: Belopp::fran_ore(i64::MAX) },
        ZRapportTrans { account_number: 2, amount: Belopp::fran_ore(1) },
    ];
    assert!(!r.ar_valformad());
}

#[test]
fn pagination_advances_until_the_last_page() {
    let meta = zrapport::easycashier::EasyCashierMetaInformation {
        current_page: 1,
        total_pages: 3,
        total_resources: 250,
    };
    let sida = PageReq { page: 1, size: 100 };
    assert!(zrapport::easycashier::fler_sidor(&sida, &meta));
    let sida = zrapport::easycashier::nasta_sida(&sida);
    assert_eq!(sida.page, 2);
    assert_eq!(sida.size, 100);
    let sista = PageReq { page: 3, size: 100 };
    assert!(!zrapport::easycashier::fler_sidor(&sista, &meta));
}

#[test]
fn an_explicit_organisation_wins_over_the_default() {
    assert_eq!(
        zrapport::easycashier::valj_foretag(
            Some("556036-0793".to_string()),
            Some("111111-1111".to_string())
        ),
        Some("556036-0793".to_string())
    );
    assert_eq!(
        zrapport::easycashier::valj_foretag(None, Some("111111-1111".to_string())),
        Some("111111-1111".to_string())
    );
    assert_eq!(zrapport::easycashier::valj_foretag(None, None), None);
}
