use zrapport::avstamning::RapportImport;
use zrapport::belopp::Belopp;
use zrapport::easycashier::{ZRapport, ZRapportTrans};
use zrapport::journal::JournalEntry;
use zrapport::urval::{mojliga_rapporter, tolka_urval, Urval};

fn kandidater(tal: &[u32]) -> Vec<u32> {
    tal.to_vec()
}

#[test]
fn a_bare_newline_selects_all() {
    let m = kandidater(&[3, 7]);
    assert!(matches!(tolka_urval("\n", &m), Urval::Alla));
}

#[test]
fn yes_words_select_all() {
    let m = kandidater(&[3, 7]);
    assert!(matches!(tolka_urval("yes\n", &m), Urval::Alla));
    assert!(matches!(tolka_urval("y\n", &m), Urval::Alla));
    assert!(matches!(tolka_urval("  YES  \n", &m), Urval::Alla));
    assert!(matches!(tolka_urval("Y\n", &m), Urval::Alla));
}

#[test]
fn no_words_and_end_of_input_select_none() {
    let m = kandidater(&[3, 7]);
    assert!(matches!(tolka_urval("no\n", &m), Urval::Ingen));
    assert!(matches!(tolka_urval("q\n", &m), Urval::Ingen));
    assert!(matches!(tolka_urval("Q\n", &m), Urval::Ingen));
    assert!(matches!(tolka_urval("", &m), Urval::Ingen));
}

#[test]
fn a_blank_line_asks_again() {
    let m = kandidater(&[3, 7]);
    assert!(matches!(tolka_urval("   \n", &m), Urval::Omval));
    assert!(matches!(tolka_urval("\t\n", &m), Urval::Omval));
}

#[test]
fn candidate_numbers_are_selected_in_input_order() {
    let m = kandidater(&[3, 7, 9]);
    match tolka_urval("7 3\n", &m) {
        Urval::Valda(v) => assert_eq!(v, vec![7, 3]),
        _ => panic!("expected a selection"),
    }
    match tolka_urval("+3\n", &m) {
        Urval::Valda(v) => assert_eq!(v, vec![3]),
        _ => panic!("expected a selection"),
    }
}

#[test]
fn a_repeated_candidate_number_is_kept_as_typed() {
    let m = kandidater(&[3, 7]);
    match tolka_urval("3 3\n", &m) {
        Urval::Valda(v) => assert_eq!(v, vec![3, 3]),
        _ => panic!("expected a selection"),
    }
}

#[test]
fn a_non_candidate_number_rejects_the_whole_line() {
    let m = kandidater(&[3, 7]);
    match tolka_urval("3 7 99\n", &m) {
        Urval::Ogiltig(tok) => assert_eq!(tok, "99"),
        _ => panic!("expected rejection"),
    }
}

#[test]
fn an_unparsable_token_rejects_the_whole_line() {
    let m = kandidater(&[3, 7]);
    match tolka_urval("3 sju\n", &m) {
        Urval::Ogiltig(tok) => assert_eq!(tok, "sju"),
        _ => panic!("expected rejection"),
    }
    match tolka_urval("99999999999\n", &m) {
        Urval::Ogiltig(tok) => assert_eq!(tok, "99999999999"),
        _ => panic!("expected rejection"),
    }
}

fn rapport(seq: u32) -> ZRapport {
    ZRapport {
        sequence_number: seq,
        store_number: 1,
        cash_register_number: 2,
        first_receipt: 10,
        last_receipt: 20,
        date_created: "2024-03-07T12:34:56".to_string(),
        company_name: "Kiosken AB".to_string(),
        corporate_identity: "556036-0793".to_string(),
        z_report_transactions: vec![ZRapportTrans {
            account_number: 1580,
            amount: Belopp::fran_ore(100),
        }],
    }
}

#[test]
fn candidates_are_the_unmatched_reports_in_order() {
    let v = JournalEntry {
        id: "a".to_string(),
        journal_entry_number: "V1".to_string(),
        title: "t".to_string(),
        reversed_by_journal_entry_id: None,
    };
    let importer = vec![
        RapportImport { rapport: rapport(1), verifikat: None },
        RapportImport { rapport: rapport(2), verifikat: Some(v) },
        RapportImport { rapport: rapport(3), verifikat: None },
    ];
    assert_eq!(mojliga_rapporter(&importer), vec![1, 3]);
}
