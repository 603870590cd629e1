use zrapport::avstamning::{lagg_till_sida, rakna_importerade_rapporter, rapport_rad, RapportImport};
use zrapport::belopp::Belopp;
use zrapport::easycashier::{ZRapport, ZRapportTrans};
use zrapport::journal::JournalEntry;

fn rapport(seq: u32, rader: Vec<(u16, i64)>) -> ZRapport {
    ZRapport {
        sequence_number: seq,
        store_number: 1,
        cash_register_number: 2,
        first_receipt: 10,
        last_receipt: 20,
        date_created: "2024-03-07T12:34:56".to_string(),
        company_name: "Kiosken AB".to_string(),
        corporate_identity: "556036-0793".to_string(),
        z_report_transactions: rader
            .into_iter()
            .map(|(konto, ore)| ZRapportTrans { account_number: konto, amount: Belopp::fran_ore(ore) })
            .collect(),
    }
}

fn verifikat(id: &str, nummer: &str, titel: &str, reversed: Option<&str>) -> JournalEntry {
    JournalEntry {
        id: id.to_string(),
        journal_entry_number: nummer.to_string(),
        title: titel.to_string(),
        reversed_by_journal_entry_id: reversed.map(|s| s.to_string()),
    }
}

#[test]
fn a_report_matches_its_exact_title_only() {
    let journal = vec![
        verifikat("a", "V1", "Z, Bu: 1 Ka: 2 Nr: 3 Kv: 10 - 20", None),
        verifikat("b", "V2", "Z, Bu: 1 Ka: 2 Nr: 4 Kv: 10 - 20", None),
    ];
    let mut importer: Vec<RapportImport> = Vec::new();
    lagg_till_sida(&mut importer, &journal, vec![rapport(3, vec![]), rapport(5, vec![])]);
    assert_eq!(importer.len(), 2);
    assert_eq!(importer[0].verifikat.as_ref().unwrap().id, "a");
    assert!(importer[1].verifikat.is_none());
}

#[test]
fn a_reversed_entry_does_not_match() {
    let journal = vec![
        verifikat("a", "V1", "Z, Bu: 1 Ka: 2 Nr: 3 Kv: 10 - 20", Some("x")),
        verifikat("b", "V2", "Z, Bu: 1 Ka: 2 Nr: 3 Kv: 10 - 20", None),
    ];
    let mut importer: Vec<RapportImport> = Vec::new();
    lagg_till_sida(&mut importer, &journal, vec![rapport(3, vec![])]);
    assert_eq!(importer[0].verifikat.as_ref().unwrap().id, "b");
}

#[test]
fn the_first_matching_entry_wins() {
    let journal = vec![
        verifikat("a", "V1", "Z, Bu: 1 Ka: 2 Nr: 3 Kv: 10 - 20", None),
        verifikat("b", "V2", "Z, Bu: 1 Ka: 2 Nr: 3 Kv: 10 - 20", None),
    ];
    let mut importer: Vec<RapportImport> = Vec::new();
    lagg_till_sida(&mut importer, &journal, vec![rapport(3, vec![])]);
    assert_eq!(importer[0].verifikat.as_ref().unwrap().id, "a");
}

#[test]
fn matching_again_gives_the_same_pairing() {
    let journal = vec![
        verifikat("a", "V1", "Z, Bu: 1 Ka: 2 Nr: 3 Kv: 10 - 20", None),
        verifikat("b", "V2", "Z, Bu: 1 Ka: 2 Nr: 7 Kv: 10 - 20", Some("x")),
    ];
    let mut forsta: Vec<RapportImport> = Vec::new();
    lagg_till_sida(&mut forsta, &journal, vec![rapport(3, vec![]), rapport(7, vec![])]);
    let mut andra: Vec<RapportImport> = Vec::new();
    lagg_till_sida(&mut andra, &journal, vec![rapport(3, vec![]), rapport(7, vec![])]);
    assert_eq!(forsta.len(), andra.len());
    for (x, y) in forsta.iter().zip(andra.iter()) {
        assert_eq!(x.rapport.sequence_number, y.rapport.sequence_number);
        assert_eq!(
            x.verifikat.as_ref().map(|v| v.id.clone()),
            y.verifikat.as_ref().map(|v| v.id.clone())
        );
    }
}

#[test]
fn pages_accumulate_in_order() {
    let journal: Vec<JournalEntry> = Vec::new();
    let mut importer: Vec<RapportImport> = Vec::new();
    lagg_till_sida(&mut importer, &journal, vec![rapport(1, vec![]), rapport(2, vec![])]);
    lagg_till_sida(&mut importer, &journal, vec![rapport(3, vec![])]);
    let ordning: Vec<u32> = importer.iter().map(|e| e.rapport.sequence_number).collect();
    assert_eq!(ordning, vec![1, 2, 3]);
}

#[test]
fn counting_imported_reports() {
    let journal = vec![verifikat("a", "V1", "Z, Bu: 1 Ka: 2 Nr: 3 Kv: 10 - 20", None)];
    let mut importer: Vec<RapportImport> = Vec::new();
    lagg_till_sida(
        &mut importer,
        &journal,
        vec![rapport(3, vec![]), rapport(4, vec![]), rapport(5, vec![])],
    );
    assert_eq!(rakna_importerade_rapporter(&importer), 1);
}

#[test]
fn table_rows_line_up() {
    let r = rapport(4711, vec![(1580, 12050), (1911, -3000), (1580, 500)]);
    let rad = rapport_rad(&RapportImport { rapport: r, verifikat: None });
    assert_eq!(
        rad,
        "|   | 4711 | 2024-03-07 | Z, Bu: 1 Ka: 2 Nr: 4711 Kv: 10 - 20     |   125.50 |   -30.00 |    0.00 |       |"
    );
    let mut r2 = rapport(17, vec![]);
    r2.first_receipt = 5;
    r2.last_receipt = 9;
    r2.date_created = "2024-03-08T00:00:00".to_string();
    let rad2 = rapport_rad(&RapportImport {
        rapport: r2,
        verifikat: Some(verifikat("a", "V42", "whatever", None)),
    });
    assert_eq!(
        rad2,
        "| ✅ |   17 | 2024-03-08 | Z, Bu: 1 Ka: 2 Nr: 17 Kv: 5 - 9         |     0.00 |     0.00 |    0.00 | V42   |"
    );
}
