use zrapport::belopp::Belopp;
use zrapport::easycashier::{ZRapport, ZRapportTrans};
use zrapport::journal::create_journal_entry;

fn rapport_med(rader: Vec<(u16, i64)>) -> ZRapport {
    ZRapport {
        sequence_number: 9,
        store_number: 1,
        cash_register_number: 2,
        first_receipt: 100,
        last_receipt: 120,
        date_created: "2024-03-07T12:34:56".to_string(),
        company_name: "Kiosken AB".to_string(),
        corporate_identity: "556036-0793".to_string(),
        z_report_transactions: rader
            .into_iter()
            .map(|(konto, ore)| ZRapportTrans { account_number: konto, amount: Belopp::fran_ore(ore) })
            .collect(),
    }
}

#[test]
fn konto_aggregates_equal_accounts() {
    let r = rapport_med(vec![(1580, 12050), (1911, -3000), (1580, 500)]);
    assert!(r.ar_valformad());
    assert_eq!(r.konto(1580), Belopp::fran_ore(12550));
    assert_eq!(r.konto(1911), Belopp::fran_ore(-3000));
    assert_eq!(r.konto(1932), Belopp::fran_ore(0));
}

#[test]
fn konto_of_no_lines_is_zero() {
    let r = rapport_med(Vec::new());
    assert_eq!(r.konto(1580), Belopp::fran_ore(0));
}

#[test]
fn aggregates_conserve_the_total() {
    let r = rapport_med(vec![(1580, 12050), (1911, -3000), (1580, 500), (3001, -9550)]);
    let total: i64 =
        r.z_report_transactions.iter().map(|t| t.amount.ore).sum();
    let per_konto =
        r.konto(1580).ore + r.konto(1911).ore + r.konto(3001).ore;
    assert_eq!(per_konto, total);
    assert_eq!(total, 0);
}

#[test]
fn postings_split_debit_and_credit_per_line() {
    let r = rapport_med(vec![(1580, 12050), (1911, -3000), (1580, 500)]);
    let j = create_journal_entry(&r);
    assert_eq!(j.title, "Z, Bu: 1 Ka: 2 Nr: 9 Kv: 100 - 120");
    assert_eq!(j.date, "2024-03-07");
    assert_eq!(j.items.len(), 3);
    assert_eq!(j.items[0].account, 1580);
    assert_eq!(j.items[0].debit, Belopp::fran_ore(12050));
    assert_eq!(j.items[0].credit, Belopp::fran_ore(0));
    assert_eq!(j.items[1].account, 1911);
    assert_eq!(j.items[1].debit, Belopp::fran_ore(0));
    assert_eq!(j.items[1].credit, Belopp::fran_ore(3000));
    assert_eq!(j.items[2].account, 1580);
    assert_eq!(j.items[2].debit, Belopp::fran_ore(500));
    assert_eq!(j.items[2].credit, Belopp::fran_ore(0));
}

#[test]
fn a_zero_line_posts_nothing_on_either_side() {
    let r = rapport_med(vec![(1580, 0)]);
    let j = create_journal_entry(&r);
    assert_eq!(j.items.len(), 1);
    assert_eq!(j.items[0].debit, Belopp::fran_ore(0));
    assert_eq!(j.items[0].credit, Belopp::fran_ore(0));
}

#[test]
fn postings_keep_line_count_and_order() {
    let r = rapport_med(vec![(5, 1), (4, 2), (3, 3), (2, 4), (1, 5)]);
    let j = create_journal_entry(&r);
    assert_eq!(j.items.len(), 5);
    for (i, post) in j.items.iter().enumerate() {
        assert_eq!(post.account, 5 - i as i32);
        assert_eq!(post.debit, Belopp::fran_ore(1 + i as i64));
        assert_eq!(post.credit, Belopp::fran_ore(0));
    }
}
