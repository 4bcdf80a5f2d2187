use budget_tracker::ledger::{check_ledger_delete, LedgerDeleteError};
use budget_tracker::model::TransactionType;
use budget_tracker::text::strip_path_quotes;

#[test]
fn strip_path_quotes_takes_one_pair_off() {
    assert_eq!(strip_path_quotes("'/tmp/a b.db'"), "/tmp/a b.db");
    assert_eq!(strip_path_quotes("  \"/tmp/x.db\"  "), "/tmp/x.db");
    assert_eq!(strip_path_quotes("\"'/tmp/x.db'\""), "'/tmp/x.db'");
    assert_eq!(strip_path_quotes("'/tmp/x.db\""), "'/tmp/x.db\"");
    assert_eq!(strip_path_quotes("'"), "'");
    assert_eq!(strip_path_quotes(" /plain/path "), "/plain/path");
    assert_eq!(strip_path_quotes(""), "");
}

#[test]
fn a_type_reads_back_from_its_label() {
    for t in [TransactionType::Income, TransactionType::Expense] {
        assert_eq!(TransactionType::try_from_str(t.as_str()), Ok(t));
        assert_eq!(t.to_string(), t.as_str());
    }
    assert_eq!(TransactionType::Income.to_string(), "Income");
    assert_eq!(TransactionType::try_from_str("EXPENSE"), Ok(TransactionType::Expense));
    assert_eq!(TransactionType::try_from_str("x"), Err(()));
}

#[test]
fn the_last_ledger_cannot_be_deleted() {
    assert_eq!(check_ledger_delete(1), Err(LedgerDeleteError::LastLedger));
    assert_eq!(check_ledger_delete(0), Err(LedgerDeleteError::LastLedger));
    assert_eq!(check_ledger_delete(2), Ok(()));
    assert_eq!(LedgerDeleteError::LastLedger.message(), "At least one ledger must remain.");
}
