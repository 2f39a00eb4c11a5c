use ledger::{
    Amount, Client, Store, Transaction, TransactionDetails, TransactionError, TransactionId,
    TransactionKind,
};

fn amount(mantissa: i128, scale: u32) -> Amount {
    Amount::from_parts(mantissa, scale).unwrap()
}

fn details(client: u16, tx: u32) -> TransactionDetails {
    TransactionDetails::new(Client(client), TransactionId(tx))
}

fn deposit(client: u16, tx: u32, a: Amount) -> Transaction {
    Transaction::Deposit { details: details(client, tx), amount: a, is_under_dispute: false }
}

fn withdrawal(client: u16, tx: u32, a: Amount) -> Transaction {
    Transaction::Withdrawal { details: details(client, tx), amount: a, is_under_dispute: false }
}

fn dispute(client: u16, tx: u32) -> Transaction {
    Transaction::Dispute { details: details(client, tx) }
}

fn resolve(client: u16, tx: u32) -> Transaction {
    Transaction::Resolve { details: details(client, tx) }
}

fn chargeback(client: u16, tx: u32) -> Transaction {
    Transaction::Chargeback { details: details(client, tx) }
}

/// One line per account, in client order, as `client,available,held,total,locked`.
fn rows(store: &Store) -> Vec<String> {
    store
        .accounts_in_order()
        .iter()
        .map(|a| {
            format!(
                "{},{},{},{},{}",
                a.client.0,
                a.available_amount.to_fixed4_string(),
                a.held_amount.to_fixed4_string(),
                a.total_amount.to_fixed4_string(),
                a.is_locked
            )
        })
        .collect()
}

fn run(records: Vec<Transaction>) -> (Store, Vec<Result<(), TransactionError>>) {
    let mut store = Store::new();
    let outcomes = store.save_all(&records);
    (store, outcomes)
}

#[test]
fn withdrawal_beyond_available_is_rejected() {
    let (store, outcomes) = run(vec![deposit(1, 1, amount(10, 1)), withdrawal(1, 4, amount(15, 1))]);
    assert_eq!(
        outcomes,
        vec![
            Ok(()),
            Err(TransactionError::InsufficientFunds {
                requested: amount(15, 1),
                available: amount(10, 1),
            }),
        ]
    );
    assert_eq!(rows(&store), vec!["1,1.0000,0.0000,1.0000,false"]);
}

#[test]
fn deposits_and_withdrawals_across_clients() {
    let (store, _) = run(vec![
        deposit(1, 1, amount(10, 1)),
        deposit(2, 2, amount(20, 1)),
        deposit(1, 3, amount(20, 1)),
        withdrawal(1, 4, amount(15, 1)),
        withdrawal(2, 5, amount(30, 1)),
    ]);
    assert_eq!(
        rows(&store),
        vec!["1,1.5000,0.0000,1.5000,false", "2,2.0000,0.0000,2.0000,false"]
    );
}

#[test]
fn reused_deposit_id_overwrites_the_kept_record() {
    let (store, outcomes) = run(vec![
        deposit(1, 1, amount(10, 1)),
        deposit(2, 2, amount(20, 1)),
        dispute(1, 1),
        deposit(1, 1, amount(15, 1)),
        withdrawal(2, 5, amount(30, 1)),
    ]);
    assert_eq!(outcomes[3], Ok(()));
    // The held amount is the one recorded when the dispute was made.
    assert_eq!(
        rows(&store),
        vec!["1,1.5000,1.0000,2.5000,false", "2,2.0000,0.0000,2.0000,false"]
    );
    // The replacement record is not under dispute, so it cannot be resolved.
    let mut store = store;
    assert_eq!(resolve(1, 1).save(&mut store), Err(TransactionError::ErroneousResolve(TransactionId(1))));
    assert_eq!(
        Transaction::find_by_id(TransactionId(1), &store),
        Some(deposit(1, 1, amount(15, 1)))
    );
}

#[test]
fn resolve_releases_held_funds() {
    let (store, outcomes) = run(vec![
        deposit(1, 1, amount(10, 1)),
        deposit(2, 2, amount(20, 1)),
        dispute(1, 1),
        resolve(1, 1),
        withdrawal(2, 5, amount(30, 1)),
    ]);
    assert_eq!(outcomes[2], Ok(()));
    assert_eq!(outcomes[3], Ok(()));
    assert_eq!(
        rows(&store),
        vec!["1,1.0000,0.0000,1.0000,false", "2,2.0000,0.0000,2.0000,false"]
    );
}

#[test]
fn chargeback_locks_the_account() {
    let (mut store, outcomes) = run(vec![
        deposit(1, 1, amount(10, 1)),
        dispute(1, 1),
        chargeback(1, 1),
    ]);
    assert_eq!(outcomes, vec![Ok(()), Ok(()), Ok(())]);
    assert_eq!(rows(&store), vec!["1,0.0000,0.0000,0.0000,true"]);
    assert_eq!(
        deposit(1, 2, amount(50, 1)).save(&mut store),
        Err(TransactionError::AccountLocked(Client(1)))
    );
    assert_eq!(rows(&store), vec!["1,0.0000,0.0000,0.0000,true"]);
}

#[test]
fn locked_account_rejects_every_kind_of_record() {
    let (store, outcomes) = run(vec![
        deposit(1, 1, amount(10, 1)),
        deposit(2, 2, amount(20, 1)),
        dispute(1, 1),
        chargeback(1, 1),
        deposit(1, 2, amount(56587878, 7)),
        deposit(1, 3, amount(1105, 2)),
        withdrawal(1, 5, amount(30, 1)),
        dispute(1, 1),
        resolve(1, 1),
        chargeback(1, 1),
    ]);
    for outcome in &outcomes[4..] {
        assert_eq!(*outcome, Err(TransactionError::AccountLocked(Client(1))));
    }
    assert_eq!(
        rows(&store),
        vec!["1,0.0000,0.0000,0.0000,true", "2,2.0000,0.0000,2.0000,false"]
    );
}

#[test]
fn negative_deposit_is_rejected() {
    let (store, outcomes) = run(vec![deposit(1, 1, amount(10, 1)), deposit(1, 2, amount(-1, 4))]);
    assert_eq!(outcomes[1], Err(TransactionError::InvalidAmount(amount(-1, 4))));
    assert_eq!(rows(&store), vec!["1,1.0000,0.0000,1.0000,false"]);
}

#[test]
fn negative_withdrawal_is_rejected() {
    let (store, outcomes) = run(vec![deposit(1, 1, amount(10, 1)), withdrawal(1, 2, amount(-5, 1))]);
    assert_eq!(outcomes[1], Err(TransactionError::InvalidAmount(amount(-5, 1))));
    assert_eq!(rows(&store), vec!["1,1.0000,0.0000,1.0000,false"]);
    assert_eq!(Transaction::find_by_id(TransactionId(2), &store), None);
}

#[test]
fn chargeback_may_drive_balances_negative() {
    let (store, outcomes) = run(vec![
        deposit(2, 2, amount(20, 1)),
        withdrawal(2, 5, amount(30, 1)),
        withdrawal(2, 6, amount(15, 1)),
        dispute(2, 2),
        chargeback(2, 2),
    ]);
    assert_eq!(
        outcomes[1],
        Err(TransactionError::InsufficientFunds { requested: amount(30, 1), available: amount(20, 1) })
    );
    assert_eq!(outcomes[2..], [Ok(()), Ok(()), Ok(())]);
    assert_eq!(rows(&store), vec!["2,-1.5000,0.0000,-1.5000,true"]);
}

#[test]
fn rejected_withdrawal_is_not_kept() {
    let (store, outcomes) = run(vec![
        deposit(2, 2, amount(20, 1)),
        withdrawal(2, 5, amount(30, 1)),
        dispute(2, 5),
        chargeback(2, 5),
    ]);
    assert_eq!(outcomes[2], Err(TransactionError::ErroneousDispute(TransactionId(5))));
    assert_eq!(outcomes[3], Err(TransactionError::ErroneousChargeback(TransactionId(5))));
    assert_eq!(rows(&store), vec!["2,2.0000,0.0000,2.0000,false"]);
}

#[test]
fn second_dispute_is_rejected_and_changes_nothing() {
    let (store, outcomes) = run(vec![deposit(1, 1, amount(10, 1)), dispute(1, 1), dispute(1, 1)]);
    assert_eq!(
        outcomes,
        vec![Ok(()), Ok(()), Err(TransactionError::ErroneousDispute(TransactionId(1)))]
    );
    assert_eq!(rows(&store), vec!["1,0.0000,1.0000,1.0000,false"]);
}

#[test]
fn deposit_then_withdrawal_returns_to_zero() {
    let (store, outcomes) = run(vec![deposit(7, 1, amount(123456, 3)), withdrawal(7, 2, amount(123456, 3))]);
    assert_eq!(outcomes, vec![Ok(()), Ok(())]);
    assert_eq!(rows(&store), vec!["7,0.0000,0.0000,0.0000,false"]);
}

#[test]
fn total_is_available_plus_held_throughout() {
    let records = vec![
        deposit(1, 1, amount(156787645323, 11)),
        deposit(1, 2, amount(234354, 5)),
        dispute(1, 1),
        withdrawal(1, 3, amount(1522454, 6)),
        resolve(1, 1),
        dispute(1, 2),
        withdrawal(1, 4, amount(5, 0)),
        chargeback(1, 2),
    ];
    let mut store = Store::new();
    for record in records {
        let _ = record.save(&mut store);
        for a in store.accounts_in_order() {
            let sum = a.available_amount.checked_add(a.held_amount).unwrap();
            assert!(a.total_amount.eq_value(&sum));
        }
    }
}

#[test]
fn dispute_of_unknown_transaction_is_rejected() {
    let (store, outcomes) = run(vec![dispute(3, 9), deposit(3, 9, amount(1, 0))]);
    assert_eq!(outcomes[0], Err(TransactionError::ErroneousDispute(TransactionId(9))));
    assert_eq!(outcomes[1], Ok(()));
    assert_eq!(rows(&store), vec!["3,1.0000,0.0000,1.0000,false"]);
}

#[test]
fn resolve_without_dispute_is_rejected() {
    let (store, outcomes) = run(vec![deposit(1, 1, amount(1, 0)), resolve(1, 1), chargeback(1, 1)]);
    assert_eq!(outcomes[1], Err(TransactionError::ErroneousResolve(TransactionId(1))));
    assert_eq!(outcomes[2], Err(TransactionError::ErroneousChargeback(TransactionId(1))));
    assert_eq!(rows(&store), vec!["1,1.0000,0.0000,1.0000,false"]);
}

#[test]
fn dispute_of_a_withdrawal_holds_its_amount() {
    let (store, _) = run(vec![deposit(1, 1, amount(5, 0)), withdrawal(1, 2, amount(2, 0)), dispute(1, 2)]);
    assert_eq!(rows(&store), vec!["1,1.0000,2.0000,3.0000,false"]);
}

#[test]
fn first_reference_creates_the_account() {
    let (store, outcomes) = run(vec![resolve(4, 1)]);
    assert_eq!(outcomes[0], Err(TransactionError::ErroneousResolve(TransactionId(1))));
    assert_eq!(rows(&store), vec!["4,0.0000,0.0000,0.0000,false"]);
}

#[test]
fn accounts_are_listed_by_ascending_client() {
    let (store, _) = run(vec![
        deposit(30, 1, amount(3, 0)),
        deposit(1, 2, amount(1, 0)),
        deposit(65535, 3, amount(9, 0)),
        deposit(0, 4, amount(2, 0)),
    ]);
    let clients: Vec<u16> = store.accounts_in_order().iter().map(|a| a.client.0).collect();
    assert_eq!(clients, vec![0, 1, 30, 65535]);
}

#[test]
fn overflowing_deposit_is_rejected() {
    let max = amount(79228162514264337593543950335, 0);
    let (store, outcomes) = run(vec![deposit(1, 1, max), deposit(1, 2, amount(1, 0))]);
    assert_eq!(outcomes, vec![Ok(()), Err(TransactionError::Overflow)]);
    assert_eq!(rows(&store), vec!["1,79228162514264337593543950335.0000,0.0000,79228162514264337593543950335.0000,false"]);
}

#[test]
fn record_without_amount_is_rejected() {
    assert_eq!(
        Transaction::from_record(TransactionKind::Deposit, Client(1), TransactionId(3), None),
        Err(TransactionError::MissingAmount(TransactionId(3)))
    );
    assert_eq!(
        Transaction::from_record(TransactionKind::Withdrawal, Client(1), TransactionId(3), None),
        Err(TransactionError::MissingAmount(TransactionId(3)))
    );
    assert_eq!(
        Transaction::from_record(TransactionKind::Dispute, Client(1), TransactionId(3), Some(amount(2, 0))),
        Ok(dispute(1, 3))
    );
    assert_eq!(
        Transaction::from_record(TransactionKind::Deposit, Client(1), TransactionId(3), Some(amount(2, 0))),
        Ok(deposit(1, 3, amount(2, 0)))
    );
}

#[test]
fn account_lookup_by_client() {
    let (store, _) = run(vec![deposit(5, 1, amount(25, 1))]);
    let a = store.account(Client(5)).unwrap();
    assert_eq!(a.client, Client(5));
    assert_eq!(a.available_amount.to_fixed4_string(), "2.5000");
    assert!(!a.is_locked);
    assert_eq!(store.account(Client(6)), None);
}
