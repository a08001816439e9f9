use rinha::ledger::Ledger;
use rinha::structs::ClientTransactionRequest;
use rinha::structs::LedgerError;
use rinha::structs::NewTransactionResponse;
use rinha::structs::TransactionType;
use rinha::validate::validate_request;

fn req(valor: i32, tipo: &str, descricao: Option<&str>) -> ClientTransactionRequest {
    ClientTransactionRequest {
        valor,
        tipo: tipo.to_string(),
        descricao: descricao.map(|d| d.to_string()),
    }
}

fn ledger_with_limits(limits: [i32; 5]) -> Ledger {
    let limits: Vec<i32> = limits.to_vec();
    Ledger::new(&limits)
}

fn ok(r: Result<NewTransactionResponse, LedgerError>) -> NewTransactionResponse {
    match r {
        Ok(resp) => resp,
        Err(e) => panic!("expected success, got {:?}", e),
    }
}

fn err(r: Result<NewTransactionResponse, LedgerError>) -> LedgerError {
    match r {
        Ok(_) => panic!("expected an error"),
        Err(e) => e,
    }
}

#[test]
fn debit_and_credit_move_the_balance() {
    let mut l = ledger_with_limits([1000, 0, 0, 0, 0]);
    let r = ok(l.apply_transaction(1, &req(500, "d", Some("compra")), 10));
    assert_eq!(r.limite, 1000);
    assert_eq!(r.saldo, -500);
    let r = ok(l.apply_transaction(1, &req(200, "c", Some("deposito")), 20));
    assert_eq!(r.limite, 1000);
    assert_eq!(r.saldo, -300);
}

#[test]
fn description_boundaries() {
    let mut l = ledger_with_limits([1000, 0, 0, 0, 0]);
    // length 1 and length 10 are accepted
    assert!(l.apply_transaction(1, &req(1, "c", Some("a")), 1).is_ok());
    assert!(l.apply_transaction(1, &req(1, "c", Some("abcdefghij")), 2).is_ok());
    // length 0, length 11 and a missing description are rejected
    assert_eq!(err(l.apply_transaction(1, &req(1, "c", Some("")), 3)), LedgerError::UnprocessableInput);
    assert_eq!(err(l.apply_transaction(1, &req(1, "c", Some("abcdefghijk")), 4)), LedgerError::UnprocessableInput);
    assert_eq!(err(l.apply_transaction(1, &req(1, "c", None), 5)), LedgerError::UnprocessableInput);
}

#[test]
fn description_length_counts_characters_not_bytes() {
    let mut l = ledger_with_limits([1000, 0, 0, 0, 0]);
    // ten characters, far more than ten bytes
    let ten_chars = "aáaáaáaáaá";
    assert_eq!(ten_chars.chars().count(), 10);
    assert!(ten_chars.len() > 10);
    assert!(l.apply_transaction(1, &req(1, "c", Some(ten_chars)), 2).is_ok());
}

#[test]
fn kind_must_be_d_or_c() {
    let mut l = ledger_with_limits([1000, 0, 0, 0, 0]);
    assert_eq!(err(l.apply_transaction(1, &req(1, "x", Some("compra")), 1)), LedgerError::UnprocessableInput);
    assert_eq!(err(l.apply_transaction(1, &req(1, "", Some("compra")), 2)), LedgerError::UnprocessableInput);
    assert_eq!(err(l.apply_transaction(1, &req(1, "dd", Some("compra")), 3)), LedgerError::UnprocessableInput);
}

#[test]
fn amount_must_be_positive() {
    let mut l = ledger_with_limits([1000, 0, 0, 0, 0]);
    assert_eq!(err(l.apply_transaction(1, &req(0, "d", Some("compra")), 1)), LedgerError::UnprocessableInput);
    assert_eq!(err(l.apply_transaction(1, &req(-5, "c", Some("compra")), 2)), LedgerError::UnprocessableInput);
}

#[test]
fn unknown_customer_is_not_found() {
    let mut l = ledger_with_limits([1000, 0, 0, 0, 0]);
    assert_eq!(err(l.apply_transaction(99, &req(1, "d", Some("compra")), 1)), LedgerError::NotFound);
    assert_eq!(err(l.apply_transaction(0, &req(1, "d", Some("compra")), 1)), LedgerError::NotFound);
    assert_eq!(err(l.apply_transaction(6, &req(1, "d", Some("compra")), 1)), LedgerError::NotFound);
    assert!(matches!(l.statement(99, 1), Err(LedgerError::NotFound)));
}

#[test]
fn not_found_wins_over_bad_shape() {
    let mut l = ledger_with_limits([1000, 0, 0, 0, 0]);
    // the customer check comes first: a bad shape on an unknown customer
    // still reports NotFound
    assert_eq!(err(l.apply_transaction(99, &req(-1, "x", None), 1)), LedgerError::NotFound);
}

#[test]
fn debit_to_exactly_minus_limit_is_accepted() {
    let mut l = ledger_with_limits([1000, 0, 0, 0, 0]);
    let r = ok(l.apply_transaction(1, &req(1000, "d", Some("tudo")), 1));
    assert_eq!(r.saldo, -1000);
    // one unit more is rejected and leaves the balance unchanged
    assert_eq!(err(l.apply_transaction(1, &req(1, "d", Some("gota")), 2)), LedgerError::LimitExceeded);
    let s = l.statement(1, 3).unwrap();
    assert_eq!(s.saldo.total, -1000);
}

#[test]
fn debit_one_over_the_limit_is_rejected_upfront() {
    let mut l = ledger_with_limits([1000, 0, 0, 0, 0]);
    assert_eq!(err(l.apply_transaction(1, &req(1001, "d", Some("demais")), 1)), LedgerError::LimitExceeded);
    let s = l.statement(1, 2).unwrap();
    assert_eq!(s.saldo.total, 0);
    assert_eq!(s.ultimas_transacoes.len(), 0);
}

#[test]
fn balance_never_below_minus_limit() {
    // the committed balance respects balance + limit >= 0 after every call,
    // accepted or rejected
    let mut l = ledger_with_limits([400, 0, 0, 0, 0]);
    let amounts = [300, 300, 150, 50, 500, 1];
    let mut t: i64 = 0;
    for a in amounts {
        t += 1;
        let _ = l.apply_transaction(1, &req(a, "d", Some("gasto")), t);
        let s = l.statement(1, t).unwrap();
        assert!(s.saldo.total + s.saldo.limite >= 0);
    }
}

#[test]
fn serialized_debits_respect_the_quota() {
    // five debits of 300 against limit 1000: floor(1000/300) = 3 succeed,
    // the rest fail with LimitExceeded, and the balance ends at -900
    let mut l = ledger_with_limits([1000, 0, 0, 0, 0]);
    let mut successes = 0;
    let mut failures = 0;
    for i in 0..5i64 {
        match l.apply_transaction(1, &req(300, "d", Some("corrida")), i) {
            Ok(_) => successes += 1,
            Err(LedgerError::LimitExceeded) => failures += 1,
            Err(e) => panic!("unexpected error {:?}", e),
        }
    }
    assert_eq!(successes, 3);
    assert_eq!(failures, 2);
    let s = l.statement(1, 10).unwrap();
    assert_eq!(s.saldo.total, -900);
}

#[test]
fn accepted_transaction_round_trips_into_the_statement() {
    let mut l = ledger_with_limits([1000, 0, 0, 0, 0]);
    ok(l.apply_transaction(1, &req(250, "d", Some("mercado")), 77));
    let s = l.statement(1, 99).unwrap();
    assert_eq!(s.ultimas_transacoes.len(), 1);
    let e = &s.ultimas_transacoes[0];
    assert_eq!(e.valor, 250);
    assert_eq!(e.tipo, "d");
    assert_eq!(e.descricao, "mercado");
    assert_eq!(e.realizada_em, 77);
    // it appears exactly once
    assert_eq!(
        s.ultimas_transacoes
            .iter()
            .filter(|x| x.descricao == "mercado")
            .count(),
        1
    );
}

#[test]
fn statement_snapshot_fields() {
    let mut l = ledger_with_limits([500, 800, 0, 0, 0]);
    ok(l.apply_transaction(2, &req(100, "c", Some("bonus")), 5));
    let s = l.statement(2, 42).unwrap();
    assert_eq!(s.saldo.total, 100);
    assert_eq!(s.saldo.limite, 800);
    assert_eq!(s.saldo.data_extrato, 42);
    // other customers are untouched
    let s1 = l.statement(1, 43).unwrap();
    assert_eq!(s1.saldo.total, 0);
    assert_eq!(s1.saldo.limite, 500);
    assert_eq!(s1.ultimas_transacoes.len(), 0);
}

#[test]
fn repeated_reads_are_identical() {
    let mut l = ledger_with_limits([1000, 0, 0, 0, 0]);
    ok(l.apply_transaction(1, &req(10, "d", Some("cafe")), 1));
    ok(l.apply_transaction(1, &req(30, "c", Some("troco")), 2));
    let s1 = l.statement(1, 50).unwrap();
    let s2 = l.statement(1, 50).unwrap();
    assert_eq!(s1.saldo.total, s2.saldo.total);
    assert_eq!(s1.saldo.limite, s2.saldo.limite);
    assert_eq!(s1.saldo.data_extrato, s2.saldo.data_extrato);
    assert_eq!(s1.ultimas_transacoes.len(), s2.ultimas_transacoes.len());
    for (a, b) in s1.ultimas_transacoes.iter().zip(s2.ultimas_transacoes.iter()) {
        assert_eq!(a.valor, b.valor);
        assert_eq!(a.tipo, b.tipo);
        assert_eq!(a.descricao, b.descricao);
        assert_eq!(a.realizada_em, b.realizada_em);
    }
}

#[test]
fn statement_shows_at_most_ten_newest_first() {
    let mut l = ledger_with_limits([0, 0, 0, 0, 0]);
    for i in 1..=12i32 {
        ok(l.apply_transaction(3, &req(i, "c", Some("serie")), i as i64));
    }
    let s = l.statement(3, 100).unwrap();
    assert_eq!(s.ultimas_transacoes.len(), 10);
    // newest first: amounts 12 down to 3; the two oldest were evicted
    for (i, e) in s.ultimas_transacoes.iter().enumerate() {
        assert_eq!(e.valor, 12 - i as i32);
        assert_eq!(e.realizada_em, (12 - i as i32) as i64);
    }
}

#[test]
fn timestamps_never_go_backwards() {
    let mut l = ledger_with_limits([0, 0, 0, 0, 0]);
    ok(l.apply_transaction(1, &req(1, "c", Some("um")), 100));
    // a lagging clock is pushed up to the last record's timestamp
    ok(l.apply_transaction(1, &req(2, "c", Some("dois")), 50));
    let s = l.statement(1, 200).unwrap();
    assert_eq!(s.ultimas_transacoes[0].valor, 2);
    assert_eq!(s.ultimas_transacoes[0].realizada_em, 100);
    assert_eq!(s.ultimas_transacoes[1].realizada_em, 100);
}

#[test]
fn credit_overflow_is_a_storage_error() {
    let mut l = ledger_with_limits([0, 0, 0, 0, 0]);
    ok(l.apply_transaction(1, &req(i32::MAX, "c", Some("teto")), 1));
    assert_eq!(err(l.apply_transaction(1, &req(1, "c", Some("gota")), 2)), LedgerError::StorageError);
    let s = l.statement(1, 3).unwrap();
    assert_eq!(s.saldo.total, i32::MAX);
    assert_eq!(s.ultimas_transacoes.len(), 1);
}

#[test]
fn error_status_codes() {
    assert_eq!(LedgerError::NotFound.status_code(), 404);
    assert_eq!(LedgerError::UnprocessableInput.status_code(), 422);
    assert_eq!(LedgerError::LimitExceeded.status_code(), 422);
    assert_eq!(LedgerError::StorageError.status_code(), 500);
}

#[test]
fn validate_request_decodes_the_kind() {
    let v = validate_request(1, &req(7, "d", Some("x"))).unwrap();
    assert_eq!(v.kind, TransactionType::Debit);
    assert_eq!(v.amount, 7);
    assert_eq!(v.description, "x");
    let v = validate_request(5, &req(9, "c", Some("y"))).unwrap();
    assert_eq!(v.kind, TransactionType::Credit);
    assert_eq!(v.amount, 9);
}

#[test]
fn scenario_customer_one() {
    // customer 1, limit 1000, balance 0
    let mut l = ledger_with_limits([1000, 0, 0, 0, 0]);
    let r = ok(l.apply_transaction(1, &req(500, "d", Some("compra")), 1));
    assert_eq!(r.limite, 1000);
    assert_eq!(r.saldo, -500);
    // a debit of 600 would take the balance to -1100 < -1000
    assert_eq!(err(l.apply_transaction(1, &req(600, "d", Some("compra2")), 2)), LedgerError::LimitExceeded);
    let s = l.statement(1, 3).unwrap();
    assert_eq!(s.saldo.total, -500);
    assert_eq!(s.ultimas_transacoes.len(), 1);
    assert_eq!(s.ultimas_transacoes[0].descricao, "compra");
}
