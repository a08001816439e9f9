//! The laws the ledger obeys, stated and proved over the same spec
//! functions the operations' contracts use.

use vstd::prelude::*;
use crate::ledger::Ledger;
use crate::ledger::apply_spec;
use crate::ledger::applied_state;
use crate::ledger::statement_entry_matches;
use crate::ledger::statement_ok;
use crate::structs::ClientTransactionRequest;
use crate::structs::CustomerStatementResponse;
use crate::structs::LedgerError;
use crate::structs::NewTransactionResponse;
use crate::structs::TransactionStatement;
use crate::structs::description_chars;
use crate::structs::description_ok;
use crate::structs::code_of_kind;
use crate::structs::kind_of_code;
use crate::structs::shape_ok;
use crate::structs::signed_delta;
use crate::structs::is_debit_code;
use crate::validate::valid_customer_id;
use vstd::arithmetic::div_mod::lemma_fundamental_div_mod;
use vstd::arithmetic::div_mod::lemma_div_pos_is_pos;
use vstd::arithmetic::div_mod::lemma_mod_bound;
use vstd::arithmetic::mul::lemma_mul_inequality;

verus! {

/// The ledger invariant made explicit: in every well-formed committed
/// state, no customer's balance lies below minus that customer's overdraft
/// limit.
pub proof fn lemma_invariant_balance_limit(l: Ledger, customer_id: int)
    requires
        l.wf(),
        valid_customer_id(customer_id),
    ensures
        l.account(customer_id).balance + l.account(customer_id).limit >= 0,
{
}

/// The invariant's inductive step, at the level of the applier's own
/// contract: whatever one applier call does to a well-formed store — any
/// customer, any request, any clock reading, success or rejection — the
/// store it leaves behind is well-formed again. Together with `Ledger::new`
/// establishing well-formedness, every state reached by a sequence of
/// applied transactions keeps `balance + limit >= 0` for every customer.
pub proof fn lemma_apply_preserves_wf(
    pre: Ledger,
    customer_id: int,
    req: &ClientTransactionRequest,
    now: int,
    post: Ledger,
    r: Result<NewTransactionResponse, LedgerError>,
)
    requires
        pre.wf(),
        apply_spec(pre, customer_id, req, now, post, r),
    ensures
        post.wf(),
{
    if valid_customer_id(customer_id) && shape_ok(req) {
        let acct = pre.account(customer_id);
        let kind = kind_of_code(req.tipo@);
        let nb = acct.balance + signed_delta(kind, req.valor as int);
        if nb + acct.limit >= 0 && nb <= i32::MAX {
            let pa = post.account(customer_id);
            let olen = acct.transactions@.len() as int;
            assert forall|j: int|
                0 <= j < post.customers@.len() implies (#[trigger] post.customers@[j]).wf()
                && post.customers@[j].id == j + 1 by {
                if j != customer_id - 1 {
                    assert(post.customers@[j] == pre.customers@[j]);
                } else {
                    assert(post.customers@[j] == pa);
                    assert forall|i: int|
                        0 <= i < pa.transactions@.len() implies (
                    #[trigger] pa.transactions@[i]).wf() && pa.transactions@[i].customer_id
                        == pa.id by {
                        if i < olen {
                            assert(pa.transactions@[i] == acct.transactions@[i]);
                        } else {
                            assert(pa.transactions@[i] == pa.transactions@.last());
                            assert(description_ok(&req.descricao));
                        }
                    }
                    assert forall|i: int, i2: int|
                        0 <= i <= i2 < pa.transactions@.len() implies (
                    #[trigger] pa.transactions@[i].occurred_at) <= (#[trigger] pa.transactions@[
                        i2
                    ].occurred_at) by {
                        if i2 < olen {
                            assert(pa.transactions@[i] == acct.transactions@[i]);
                            assert(pa.transactions@[i2] == acct.transactions@[i2]);
                        } else if i < olen {
                            assert(pa.transactions@[i] == acct.transactions@[i]);
                            assert(acct.transactions@[i].occurred_at <= acct.transactions@[olen
                                - 1].occurred_at);
                        }
                    }
                }
            }
        }
    }
}

/// Two statement entries agree on every field a statement shows.
pub open spec fn entries_agree(e1: TransactionStatement, e2: TransactionStatement) -> bool {
    &&& e1.valor == e2.valor
    &&& e1.tipo@ == e2.tipo@
    &&& e1.descricao@ == e2.descricao@
    &&& e1.realizada_em == e2.realizada_em
}

/// Idempotent read: two statement reads of the same committed state at the
/// same as-of time agree on every field — the read has no side effects and
/// no hidden state.
pub proof fn lemma_statement_idempotent(
    l: Ledger,
    customer_id: int,
    now: int,
    s1: CustomerStatementResponse,
    s2: CustomerStatementResponse,
)
    requires
        statement_ok(l, customer_id, now, s1),
        statement_ok(l, customer_id, now, s2),
    ensures
        s1.saldo.total == s2.saldo.total,
        s1.saldo.limite == s2.saldo.limite,
        s1.saldo.data_extrato == s2.saldo.data_extrato,
        s1.ultimas_transacoes@.len() == s2.ultimas_transacoes@.len(),
        forall|i: int|
            0 <= i < s1.ultimas_transacoes@.len() ==> entries_agree(
                #[trigger] s1.ultimas_transacoes@[i],
                s2.ultimas_transacoes@[i],
            ),
{
    let n = l.account(customer_id).transactions@.len() as int;
    assert forall|i: int|
        0 <= i < s1.ultimas_transacoes@.len() implies entries_agree(
        #[trigger] s1.ultimas_transacoes@[i],
        s2.ultimas_transacoes@[i],
    ) by {
        assert(statement_entry_matches(
            s1.ultimas_transacoes@[i],
            l.account(customer_id).transactions@[n - 1 - i],
        ));
        assert(statement_entry_matches(
            s2.ultimas_transacoes@[i],
            l.account(customer_id).transactions@[n - 1 - i],
        ));
    }
}

/// Statement entries come newest first: along the returned list the
/// timestamps never increase, since the log is kept in timestamp order
/// and read from the end.
pub proof fn lemma_statement_newest_first(
    l: Ledger,
    customer_id: int,
    now: int,
    s: CustomerStatementResponse,
)
    requires
        l.wf(),
        valid_customer_id(customer_id),
        statement_ok(l, customer_id, now, s),
    ensures
        forall|i: int, j: int|
            0 <= i <= j < s.ultimas_transacoes@.len() ==> (
            #[trigger] s.ultimas_transacoes@[i].realizada_em) >= (#[trigger] s.ultimas_transacoes@[
                j
            ].realizada_em),
{
    let acct = l.account(customer_id);
    let n = acct.transactions@.len() as int;
    assert(acct.wf());
    assert forall|i: int, j: int|
        0 <= i <= j < s.ultimas_transacoes@.len() implies (
    #[trigger] s.ultimas_transacoes@[i].realizada_em) >= (#[trigger] s.ultimas_transacoes@[
        j
    ].realizada_em) by {
        assert(statement_entry_matches(s.ultimas_transacoes@[i], acct.transactions@[n - 1 - i]));
        assert(statement_entry_matches(s.ultimas_transacoes@[j], acct.transactions@[n - 1 - j]));
        assert(acct.transactions@[n - 1 - j].occurred_at <= acct.transactions@[n - 1
            - i].occurred_at);
    }
}

/// Round-trip: a transaction the applier accepted appears in a subsequent
/// statement of the same customer — newest first, so as entry 0 — with the
/// request's amount, kind and description, and it appears exactly once:
/// every later entry renders one of the records that were already in the
/// log before the call, in unchanged order.
pub proof fn lemma_round_trip(
    pre: Ledger,
    customer_id: int,
    req: &ClientTransactionRequest,
    now: int,
    post: Ledger,
    resp: NewTransactionResponse,
    now2: int,
    s: CustomerStatementResponse,
)
    requires
        apply_spec(pre, customer_id, req, now, post, Ok(resp)),
        statement_ok(post, customer_id, now2, s),
    ensures
        s.ultimas_transacoes@.len() >= 1,
        s.ultimas_transacoes@[0].valor == req.valor,
        s.ultimas_transacoes@[0].tipo@ == code_of_kind(kind_of_code(req.tipo@)),
        s.ultimas_transacoes@[0].descricao@ == description_chars(&req.descricao),
        forall|i: int|
            1 <= i < s.ultimas_transacoes@.len() ==> statement_entry_matches(
                #[trigger] s.ultimas_transacoes@[i],
                pre.account(customer_id).transactions@[pre.account(
                    customer_id,
                ).transactions@.len() - i],
            ),
{
    let acct = pre.account(customer_id);
    let pa = post.account(customer_id);
    let olen = acct.transactions@.len() as int;
    assert(statement_entry_matches(s.ultimas_transacoes@[0], pa.transactions@[olen]));
    assert(pa.transactions@[olen] == pa.transactions@.last());
    assert forall|i: int|
        1 <= i < s.ultimas_transacoes@.len() implies statement_entry_matches(
        #[trigger] s.ultimas_transacoes@[i],
        acct.transactions@[olen - i],
    ) by {
        assert(statement_entry_matches(s.ultimas_transacoes@[i], pa.transactions@[olen - i]));
        assert(pa.transactions@[olen - i] == acct.transactions@[olen - i]);
    }
}

/// A serialized run of applier calls: `ledgers[0]` is the starting state,
/// and step `i` is one call, against customer `ids[i]` with request
/// `reqs[i]` at clock reading `nows[i]`, that sees the state the previous
/// call committed. By the service's ordering guarantee, the net effect of
/// any set of concurrently issued calls equals such a run in some order.
pub open spec fn apply_trace(
    ledgers: Seq<Ledger>,
    results: Seq<Result<NewTransactionResponse, LedgerError>>,
    nows: Seq<int>,
    ids: Seq<int>,
    reqs: Seq<ClientTransactionRequest>,
) -> bool {
    &&& ledgers.len() == results.len() + 1
    &&& nows.len() == results.len()
    &&& ids.len() == results.len()
    &&& reqs.len() == results.len()
    &&& forall|i: int|
        0 <= i < results.len() ==> apply_spec(
            ledgers[i],
            ids[i],
            &reqs[i],
            nows[i],
            ledgers[i + 1],
            #[trigger] results[i],
        )
}

/// The invariant over whole runs: whatever sequence of transactions is
/// applied to a well-formed store — any customers, any requests, any
/// clock readings, accepted or rejected — every committed state along the
/// run is well-formed, so `balance + limit >= 0` holds for every customer
/// at every committed point.
pub proof fn lemma_run_invariant(
    ledgers: Seq<Ledger>,
    results: Seq<Result<NewTransactionResponse, LedgerError>>,
    nows: Seq<int>,
    ids: Seq<int>,
    reqs: Seq<ClientTransactionRequest>,
    k: int,
)
    requires
        apply_trace(ledgers, results, nows, ids, reqs),
        ledgers[0].wf(),
        0 <= k < ledgers.len(),
    ensures
        ledgers[k].wf(),
        forall|c: int|
            valid_customer_id(c) ==> ledgers[k].account(c).balance + ledgers[k].account(c).limit
                >= 0,
    decreases k,
{
    if k > 0 {
        lemma_run_invariant(ledgers, results, nows, ids, reqs, k - 1);
        lemma_apply_preserves_wf(
            ledgers[k - 1],
            ids[k - 1],
            &reqs[k - 1],
            nows[k - 1],
            ledgers[k],
            results[k - 1],
        );
    }
}

/// How many calls of a run succeeded.
pub open spec fn ok_count(results: Seq<Result<NewTransactionResponse, LedgerError>>) -> int
    decreases results.len(),
{
    if results.len() == 0 {
        0
    } else {
        ok_count(results.drop_last()) + if results.last() is Ok {
            1int
        } else {
            0int
        }
    }
}

/// The smaller of `n` and `m`.
pub open spec fn min_int(n: int, m: int) -> int {
    if n <= m {
        n
    } else {
        m
    }
}

/// Concurrency, serialized: of `n` debit calls of one and the same
/// request of amount `a` against a customer with balance `0` and limit
/// `l`, exactly `min(n, l / a)` succeed; every other call fails with
/// `LimitExceeded`; and the final balance is `-a * min(n, l / a)`. For
/// identical debits every serialization order gives the same counts, so
/// this is the net effect of `n` concurrent debit requests.
pub proof fn lemma_concurrent_debits(
    ledgers: Seq<Ledger>,
    results: Seq<Result<NewTransactionResponse, LedgerError>>,
    nows: Seq<int>,
    ids: Seq<int>,
    reqs: Seq<ClientTransactionRequest>,
    customer_id: int,
    req: &ClientTransactionRequest,
    a: int,
    l: int,
)
    requires
        apply_trace(ledgers, results, nows, ids, reqs),
        forall|i: int| 0 <= i < results.len() ==> #[trigger] ids[i] == customer_id,
        forall|i: int| 0 <= i < results.len() ==> #[trigger] reqs[i] == *req,
        valid_customer_id(customer_id),
        shape_ok(req),
        is_debit_code(req.tipo@),
        req.valor == a,
        l >= 0,
        ledgers[0].account(customer_id).balance == 0,
        ledgers[0].account(customer_id).limit == l,
    ensures
        ok_count(results) == min_int(results.len() as int, l / a),
        forall|i: int|
            0 <= i < results.len() ==> (#[trigger] results[i]) is Ok || results[i]->Err_0
                == LedgerError::LimitExceeded,
        ledgers.last().account(customer_id).balance == -a * min_int(results.len() as int, l / a),
        ledgers.last().account(customer_id).limit == l,
    decreases results.len(),
{
    let m = l / a;
    lemma_fundamental_div_mod(l, a);
    lemma_mod_bound(l, a);
    lemma_div_pos_is_pos(l, a);
    let n = results.len() as int;
    if n == 0 {
        assert(ledgers.last() == ledgers[0]);
        assert(-a * 0 == 0) by (nonlinear_arith);
    } else {
        let lp = ledgers.drop_last();
        let rp = results.drop_last();
        let np = nows.drop_last();
        let ip = ids.drop_last();
        let qp = reqs.drop_last();
        assert forall|i: int| 0 <= i < rp.len() implies apply_spec(
            lp[i],
            ip[i],
            &qp[i],
            np[i],
            lp[i + 1],
            #[trigger] rp[i],
        ) by {
            assert(rp[i] == results[i]);
            assert(lp[i] == ledgers[i]);
            assert(lp[i + 1] == ledgers[i + 1]);
            assert(np[i] == nows[i]);
            assert(ip[i] == ids[i]);
            assert(qp[i] == reqs[i]);
        }
        assert forall|i: int| 0 <= i < rp.len() implies #[trigger] ip[i] == customer_id by {
            assert(ids[i] == customer_id);
        }
        assert forall|i: int| 0 <= i < rp.len() implies #[trigger] qp[i] == *req by {
            assert(reqs[i] == *req);
        }
        lemma_concurrent_debits(lp, rp, np, ip, qp, customer_id, req, a, l);
        let s = ok_count(rp);
        assert(s == min_int(n - 1, m));
        let pre = ledgers[n - 1];
        assert(lp.last() == pre);
        assert(pre.account(customer_id).balance == -a * s);
        assert(pre.account(customer_id).limit == l);
        let post = ledgers[n];
        assert(ledgers.last() == post);
        let r = results.last();
        assert(apply_spec(pre, ids[n - 1], &reqs[n - 1], nows[n - 1], post, r));
        assert(ids[n - 1] == customer_id && reqs[n - 1] == *req);
        assert(apply_spec(pre, customer_id, req, nows[n - 1], post, r));
        let kind = kind_of_code(req.tipo@);
        assert(signed_delta(kind, a) == -a);
        let nb = -a * s - a;
        assert(pre.account(customer_id).balance + signed_delta(kind, req.valor as int) == nb);
        assert(s >= 0 && a >= 1);
        assert(-a * s <= 0) by (nonlinear_arith)
            requires
                s >= 0 && a >= 1,
        ;
        assert(nb <= i32::MAX);
        if nb + l >= 0 {
            // The guard holds: this call succeeds, and one more debit fits
            // under the limit, so the success count was still below l / a.
            assert(r is Ok);
            assert(applied_state(pre, customer_id, req, nows[n - 1], post));
            assert(post.account(customer_id).balance == nb);
            assert(post.account(customer_id).limit == l);
            assert(ok_count(results) == s + 1);
            assert(a * (s + 1) <= l) by (nonlinear_arith)
                requires
                    nb == -a * s - a && nb + l >= 0,
            ;
            assert(s + 1 <= m) by {
                if s + 1 > m {
                    lemma_mul_inequality(m + 1, s + 1, a);
                    assert(a * (m + 1) > l) by (nonlinear_arith)
                        requires
                            l == a * m + l % a && l % a < a,
                    ;
                    assert((m + 1) * a == a * (m + 1)) by (nonlinear_arith);
                    assert((s + 1) * a == a * (s + 1)) by (nonlinear_arith);
                }
            }
            assert(s == n - 1 && s + 1 == min_int(n, m));
            assert(nb == -a * (s + 1)) by (nonlinear_arith)
                requires
                    nb == -a * s - a,
            ;
        } else {
            // The guard fails: the limit is exhausted, so the success
            // count had already reached l / a, and the state is unchanged.
            assert(r is Err && r->Err_0 == LedgerError::LimitExceeded);
            assert(post == pre);
            assert(ok_count(results) == s);
            assert(a * (s + 1) > l) by (nonlinear_arith)
                requires
                    nb == -a * s - a && nb + l < 0,
            ;
            assert(s >= m) by {
                if s < m {
                    lemma_mul_inequality(s + 1, m, a);
                    assert(a * m <= l) by (nonlinear_arith)
                        requires
                            l == a * m + l % a && l % a >= 0,
                    ;
                    assert((s + 1) * a == a * (s + 1)) by (nonlinear_arith);
                    assert(m * a == a * m) by (nonlinear_arith);
                }
            }
            assert(s == m && s == min_int(n, m));
        }
    }
}

} // verus!
