//! The ledger store and the two operations over it: the transaction applier
//! and the statement reader.
//!
//! The store holds, per customer, the overdraft limit, the current balance,
//! and an append-only transaction log. The applier is a single conditional
//! read-modify-write: it commits the new balance and appends the record only
//! if the limit predicate holds, all as one unit, and the store's invariant
//! `balance + limit >= 0` holds at every committed state. The statement
//! reader returns a snapshot of one consistent state: balance, limit, and
//! the most recent transactions newest first.

use vstd::prelude::*;
use crate::structs::ClientTransactionRequest;
use crate::structs::CustomerStatementResponse;
use crate::structs::Balance;
use crate::structs::LedgerError;
use crate::structs::NewTransactionResponse;
use crate::structs::TransactionStatement;
use crate::structs::TransactionType;
use crate::structs::CUSTOMER_COUNT;
use crate::structs::description_chars;
use crate::structs::kind_of_code;
use crate::structs::shape_ok;
use crate::structs::signed_delta;
use crate::structs::code_of_kind;
use crate::structs::kind_code;
use crate::validate::ValidatedTransaction;
use crate::validate::customer_id_in_range;
use crate::validate::valid_customer_id;
use crate::validate::validate_request;

verus! {

/// How many transactions a statement shows at most.
pub const STATEMENT_WINDOW: usize = 10;

/// A committed transaction record: immutable once written.
pub struct Transaction {
    pub customer_id: i32,
    pub amount: i32,
    pub kind: TransactionType,
    pub description: String,
    pub occurred_at: i64,
}

impl Transaction {
    /// What every committed record satisfies: a positive amount and a
    /// description of 1 to 10 characters.
    pub open spec fn wf(&self) -> bool {
        self.amount >= 1 && 1 <= self.description@.len() <= 10
    }
}

/// One customer's durable state: identity, overdraft limit, balance, and
/// the append-only log of committed transactions, oldest first.
pub struct CustomerAccount {
    pub id: i32,
    pub limit: i32,
    pub balance: i32,
    pub transactions: Vec<Transaction>,
}

impl CustomerAccount {
    /// The per-customer invariant: a non-negative limit, a balance that
    /// never drops below `-limit`, well-formed records that all belong to
    /// this customer, and timestamps non-decreasing in insertion order.
    pub open spec fn wf(&self) -> bool {
        &&& self.limit >= 0
        &&& self.balance + self.limit >= 0
        &&& forall|i: int|
            0 <= i < self.transactions@.len() ==> (#[trigger] self.transactions@[i]).wf()
                && self.transactions@[i].customer_id == self.id
        &&& forall|i: int, j: int|
            0 <= i <= j < self.transactions@.len() ==> (#[trigger] self.transactions@[
                i
            ].occurred_at) <= (#[trigger] self.transactions@[j].occurred_at)
    }
}

/// The timestamp the store assigns to the next record of a log: the given
/// clock reading, pushed up to the last record's timestamp where the clock
/// lags behind it, so that the log stays ordered.
pub open spec fn next_timestamp(log: Seq<Transaction>, now: int) -> int {
    if log.len() == 0 || now >= log.last().occurred_at {
        now
    } else {
        log.last().occurred_at as int
    }
}

/// The whole store: the fixed set of customers, ids `1..=CUSTOMER_COUNT`,
/// kept at position `id - 1`.
pub struct Ledger {
    pub customers: Vec<CustomerAccount>,
}

impl Ledger {
    /// The store invariant: exactly the fixed customers, each well-formed
    /// and at the position its id names.
    pub open spec fn wf(&self) -> bool {
        &&& self.customers@.len() == CUSTOMER_COUNT
        &&& forall|i: int|
            0 <= i < self.customers@.len() ==> (#[trigger] self.customers@[i]).wf()
                && self.customers@[i].id == i + 1
    }

    /// The account a valid customer id names.
    pub open spec fn account(&self, customer_id: int) -> CustomerAccount {
        self.customers@[customer_id - 1]
    }

    /// A fresh store: one customer per given limit, ids assigned in order,
    /// every balance zero, every log empty.
    pub fn new(limits: &Vec<i32>) -> (r: Ledger)
        requires
            limits@.len() == CUSTOMER_COUNT,
            forall|i: int| 0 <= i < limits@.len() ==> #[trigger] limits@[i] >= 0,
        ensures
            r.wf(),
            forall|i: int|
                0 <= i < limits@.len() ==> (#[trigger] r.customers@[i]).limit == limits@[i]
                    && r.customers@[i].balance == 0 && r.customers@[i].transactions@.len() == 0,
    {
        let mut customers: Vec<CustomerAccount> = Vec::new();
        let mut i: usize = 0;
        while i < limits.len()
            invariant
                i <= limits@.len(),
                limits@.len() == CUSTOMER_COUNT,
                forall|j: int| 0 <= j < limits@.len() ==> #[trigger] limits@[j] >= 0,
                customers@.len() == i,
                forall|j: int|
                    0 <= j < i ==> (#[trigger] customers@[j]).wf() && customers@[j].id == j + 1
                        && customers@[j].limit == limits@[j] && customers@[j].balance == 0
                        && customers@[j].transactions@.len() == 0,
            decreases limits@.len() - i,
        {
            customers.push(
                CustomerAccount {
                    id: (i + 1) as i32,
                    limit: limits[i],
                    balance: 0,
                    transactions: Vec::new(),
                },
            );
            i = i + 1;
        }
        Ledger { customers }
    }
}

/// What the applier owes for a given pre-state and request: the exact
/// result and the exact post-state, case by case.
///
/// An out-of-range id is `NotFound`; a bad shape is `UnprocessableInput`;
/// both reject before the store is touched. Otherwise the new balance is
/// computed from the signed delta, and in one atomic unit: a balance that
/// would drop below `-limit` is `LimitExceeded`, one that no longer fits
/// the stored integer width is `StorageError` — both leave the store
/// unchanged — and otherwise the balance is committed and the record
/// appended, and the customer's limit and resulting balance are returned.
pub open spec fn apply_spec(
    pre: Ledger,
    customer_id: int,
    req: &ClientTransactionRequest,
    now: int,
    post: Ledger,
    r: Result<NewTransactionResponse, LedgerError>,
) -> bool {
    if !valid_customer_id(customer_id) {
        &&& r is Err
        &&& r->Err_0 == LedgerError::NotFound
        &&& post == pre
    } else if !shape_ok(req) {
        &&& r is Err
        &&& r->Err_0 == LedgerError::UnprocessableInput
        &&& post == pre
    } else {
        let acct = pre.account(customer_id);
        let kind = kind_of_code(req.tipo@);
        let nb = acct.balance + signed_delta(kind, req.valor as int);
        if nb + acct.limit < 0 {
            &&& r is Err
            &&& r->Err_0 == LedgerError::LimitExceeded
            &&& post == pre
        } else if nb > i32::MAX {
            &&& r is Err
            &&& r->Err_0 == LedgerError::StorageError
            &&& post == pre
        } else {
            &&& r is Ok
            &&& r->Ok_0.limite == acct.limit
            &&& r->Ok_0.saldo == nb
            &&& applied_state(pre, customer_id, req, now, post)
        }
    }
}

/// The post-state of a successful apply: every other account untouched,
/// the named account's balance moved by the signed delta, and exactly one
/// record appended, carrying the request's amount, kind and description
/// and the store-assigned timestamp.
pub open spec fn applied_state(
    pre: Ledger,
    customer_id: int,
    req: &ClientTransactionRequest,
    now: int,
    post: Ledger,
) -> bool {
    let acct = pre.account(customer_id);
    let kind = kind_of_code(req.tipo@);
    let nb = acct.balance + signed_delta(kind, req.valor as int);
    let pa = post.account(customer_id);
    &&& post.customers@.len() == pre.customers@.len()
    &&& forall|j: int|
        0 <= j < pre.customers@.len() && j != customer_id - 1 ==> post.customers@[j]
            == pre.customers@[j]
    &&& pa.id == acct.id
    &&& pa.limit == acct.limit
    &&& pa.balance == nb
    &&& pa.transactions@.len() == acct.transactions@.len() + 1
    &&& forall|j: int|
        0 <= j < acct.transactions@.len() ==> post.account(customer_id).transactions@[j]
            == acct.transactions@[j]
    &&& pa.transactions@.last().customer_id == customer_id
    &&& pa.transactions@.last().amount == req.valor
    &&& pa.transactions@.last().kind == kind
    &&& pa.transactions@.last().description@ == description_chars(&req.descricao)
    &&& pa.transactions@.last().occurred_at == next_timestamp(acct.transactions@, now)
}

impl Ledger {
    /// Validate and atomically apply one transaction.
    ///
    /// Validation rejects an unknown customer (`NotFound`), then a bad
    /// kind, missing or over-long description, or non-positive amount
    /// (`UnprocessableInput`), before the store is touched. The apply
    /// itself is one conditional read-modify-write: the new balance is
    /// committed and the record appended only if the balance stays at or
    /// above `-limit`; a rejected apply leaves the store unchanged.
    pub fn apply_transaction(
        &mut self,
        customer_id: i32,
        req: &ClientTransactionRequest,
        now: i64,
    ) -> (r: Result<NewTransactionResponse, LedgerError>)
        requires
            old(self).wf(),
        ensures
            final(self).wf(),
            apply_spec(*old(self), customer_id as int, req, now as int, *final(self), r),
    {
        let v: ValidatedTransaction = match validate_request(customer_id, req) {
            Ok(v) => v,
            Err(e) => {
                return Err(e);
            },
        };
        let idx: usize = (customer_id - 1) as usize;
        let limit: i32 = self.customers[idx].limit;
        let balance: i32 = self.customers[idx].balance;
        let amt: i64 = v.amount as i64;
        let delta: i64 = match v.kind {
            TransactionType::Debit => -amt,
            TransactionType::Credit => amt,
        };
        let lim64: i64 = limit as i64;
        let nb: i64 = balance as i64 + delta;
        if nb + lim64 < 0 {
            return Err(LedgerError::LimitExceeded);
        }
        if nb > (i32::MAX as i64) {
            return Err(LedgerError::StorageError);
        }
        let nb32: i32 = nb as i32;
        let n: usize = self.customers[idx].transactions.len();
        let ts: i64 = if n == 0 {
            now
        } else {
            let last_ts: i64 = self.customers[idx].transactions[n - 1].occurred_at;
            if now >= last_ts {
                now
            } else {
                last_ts
            }
        };
        let tx = Transaction {
            customer_id,
            amount: v.amount,
            kind: v.kind,
            description: v.description,
            occurred_at: ts,
        };
        self.customers[idx].balance = nb32;
        self.customers[idx].transactions.push(tx);
        Ok(NewTransactionResponse { limite: limit, saldo: nb32 })
    }
}

/// One statement entry renders one committed record: same amount, the
/// record's kind as its one-letter code, the same description, the
/// record's timestamp.
pub open spec fn statement_entry_matches(e: TransactionStatement, tx: Transaction) -> bool {
    &&& e.valor == tx.amount
    &&& e.tipo@ == code_of_kind(tx.kind)
    &&& e.descricao@ == tx.description@
    &&& e.realizada_em == tx.occurred_at
}

/// How many entries a statement over a log of length `n` holds: all of
/// them, capped at the window.
pub open spec fn statement_window_len(n: int) -> int {
    if n <= STATEMENT_WINDOW {
        n
    } else {
        STATEMENT_WINDOW as int
    }
}

/// What the statement reader owes on success: the balance, limit and as-of
/// time of one consistent state, and the most recent records of that same
/// state, newest first — entry `i` renders the record `i` places from the
/// end of the log.
pub open spec fn statement_ok(
    l: Ledger,
    customer_id: int,
    now: int,
    s: CustomerStatementResponse,
) -> bool {
    let acct = l.account(customer_id);
    let n = acct.transactions@.len() as int;
    &&& s.saldo.total == acct.balance
    &&& s.saldo.limite == acct.limit
    &&& s.saldo.data_extrato == now
    &&& s.ultimas_transacoes@.len() == statement_window_len(n)
    &&& forall|i: int|
        0 <= i < s.ultimas_transacoes@.len() ==> statement_entry_matches(
            #[trigger] s.ultimas_transacoes@[i],
            acct.transactions@[n - 1 - i],
        )
}

impl Ledger {
    /// Read one customer's statement: a snapshot of the current balance,
    /// limit and as-of time, together with the most recent transactions,
    /// newest first, capped at the window. An out-of-range id is
    /// `NotFound`. The read has no side effects, and everything it returns
    /// comes from the one state `self`.
    pub fn statement(&self, customer_id: i32, now: i64) -> (r: Result<
        CustomerStatementResponse,
        LedgerError,
    >)
        requires
            self.wf(),
        ensures
            match r {
                Ok(s) => valid_customer_id(customer_id as int) && statement_ok(
                    *self,
                    customer_id as int,
                    now as int,
                    s,
                ),
                Err(e) => e == LedgerError::NotFound && !valid_customer_id(customer_id as int),
            },
    {
        if !customer_id_in_range(customer_id) {
            return Err(LedgerError::NotFound);
        }
        let idx: usize = (customer_id - 1) as usize;
        let n: usize = self.customers[idx].transactions.len();
        let k: usize = if n <= STATEMENT_WINDOW {
            n
        } else {
            STATEMENT_WINDOW
        };
        let mut entries: Vec<TransactionStatement> = Vec::new();
        let mut i: usize = 0;
        while i < k
            invariant
                valid_customer_id(customer_id as int),
                idx == customer_id - 1,
                idx < self.customers@.len(),
                n == self.customers@[idx as int].transactions@.len(),
                k == statement_window_len(n as int),
                k <= n,
                i <= k,
                entries@.len() == i,
                forall|j: int|
                    0 <= j < i ==> statement_entry_matches(
                        #[trigger] entries@[j],
                        self.customers@[idx as int].transactions@[n - 1 - j],
                    ),
            decreases k - i,
        {
            let tx = &self.customers[idx].transactions[n - 1 - i];
            let e = TransactionStatement {
                valor: tx.amount,
                tipo: kind_code(tx.kind),
                descricao: tx.description.clone(),
                realizada_em: tx.occurred_at,
            };
            entries.push(e);
            i = i + 1;
        }
        Ok(
            CustomerStatementResponse {
                saldo: Balance {
                    total: self.customers[idx].balance,
                    data_extrato: now,
                    limite: self.customers[idx].limit,
                },
                ultimas_transacoes: entries,
            },
        )
    }
}

} // verus!
