//! Data types of the ledger service and the spec functions that describe
//! their valid shapes.
//!
//! Timestamps are carried as plain integers (microseconds since the epoch);
//! turning them into calendar form for display is left to the callers.

use vstd::prelude::*;

verus! {

/// How many customers the service knows. The set is fixed: customers are
/// pre-seeded with ids `1..=CUSTOMER_COUNT` and never created or deleted.
pub const CUSTOMER_COUNT: usize = 5;

/// The direction of a transaction: a debit decreases the balance, a credit
/// increases it.
#[derive(Clone, Copy, Debug, PartialEq, Eq, Structural)]
pub enum TransactionType {
    Credit,
    Debit,
}

/// A transaction request as the client sends it: an amount, a one-letter
/// kind code ("d" or "c"), and an optional description. The description is
/// mandatory in this service: a missing one is rejected.
pub struct ClientTransactionRequest {
    pub valor: i32,
    pub tipo: String,
    pub descricao: Option<String>,
}

/// One entry of a statement's transaction list.
pub struct TransactionStatement {
    pub valor: i32,
    pub tipo: String,
    pub descricao: String,
    pub realizada_em: i64,
}

/// The balance part of a statement: the current total, the overdraft limit,
/// and the as-of timestamp of the snapshot.
pub struct Balance {
    pub total: i32,
    pub data_extrato: i64,
    pub limite: i32,
}

/// A full statement: balance snapshot plus the most recent transactions,
/// newest first.
pub struct CustomerStatementResponse {
    pub saldo: Balance,
    pub ultimas_transacoes: Vec<TransactionStatement>,
}

/// What a successful transaction returns: the customer's limit and the
/// resulting balance.
pub struct NewTransactionResponse {
    pub limite: i32,
    pub saldo: i32,
}

/// Why a request was rejected.
#[derive(Clone, Copy, Debug, PartialEq, Eq, Structural)]
pub enum LedgerError {
    /// The customer id does not reference an existing customer.
    NotFound,
    /// The request's kind, description or amount has a bad shape, or the
    /// transaction would breach the overdraft limit.
    UnprocessableInput,
    /// The transaction would take the balance below `-limit`.
    LimitExceeded,
    /// A storage-layer fault; state is unchanged or at least never
    /// half-applied.
    StorageError,
}

impl LedgerError {
    /// The HTTP status code each error maps to.
    pub fn status_code(&self) -> (code: u16)
        ensures
            code == match *self {
                LedgerError::NotFound => 404u16,
                LedgerError::UnprocessableInput => 422u16,
                LedgerError::LimitExceeded => 422u16,
                LedgerError::StorageError => 500u16,
            },
    {
        match *self {
            LedgerError::NotFound => 404,
            LedgerError::UnprocessableInput => 422,
            LedgerError::LimitExceeded => 422,
            LedgerError::StorageError => 500,
        }
    }
}

/// The one-letter code for a debit.
pub open spec fn is_debit_code(s: Seq<char>) -> bool {
    s.len() == 1 && s[0] == 'd'
}

/// The one-letter code for a credit.
pub open spec fn is_credit_code(s: Seq<char>) -> bool {
    s.len() == 1 && s[0] == 'c'
}

/// A kind code is exactly "d" or "c".
pub open spec fn valid_kind_code(s: Seq<char>) -> bool {
    is_debit_code(s) || is_credit_code(s)
}

/// The kind a valid code denotes.
pub open spec fn kind_of_code(s: Seq<char>) -> TransactionType {
    if is_debit_code(s) {
        TransactionType::Debit
    } else {
        TransactionType::Credit
    }
}

/// The code a kind is written as: "d" for a debit, "c" for a credit.
pub open spec fn code_of_kind(kind: TransactionType) -> Seq<char> {
    match kind {
        TransactionType::Debit => seq!['d'],
        TransactionType::Credit => seq!['c'],
    }
}

/// The one-letter code of a kind, as a string.
pub fn kind_code(kind: TransactionType) -> (r: String)
    ensures
        r@ == code_of_kind(kind),
{
    match kind {
        TransactionType::Debit => {
            let s = String::from_str("d");
            proof {
                reveal_strlit("d");
                assert(s@ =~= seq!['d']);
            }
            s
        },
        TransactionType::Credit => {
            let s = String::from_str("c");
            proof {
                reveal_strlit("c");
                assert(s@ =~= seq!['c']);
            }
            s
        },
    }
}

/// The characters of an optional description; empty when it is absent.
pub open spec fn description_chars(d: &Option<String>) -> Seq<char> {
    match d {
        Some(s) => s@,
        None => Seq::empty(),
    }
}

/// A description is present and 1 to 10 characters long (character count,
/// not byte count).
pub open spec fn description_ok(d: &Option<String>) -> bool {
    match d {
        Some(s) => 1 <= s@.len() <= 10,
        None => false,
    }
}

/// An amount is a positive integer.
pub open spec fn amount_ok(valor: int) -> bool {
    valor >= 1
}

/// A request has a valid shape: kind code, description and amount all pass.
pub open spec fn shape_ok(req: &ClientTransactionRequest) -> bool {
    valid_kind_code(req.tipo@) && description_ok(&req.descricao) && amount_ok(req.valor as int)
}

/// The signed effect of a transaction on a balance: minus the amount for a
/// debit, plus the amount for a credit.
pub open spec fn signed_delta(kind: TransactionType, amount: int) -> int {
    match kind {
        TransactionType::Debit => -amount,
        TransactionType::Credit => amount,
    }
}

} // verus!
