//! Request validation: the shape checks performed before any storage work.
//!
//! Failures are detected in a fixed order — unknown customer first, then
//! kind, description and amount — and returned without touching the store.

use vstd::prelude::*;
use crate::structs::CUSTOMER_COUNT;
use crate::structs::ClientTransactionRequest;
use crate::structs::LedgerError;
use crate::structs::TransactionType;
use crate::structs::amount_ok;
use crate::structs::description_chars;
use crate::structs::description_ok;
use crate::structs::is_debit_code;
use crate::structs::kind_of_code;
use crate::structs::shape_ok;
use crate::structs::valid_kind_code;

verus! {

/// A customer id references an existing customer exactly when it lies in
/// `1..=CUSTOMER_COUNT`.
pub open spec fn valid_customer_id(id: int) -> bool {
    1 <= id && id <= CUSTOMER_COUNT
}

/// A request that passed validation: the decoded kind, the positive amount,
/// and the present, length-checked description.
pub struct ValidatedTransaction {
    pub kind: TransactionType,
    pub amount: i32,
    pub description: String,
}

impl ValidatedTransaction {
    /// What validation guarantees of its output.
    pub open spec fn wf(&self) -> bool {
        self.amount >= 1 && 1 <= self.description@.len() <= 10
    }
}

/// Whether the id lies in the fixed customer range.
pub fn customer_id_in_range(customer_id: i32) -> (r: bool)
    ensures
        r == valid_customer_id(customer_id as int),
{
    1 <= customer_id && customer_id as usize <= CUSTOMER_COUNT
}

/// Decode a kind code: `Some(Debit)` for "d", `Some(Credit)` for "c",
/// `None` for anything else.
pub fn parse_kind(tipo: &str) -> (r: Option<TransactionType>)
    ensures
        r is Some <==> valid_kind_code(tipo@),
        r is Some ==> r->0 == kind_of_code(tipo@),
{
    if tipo.unicode_len() != 1 {
        return None;
    }
    let c = tipo.get_char(0);
    if c == 'd' {
        Some(TransactionType::Debit)
    } else if c == 'c' {
        Some(TransactionType::Credit)
    } else {
        None
    }
}

/// Validate a request against a customer id.
///
/// `NotFound` exactly when the id is out of range; `UnprocessableInput`
/// exactly when the id is fine but kind, description or amount has a bad
/// shape (first failure wins, though all three map to the same error);
/// otherwise the decoded transaction, carrying the request's amount, kind
/// and description unchanged.
pub fn validate_request(customer_id: i32, req: &ClientTransactionRequest) -> (r: Result<
    ValidatedTransaction,
    LedgerError,
>)
    ensures
        match r {
            Ok(v) => valid_customer_id(customer_id as int) && shape_ok(req) && v.wf()
                && v.amount == req.valor && v.kind == kind_of_code(req.tipo@)
                && v.description@ == description_chars(&req.descricao),
            Err(e) => match e {
                LedgerError::NotFound => !valid_customer_id(customer_id as int),
                LedgerError::UnprocessableInput => valid_customer_id(customer_id as int)
                    && !shape_ok(req),
                _ => false,
            },
        },
{
    if !customer_id_in_range(customer_id) {
        return Err(LedgerError::NotFound);
    }
    let kind = match parse_kind(req.tipo.as_str()) {
        Some(k) => k,
        None => {
            return Err(LedgerError::UnprocessableInput);
        },
    };
    let description = match &req.descricao {
        Some(d) => d,
        None => {
            return Err(LedgerError::UnprocessableInput);
        },
    };
    let dlen = description.as_str().unicode_len();
    if dlen < 1 || dlen > 10 {
        return Err(LedgerError::UnprocessableInput);
    }
    if req.valor < 1 {
        return Err(LedgerError::UnprocessableInput);
    }
    Ok(ValidatedTransaction { kind, amount: req.valor, description: description.clone() })
}

} // verus!
