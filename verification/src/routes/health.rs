//! The probe that tells whether the server can work.

use vstd::prelude::*;

use crate::storage::sql::{sql, Statement};

verus! {

/// The statement that probes the database.
pub fn probe() -> (r: Statement)
    ensures
        r@ == sql("SELECT 1"@, Seq::empty()),
{
    Statement::new("SELECT 1".to_owned())
}

/// The status of the server: 200 where the database answered, else 503.
pub fn health(reachable: bool) -> (r: u16)
    ensures
        r == (if reachable {
            200u16
        } else {
            503u16
        }),
{
    if reachable {
        200
    } else {
        503
    }
}

} // verus!
