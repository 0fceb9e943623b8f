//! Transfer requests and their canonical text form.
//!
//! The canonical form is the exact byte sequence that is hashed and signed:
//! the fields `sender`, `recipient`, `amount` in that order, rendered as a
//! compact JSON object. Amounts are integer minor units, so balance
//! arithmetic is exact.

use vstd::prelude::*;
use vstd::string::StringExecFns;

use crate::text::{dec_nat, u64_dec};

verus! {

/// The mathematical value of a transaction: both address strings as
/// character sequences, and the amount in minor units.
#[verifier::ext_equal]
pub ghost struct TransactionModel {
    pub sender: Seq<char>,
    pub recipient: Seq<char>,
    pub amount: u64,
}

/// A transfer of `amount` minor units from `sender` to `recipient`.
/// Immutable once constructed.
#[derive(Clone, Debug)]
pub struct Transaction {
    pub sender: String,
    pub recipient: String,
    pub amount: u64,
}

impl View for Transaction {
    type V = TransactionModel;

    open spec fn view(&self) -> TransactionModel {
        TransactionModel { sender: self.sender@, recipient: self.recipient@, amount: self.amount }
    }
}

/// The canonical text form of a transaction:
/// `{"sender":"S","recipient":"R","amount":A}` with A in decimal.
pub open spec fn transaction_canon(t: TransactionModel) -> Seq<char> {
    "{\"sender\":\""@ + t.sender + "\",\"recipient\":\""@ + t.recipient + "\",\"amount\":"@
        + dec_nat(t.amount as int) + "}"@
}

impl Transaction {
    pub fn new(sender: String, recipient: String, amount: u64) -> (r: Transaction)
        ensures
            r@ == (TransactionModel { sender: sender@, recipient: recipient@, amount }),
    {
        Transaction { sender, recipient, amount }
    }

    /// The exact byte sequence that is hashed and signed for this
    /// transaction. A pure function of the field values.
    pub fn canonical_form(&self) -> (r: String)
        ensures
            r@ == transaction_canon(self@),
    {
        let mut s = String::from_str("{\"sender\":\"");
        s.append(self.sender.as_str());
        s.append("\",\"recipient\":\"");
        s.append(self.recipient.as_str());
        s.append("\",\"amount\":");
        let a = u64_dec(self.amount);
        s.append(a.as_str());
        s.append("}");
        proof {
            assert(s@ =~= transaction_canon(self@));
        }
        s
    }
}

} // verus!
