//! Updates of any stream.

use crate::types::account::AccountUpdate;
use crate::types::frame::ServerModel;
use crate::types::slot::SlotUpdate;
use crate::types::transaction::TransactionUpdate;
use vstd::prelude::*;

verus! {

/// An update of one of the three streams.
#[derive(Debug)]
pub enum Update {
    Account(AccountUpdate),
    Transaction(TransactionUpdate),
    Slot(SlotUpdate),
}

impl View for Update {
    type V = ServerModel;

    open spec fn view(&self) -> ServerModel {
        match *self {
            Update::Account(update) => ServerModel::AccountUpdate(update@),
            Update::Transaction(update) => ServerModel::TransactionUpdate(update@),
            Update::Slot(update) => ServerModel::SlotUpdate(update),
        }
    }
}

} // verus!
