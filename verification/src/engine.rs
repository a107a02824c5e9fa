//! The payments engine: transactions in, account listing out.
use crate::account::{account_row, Account, AccountOutput, AccountOutputView};
use crate::error::{outcome_view, EngineError};
use crate::laws::{consistent, step_exact, step_fits, step_named_defined, step_named_exact};
use crate::processor::{process_step, ProcessorView, TransactionProcessor};
use crate::transaction::Transaction;
use std::collections::BTreeMap;
use vstd::prelude::*;

verus! {

/// The formats in which transactions are read and accounts written.
#[derive(Debug, Clone, Copy)]
pub enum Format {
    Csv,
}

/// Every client id, in increasing order.
pub open spec fn client_order() -> Seq<u16> {
    Seq::new(65536, |i: int| i as u16)
}

/// The clients that have an account, in increasing order.
pub open spec fn listed_clients(accounts: Map<u16, Account>) -> Seq<u16> {
    client_order().filter(|c: u16| accounts.contains_key(c))
}

/// The account listing: one row per account, by increasing client id.
pub open spec fn listing(accounts: Map<u16, Account>) -> Seq<AccountOutputView> {
    listed_clients(accounts).map_values(|c: u16| account_row(accounts[c]))
}

/// Whether available plus held of every account can be computed.
pub open spec fn totals_fit(accounts: Map<u16, Account>) -> bool {
    forall|c: u16| #[trigger] accounts.contains_key(c) ==> accounts[c].total_fits()
}

pub struct PaymentsEngine {
    processor: TransactionProcessor,
}

impl View for PaymentsEngine {
    type V = ProcessorView;

    closed spec fn view(&self) -> ProcessorView {
        self.processor@
    }
}

impl PaymentsEngine {
    /// An engine with no accounts.
    pub fn new() -> (r: PaymentsEngine)
        ensures
            r@ == ProcessorView::empty(),
            consistent(r@),
    {
        proof {
            crate::laws::lemma_empty_consistent();
        }
        PaymentsEngine { processor: TransactionProcessor::new() }
    }

    /// Applies one transaction that was read from the input.
    pub fn process_transaction(&mut self, transaction: Transaction) -> (r: Result<(), EngineError>)
        requires
            old(self)@.wf(),
            transaction.wf(),
        ensures
            final(self)@.wf(),
            final(self)@ == process_step(old(self)@, transaction).0,
            outcome_view(r) == process_step(old(self)@, transaction).1,
            step_exact(old(self)@, transaction) ==> step_named_exact(old(self)@, transaction),
            step_fits(old(self)@, transaction) ==> step_named_defined(old(self)@, transaction),
            consistent(old(self)@) && step_exact(old(self)@, transaction) ==> consistent(
                final(self)@,
            ),
    {
        self.processor.process(transaction)
    }

    /// The accounts, by client.
    pub fn accounts(&self) -> (r: &BTreeMap<u16, Account>)
        ensures
            r@ == self@.accounts,
    {
        self.processor.accounts()
    }

    /// The account listing, by increasing client id.
    pub fn account_outputs(&self) -> (r: Vec<AccountOutput>)
        requires
            self@.wf(),
            totals_fit(self@.accounts),
        ensures
            r@.map_values(|o: AccountOutput| o@) == listing(self@.accounts),
    {
        let accounts = self.processor.accounts();
        let ghost m = self@.accounts;
        let ghost pred = |c: u16| m.contains_key(c);
        let ghost view_fn = |o: AccountOutput| o@;
        let ghost row_fn = |c: u16| account_row(m[c]);
        let mut out: Vec<AccountOutput> = Vec::new();
        let mut i: u32 = 0;
        while i < 65536
            invariant
                i <= 65536,
                accounts@ == m,
                m == self@.accounts,
                self@.wf(),
                totals_fit(m),
                pred == (|c: u16| m.contains_key(c)),
                view_fn == (|o: AccountOutput| o@),
                row_fn == (|c: u16| account_row(m[c])),
                out@.map_values(view_fn) == client_order().take(i as int).filter(pred).map_values(
                    row_fn,
                ),
            decreases 65536 - i,
        {
            let c: u16 = i as u16;
            proof {
                assert(client_order().take(i + 1) == client_order().take(i as int).push(c));
                client_order().take(i as int).lemma_filter_push(c, pred);
            }
            match accounts.get(&c) {
                Some(account) => {
                    proof {
                        assert(m.contains_key(c));
                        assert(m[c].wf());
                    }
                    let row = AccountOutput::from_account(account);
                    let ghost before = out@;
                    out.push(row);
                    proof {
                        before.lemma_push_map_commute(view_fn, row);
                        client_order().take(i as int).filter(pred).lemma_push_map_commute(
                            row_fn,
                            c,
                        );
                    }
                },
                None => {},
            }
            i = i + 1;
        }
        proof {
            assert(client_order().take(65536) == client_order());
            assert(out@.map_values(view_fn) == listing(m));
        }
        out
    }

    /// The account listing, or `None` where the total of some account overflows.
    pub fn checked_account_outputs(&self) -> (r: Option<Vec<AccountOutput>>)
        requires
            self@.wf(),
        ensures
            r is Some <==> totals_fit(self@.accounts),
            r is Some ==> r.unwrap()@.map_values(|o: AccountOutput| o@) == listing(self@.accounts),
    {
        let accounts = self.processor.accounts();
        let mut i: u32 = 0;
        while i < 65536
            invariant
                i <= 65536,
                accounts@ == self@.accounts,
                self@.wf(),
                forall|c: u16| c < i && #[trigger] self@.accounts.contains_key(c)
                    ==> self@.accounts[c].total_fits(),
            decreases 65536 - i,
        {
            let c: u16 = i as u16;
            match accounts.get(&c) {
                Some(account) => {
                    proof {
                        assert(self@.accounts.contains_key(c));
                        assert(self@.accounts[c].wf());
                    }
                    if account.checked_total().is_none() {
                        return None;
                    }
                },
                None => {},
            }
            i = i + 1;
        }
        Some(self.account_outputs())
    }
}

impl Default for PaymentsEngine {
    fn default() -> (r: PaymentsEngine)
        ensures
            r@ == ProcessorView::empty(),
    {
        PaymentsEngine::new()
    }
}

} // verus!
