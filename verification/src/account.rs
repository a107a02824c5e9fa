//! Client accounts and the form in which they are listed.
use crate::decimal::{
    amount_of, exact_sum_result, fits_value, checked_add, decimal_checked_add, decimal_round_dp, decimal_text, decimal_to_string, le,
    round_dp, strip_trailing_zeros, sum_is_exact, Amount,
};
use vstd::prelude::*;

verus! {

/// The funds of one client.
#[derive(Debug, Clone, Copy)]
pub struct Account {
    pub client_id: u16,
    pub available: Amount,
    pub held: Amount,
    pub locked: bool,
}

impl Account {
    pub open spec fn wf(self) -> bool {
        &&& self.available.wf()
        &&& self.held.wf()
    }

    pub open spec fn spec_new(client_id: u16) -> Account {
        Account {
            client_id,
            available: Amount::spec_zero(),
            held: Amount::spec_zero(),
            locked: false,
        }
    }

    /// An unlocked account with nothing available and nothing held.
    pub fn new(client_id: u16) -> (r: Account)
        ensures
            r == Account::spec_new(client_id),
            r.wf(),
    {
        Account { client_id, available: Amount::zero(), held: Amount::zero(), locked: false }
    }

    /// Whether available plus held can be computed without overflow.
    pub open spec fn total_fits(self) -> bool {
        decimal_checked_add(self.available@, self.held@) is Some
    }

    /// Available plus held.
    pub fn total(&self) -> (r: Amount)
        requires
            self.wf(),
            self.total_fits(),
        ensures
            r.wf(),
            decimal_checked_add(self.available@, self.held@) == Some(r@),
            self.available.mantissa == 0 ==> r == self.held,
            self.available.mantissa != 0 && self.held.mantissa == 0 ==> r == self.available,
            sum_is_exact(self.available, self.held) ==> r == amount_of(
                exact_sum_result(self.available, self.held),
            ),
            sum_is_exact(self.available, self.held) ==> r.value() == self.available.value()
                + self.held.value(),
    {
        let r = checked_add(self.available, self.held);
        r.unwrap()
    }

    /// Available plus held, or `None` where that sum overflows.
    pub fn checked_total(&self) -> (r: Option<Amount>)
        requires
            self.wf(),
        ensures
            r is Some <==> self.total_fits(),
            r is Some ==> r.unwrap().wf() && decimal_checked_add(self.available@, self.held@)
                == Some(r.unwrap()@),
            sum_is_exact(self.available, self.held) ==> r is Some && r.unwrap().value()
                == self.available.value() + self.held.value(),
            sum_is_exact(self.available, self.held) ==> r == Some(
                amount_of(exact_sum_result(self.available, self.held)),
            ),
            fits_value(self.available.value() + self.held.value()) ==> r is Some,
    {
        match checked_add(self.available, self.held) {
            Some(_) => Some(self.total()),
            None => None,
        }
    }

    /// Whether at least `amount` is available.
    pub fn has_sufficient_funds(&self, amount: Amount) -> (r: bool)
        requires
            self.wf(),
            amount.wf(),
        ensures
            r == (self.available.value() >= amount.value()),
    {
        le(amount, self.available)
    }
}

/// The text written for an amount in account listings: rounded to four digits
/// after the point, trailing zeros removed.
pub open spec fn listing_text(a: (int, nat)) -> Seq<char> {
    let r = decimal_round_dp(a, 4);
    decimal_text(strip_trailing_zeros(r.0, r.1))
}

/// Formats an amount for account listings.
pub fn format_decimal(value: Amount) -> (r: String)
    requires
        value.wf(),
    ensures
        r@ == listing_text(value@),
{
    let rounded = round_dp(value, 4);
    decimal_to_string(rounded.normalize())
}

/// One row of the account listing.
pub struct AccountOutput {
    pub client: u16,
    pub available: String,
    pub held: String,
    pub total: String,
    pub locked: bool,
}

/// [`AccountOutput`] with each text taken by its characters.
pub struct AccountOutputView {
    pub client: u16,
    pub available: Seq<char>,
    pub held: Seq<char>,
    pub total: Seq<char>,
    pub locked: bool,
}

impl View for AccountOutput {
    type V = AccountOutputView;

    open spec fn view(&self) -> AccountOutputView {
        AccountOutputView {
            client: self.client,
            available: self.available@,
            held: self.held@,
            total: self.total@,
            locked: self.locked,
        }
    }
}

/// The listing row of an account whose total fits.
pub open spec fn account_row(account: Account) -> AccountOutputView {
    AccountOutputView {
        client: account.client_id,
        available: listing_text(account.available@),
        held: listing_text(account.held@),
        total: listing_text(decimal_checked_add(account.available@, account.held@).unwrap()),
        locked: account.locked,
    }
}

impl AccountOutput {
    /// The listing row of an account.
    pub fn from_account(account: &Account) -> (r: AccountOutput)
        requires
            account.wf(),
            account.total_fits(),
        ensures
            r@ == account_row(*account),
            r.client == account.client_id,
            r.locked == account.locked,
            r.available@ == listing_text(account.available@),
            r.held@ == listing_text(account.held@),
            sum_is_exact(account.available, account.held) ==> r.total@ == listing_text(
                amount_of(exact_sum_result(account.available, account.held))@,
            ),
    {
        let total = account.total();
        AccountOutput {
            client: account.client_id,
            available: format_decimal(account.available),
            held: format_decimal(account.held),
            total: format_decimal(total),
            locked: account.locked,
        }
    }
}

} // verus!
