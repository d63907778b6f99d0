use vstd::prelude::*;

use crate::bundle::{no_bills, no_negative_count, total_value, Bundle};
use crate::decimal::{decimal_string, decimal_text};
use crate::denomination::{Denomination, DENOMINATION_COUNT};

verus! {

/// How many bills of `denomination` one step of the selection takes, with
/// `available` of them in stock and `remainder` still to be paid: as many as
/// fit into the remainder, but no more than there are, and none where there
/// is nothing in stock or nothing fits.
pub open spec fn bills_to_take(available: int, remainder: int, denomination: Denomination) -> int {
    let fitting = remainder / denomination.face_value();
    if available <= 0 || fitting <= 0 {
        0
    } else if available <= fitting {
        available
    } else {
        fitting
    }
}

/// What is still to be paid of `amount` when the first `n` denominations of
/// the canonical order, the largest first, have given their bills.
pub open spec fn remainder_after(inventory: Map<Denomination, int>, amount: int, n: int) -> int
    decreases n,
{
    if n <= 0 {
        amount
    } else {
        let denomination = Denomination::at_spec(n - 1);
        let remainder = remainder_after(inventory, amount, n - 1);
        remainder - bills_to_take(inventory[denomination], remainder, denomination)
            * denomination.face_value()
    }
}

/// How many bills of `denomination` the selection for `amount` takes out of
/// `inventory`.
pub open spec fn taken(
    inventory: Map<Denomination, int>,
    amount: int,
    denomination: Denomination,
) -> int {
    bills_to_take(
        inventory[denomination],
        remainder_after(inventory, amount, denomination.position()),
        denomination,
    )
}

/// The bills that the selection for `amount` takes out of `inventory`.
pub open spec fn selected_bills(inventory: Map<Denomination, int>, amount: int) -> Map<
    Denomination,
    int,
> {
    Map::total(|d: Denomination| taken(inventory, amount, d))
}

/// What the selection for `amount` leaves in `inventory`.
pub open spec fn left_in_stock(inventory: Map<Denomination, int>, amount: int) -> Map<
    Denomination,
    int,
> {
    Map::total(|d: Denomination| inventory[d] - taken(inventory, amount, d))
}

/// The inventory when the bills that the selection for `amount` took are
/// loaded back into what it left.
pub open spec fn restocked(inventory: Map<Denomination, int>, amount: int) -> Map<
    Denomination,
    int,
> {
    Map::total(
        |d: Denomination|
            left_in_stock(inventory, amount)[d] + selected_bills(inventory, amount)[d],
    )
}

/// The part of `amount` that the selection cannot pay out of `inventory`.
pub open spec fn shortfall(inventory: Map<Denomination, int>, amount: int) -> int {
    remainder_after(inventory, amount, DENOMINATION_COUNT as int)
}

/// The bills taken when the first `n` denominations have given theirs.
spec fn selected_of_first(inventory: Map<Denomination, int>, amount: int, n: int) -> Map<
    Denomination,
    int,
> {
    Map::total(
        |d: Denomination|
            if d.position() < n {
                taken(inventory, amount, d)
            } else {
                0
            },
    )
}

/// The stock when the first `n` denominations have given their bills.
spec fn left_after_first(inventory: Map<Denomination, int>, amount: int, n: int) -> Map<
    Denomination,
    int,
> {
    Map::total(
        |d: Denomination|
            if d.position() < n {
                inventory[d] - taken(inventory, amount, d)
            } else {
                inventory[d]
            },
    )
}

/// Why a withdrawal was refused.
#[derive(Debug, PartialEq)]
pub enum AtmError {
    /// The stock cannot pay the amount exactly. Holds, in decimal, the part
    /// of the amount that was left unpaid.
    NeedsService(String),
}

/// A cash dispenser: the owner of the stock of bills.
pub struct Atm {
    pub bundle: Bundle,
}

impl Atm {
    /// A dispenser with an empty stock.
    pub fn new() -> (atm: Atm)
        ensures
            atm.bundle@ == no_bills(),
    {
        Atm { bundle: Bundle::new() }
    }

    /// Pays `amount` out of the stock, taking of each denomination, the
    /// largest first, as many bills as fit into what is still to be paid.
    /// Where that pays the amount exactly, the bills leave the stock and are
    /// returned; where it does not, the stock stays as it was and the error
    /// tells what was left unpaid.
    ///
    /// An amount of zero is paid with a bundle without bills. A negative
    /// amount is refused, and is itself what was left unpaid.
    pub fn withdraw(&mut self, amount: i32) -> (result: Result<Bundle, AtmError>)
        ensures
            match result {
                Ok(withdrawal) => {
                    &&& shortfall(old(self).bundle@, amount as int) == 0
                    &&& withdrawal@ == selected_bills(old(self).bundle@, amount as int)
                    &&& final(self).bundle@ == left_in_stock(old(self).bundle@, amount as int)
                    &&& total_value(withdrawal@) == amount
                    &&& no_negative_count(withdrawal@)
                },
                Err(AtmError::NeedsService(unpaid)) => {
                    &&& shortfall(old(self).bundle@, amount as int) != 0
                    &&& final(self).bundle == old(self).bundle
                    &&& final(self).bundle@ == old(self).bundle@
                    &&& unpaid@ == decimal_text(shortfall(old(self).bundle@, amount as int))
                },
            },
            no_negative_count(old(self).bundle@) ==> no_negative_count(final(self).bundle@),
    {
        let mut withdrawal = Bundle::new();
        let mut remainder: i32 = amount;
        let bundle_backup = self.bundle.clone();
        let ghost inventory = self.bundle@;

        let mut index: usize = 0;
        while index < DENOMINATION_COUNT
            invariant
                index <= DENOMINATION_COUNT,
                inventory == old(self).bundle@,
                remainder == remainder_after(inventory, amount as int, index as int),
                withdrawal@ == selected_of_first(inventory, amount as int, index as int),
                self.bundle@ == left_after_first(inventory, amount as int, index as int),
            decreases DENOMINATION_COUNT - index,
        {
            let denomination = Denomination::at(index);
            let quantity: i32 = self.bundle.get(denomination);
            let ghost take = bills_to_take(quantity as int, remainder as int, denomination);
            proof {
                lemma_bills_to_take_bounds(quantity as int, remainder as int, denomination);
                assert(take == taken(inventory, amount as int, denomination));
                assert(remainder_after(inventory, amount as int, index + 1) == remainder - take
                    * denomination.face_value());
                assert(denomination.face_value() * take == take * denomination.face_value())
                    by (nonlinear_arith);
            }
            if quantity > 0 {
                let fitting: i32 = denomination.bills_for(remainder);
                let bills_for_withdrawal: i32 = if quantity <= fitting {
                    quantity
                } else {
                    fitting
                };
                if bills_for_withdrawal > 0 {
                    assert(bills_for_withdrawal == take);
                    withdrawal.load_bills(bills_for_withdrawal, denomination);
                    remainder -= denomination.times(bills_for_withdrawal);
                    self.bundle.unload_bills(bills_for_withdrawal, denomination);
                }
            }
            assert(withdrawal@ =~= selected_of_first(inventory, amount as int, index + 1));
            assert(self.bundle@ =~= left_after_first(inventory, amount as int, index + 1));
            index += 1;
        }

        proof {
            lemma_selection_pays_amount(inventory, amount as int);
            lemma_selection_within_stock(inventory, amount as int);
        }
        if remainder != 0 {
            self.bundle = bundle_backup;
            Err(AtmError::NeedsService(decimal_string(remainder)))
        } else {
            assert(withdrawal@ =~= selected_bills(inventory, amount as int)) by {
                assert forall|d: Denomination| d.position() < DENOMINATION_COUNT by {}
            }
            assert(self.bundle@ =~= left_in_stock(inventory, amount as int)) by {
                assert forall|d: Denomination| d.position() < DENOMINATION_COUNT by {}
            }
            Ok(withdrawal)
        }
    }
}

/// One step takes no negative number of bills, no more than are in stock,
/// and no more than the remainder can pay for; of a remainder that is not
/// positive it takes none.
pub proof fn lemma_bills_to_take_bounds(available: int, remainder: int, denomination: Denomination)
    ensures
        0 <= bills_to_take(available, remainder, denomination),
        available >= 0 ==> bills_to_take(available, remainder, denomination) <= available,
        remainder >= 0 ==> 0 <= bills_to_take(available, remainder, denomination)
            * denomination.face_value() <= remainder,
        remainder <= 0 ==> bills_to_take(available, remainder, denomination) == 0,
{
    match denomination {
        Denomination::Fifty => {},
        Denomination::Twenty => {},
        Denomination::Ten => {},
        Denomination::Five => {},
    }
}

/// The bills that a selection takes and the part that it leaves unpaid make
/// up the amount: where nothing is left unpaid, the bills are worth the
/// amount exactly.
pub proof fn lemma_selection_pays_amount(inventory: Map<Denomination, int>, amount: int)
    ensures
        total_value(selected_bills(inventory, amount)) + shortfall(inventory, amount) == amount,
        shortfall(inventory, amount) == 0 ==> total_value(selected_bills(inventory, amount))
            == amount,
{
    reveal_with_fuel(remainder_after, 5);
}

/// A selection takes no negative number of bills, and of no denomination
/// more than the stock holds: a stock without negative counts stays one, and
/// what was taken is one.
pub proof fn lemma_selection_within_stock(inventory: Map<Denomination, int>, amount: int)
    ensures
        forall|d: Denomination| 0 <= #[trigger] taken(inventory, amount, d),
        forall|d: Denomination|
            inventory[d] >= 0 ==> #[trigger] taken(inventory, amount, d) <= inventory[d],
        no_negative_count(selected_bills(inventory, amount)),
        no_negative_count(inventory) ==> no_negative_count(left_in_stock(inventory, amount)),
{
}

/// The selection depends on nothing but the count of each denomination and
/// the amount: two inventories with the same counts give the same bills and
/// leave the same part unpaid.
pub proof fn lemma_selection_deterministic(
    first: Map<Denomination, int>,
    second: Map<Denomination, int>,
    amount: int,
)
    requires
        forall|d: Denomination| first[d] == second[d],
    ensures
        selected_bills(first, amount) == selected_bills(second, amount),
        shortfall(first, amount) == shortfall(second, amount),
{
    reveal_with_fuel(remainder_after, 5);
    assert(first[Denomination::Fifty] == second[Denomination::Fifty]);
    assert(first[Denomination::Twenty] == second[Denomination::Twenty]);
    assert(first[Denomination::Ten] == second[Denomination::Ten]);
    assert(first[Denomination::Five] == second[Denomination::Five]);
    assert(selected_bills(first, amount) =~= selected_bills(second, amount));
}

/// A withdrawal can be repeated: when the bills that were taken are loaded
/// back into what was left, the inventory is what it was, and the selection
/// for the same amount takes the same bills again.
pub proof fn lemma_withdraw_repeatable(inventory: Bundle, amount: int)
    ensures
        restocked(inventory@, amount) == inventory@,
        selected_bills(restocked(inventory@, amount), amount) == selected_bills(
            inventory@,
            amount,
        ),
        shortfall(restocked(inventory@, amount), amount) == shortfall(inventory@, amount),
{
    assert(restocked(inventory@, amount) =~= inventory@);
}

/// An amount of zero is paid, with no bills, out of any inventory.
pub proof fn lemma_zero_amount(inventory: Map<Denomination, int>)
    ensures
        shortfall(inventory, 0) == 0,
        selected_bills(inventory, 0) == no_bills(),
{
    reveal_with_fuel(remainder_after, 5);
    assert forall|d: Denomination| bills_to_take(inventory[d], 0, d) == 0 by {
        lemma_bills_to_take_bounds(inventory[d], 0, d);
    }
    assert(selected_bills(inventory, 0) =~= no_bills());
}

/// A negative amount is never paid: no bills are taken, and the whole amount
/// is left unpaid.
pub proof fn lemma_negative_amount(inventory: Map<Denomination, int>, amount: int)
    requires
        amount < 0,
    ensures
        shortfall(inventory, amount) == amount,
        selected_bills(inventory, amount) == no_bills(),
{
    reveal_with_fuel(remainder_after, 5);
    assert forall|d: Denomination| bills_to_take(inventory[d], amount, d) == 0 by {
        lemma_bills_to_take_bounds(inventory[d], amount, d);
    }
    assert(selected_bills(inventory, amount) =~= no_bills());
}

/// An empty inventory pays no amount but zero: the whole amount is left
/// unpaid.
pub proof fn lemma_empty_inventory(amount: int)
    ensures
        shortfall(no_bills(), amount) == amount,
{
    reveal_with_fuel(remainder_after, 5);
}

} // verus!
