use vstd::prelude::*;

use crate::denomination::{Denomination, DENOMINATION_COUNT};

verus! {

/// The counts of a bundle without bills: zero of every denomination.
pub open spec fn no_bills() -> Map<Denomination, int> {
    Map::total(|d: Denomination| 0int)
}

/// The monetary value of the bills that `counts` holds: over all
/// denominations, the count times the face value.
pub open spec fn total_value(counts: Map<Denomination, int>) -> int {
    counts[Denomination::Fifty] * Denomination::Fifty.face_value()
        + counts[Denomination::Twenty] * Denomination::Twenty.face_value()
        + counts[Denomination::Ten] * Denomination::Ten.face_value()
        + counts[Denomination::Five] * Denomination::Five.face_value()
}

/// The counts after `quantity` bills of `denomination` were added; a negative
/// quantity takes bills away.
pub open spec fn deposited(
    counts: Map<Denomination, int>,
    quantity: int,
    denomination: Denomination,
) -> Map<Denomination, int> {
    counts.insert(denomination, counts[denomination] + quantity)
}

/// No denomination has a negative count.
pub open spec fn no_negative_count(counts: Map<Denomination, int>) -> bool {
    forall|d: Denomination| #[trigger] counts[d] >= 0
}

/// A counted multiset of bills: for every denomination, how many bills of it
/// there are.
#[derive(Debug, PartialEq, Eq, Structural)]
pub struct Bundle {
    fifty: i32,
    twenty: i32,
    ten: i32,
    five: i32,
}

impl View for Bundle {
    type V = Map<Denomination, int>;

    /// The count of every denomination; no denomination is absent.
    open spec fn view(&self) -> Map<Denomination, int> {
        Map::total(|d: Denomination| self.count(d))
    }
}

impl Clone for Bundle {
    fn clone(&self) -> (copy: Self)
        ensures
            copy == *self,
    {
        Bundle { fifty: self.fifty, twenty: self.twenty, ten: self.ten, five: self.five }
    }
}

impl Bundle {
    /// The number of bills of `denomination` in the bundle.
    pub closed spec fn count(&self, denomination: Denomination) -> int {
        match denomination {
            Denomination::Fifty => self.fifty as int,
            Denomination::Twenty => self.twenty as int,
            Denomination::Ten => self.ten as int,
            Denomination::Five => self.five as int,
        }
    }

    /// A bundle without bills.
    pub fn new() -> (bundle: Bundle)
        ensures
            bundle@ == no_bills(),
    {
        let bundle = Bundle { fifty: 0, twenty: 0, ten: 0, five: 0 };
        assert(bundle@ =~= no_bills());
        bundle
    }

    /// The number of bills of `denomination`.
    pub fn get(&self, denomination: Denomination) -> (quantity: i32)
        ensures
            quantity == self@[denomination],
    {
        match denomination {
            Denomination::Fifty => self.fifty,
            Denomination::Twenty => self.twenty,
            Denomination::Ten => self.ten,
            Denomination::Five => self.five,
        }
    }

    fn set(&mut self, quantity: i32, denomination: Denomination)
        ensures
            final(self)@ == old(self)@.insert(denomination, quantity as int),
    {
        match denomination {
            Denomination::Fifty => {
                self.fifty = quantity;
            },
            Denomination::Twenty => {
                self.twenty = quantity;
            },
            Denomination::Ten => {
                self.ten = quantity;
            },
            Denomination::Five => {
                self.five = quantity;
            },
        }
        assert(self@ =~= old(self)@.insert(denomination, quantity as int));
    }

    /// Adds `quantity` bills of `denomination`; a negative quantity takes
    /// bills away. The count is not kept from going negative.
    pub fn load_bills(&mut self, quantity: i32, denomination: Denomination)
        requires
            i32::MIN <= old(self)@[denomination] + quantity <= i32::MAX,
        ensures
            final(self)@ == deposited(old(self)@, quantity as int, denomination),
            no_negative_count(old(self)@) && old(self)@[denomination] + quantity >= 0
                ==> no_negative_count(final(self)@),
    {
        let actual: i32 = self.get(denomination);
        self.set(quantity + actual, denomination);
    }

    /// Takes `quantity` bills of `denomination` away: the same as loading
    /// the negated quantity.
    pub fn unload_bills(&mut self, quantity: i32, denomination: Denomination)
        requires
            i32::MIN <= old(self)@[denomination] - quantity <= i32::MAX,
        ensures
            final(self)@ == deposited(old(self)@, -(quantity as int), denomination),
            no_negative_count(old(self)@) && old(self)@[denomination] - quantity >= 0
                ==> no_negative_count(final(self)@),
    {
        let actual: i32 = self.get(denomination);
        self.set(actual - quantity, denomination);
    }

    /// Adds `quantities[i]` bills of the denomination at place `i` of the
    /// canonical order, for every place.
    pub fn load_all_bills(&mut self, quantities: [i32; 4])
        requires
            forall|i: int|
                0 <= i < DENOMINATION_COUNT ==> i32::MIN <= old(self)@[Denomination::at_spec(i)]
                    + #[trigger] quantities@[i] <= i32::MAX,
        ensures
            forall|i: int|
                0 <= i < DENOMINATION_COUNT ==> final(self)@[Denomination::at_spec(i)] == old(
                    self,
                )@[Denomination::at_spec(i)] + #[trigger] quantities@[i],
    {
        let mut index: usize = 0;
        while index < DENOMINATION_COUNT
            invariant
                index <= DENOMINATION_COUNT,
                forall|i: int|
                    0 <= i < index ==> self@[Denomination::at_spec(i)] == old(
                        self,
                    )@[Denomination::at_spec(i)] + #[trigger] quantities@[i],
                forall|i: int|
                    index <= i < DENOMINATION_COUNT ==> self@[Denomination::at_spec(i)] == old(
                        self,
                    )@[#[trigger] Denomination::at_spec(i)],
                forall|i: int|
                    0 <= i < DENOMINATION_COUNT ==> i32::MIN <= old(self)@[Denomination::at_spec(
                        i,
                    )] + #[trigger] quantities@[i] <= i32::MAX,
            decreases DENOMINATION_COUNT - index,
        {
            let denomination = Denomination::at(index);
            self.load_bills(quantities[index], denomination);
            index += 1;
        }
    }

    /// The monetary value of the bundle: over all denominations, the count
    /// times the face value.
    pub fn get_total_amount(&self) -> (amount: i32)
        requires
            i32::MIN <= total_value(self@) <= i32::MAX,
        ensures
            amount == total_value(self@),
    {
        let mut amount: i64 = 0;
        let mut index: usize = 0;
        while index < DENOMINATION_COUNT
            invariant
                index <= DENOMINATION_COUNT,
                amount == value_of_first(self@, index as int),
                -(index as int) * 50 * 0x8000_0000 <= amount <= index as int * 50 * 0x8000_0000,
            decreases DENOMINATION_COUNT - index,
        {
            let denomination = Denomination::at(index);
            let quantity: i64 = self.get(denomination) as i64;
            let value: i64 = denomination.value() as i64;
            assert(-50 * 0x8000_0000 <= quantity * value <= 50 * 0x8000_0000) by (nonlinear_arith)
                requires
                    -0x8000_0000 <= quantity <= 0x8000_0000,
                    0 < value <= 50,
            ;
            amount = amount + quantity * value;
            index += 1;
        }
        assert(value_of_first(self@, 4) == total_value(self@)) by {
            reveal_with_fuel(value_of_first, 5);
        }
        amount as i32
    }
}

/// The value of the bills of the first `n` denominations of the canonical
/// order.
spec fn value_of_first(counts: Map<Denomination, int>, n: int) -> int
    decreases n,
{
    if n <= 0 {
        0
    } else {
        value_of_first(counts, n - 1) + counts[Denomination::at_spec(n - 1)] * Denomination::at_spec(
            n - 1,
        ).face_value()
    }
}

/// A bundle has a count for every denomination, and a new one has no
/// negative count.
pub proof fn lemma_every_denomination_counted(bundle: Bundle)
    ensures
        forall|d: Denomination| bundle@.dom().contains(d),
        forall|d: Denomination| no_bills().dom().contains(d),
        no_negative_count(no_bills()),
{
}

/// Two bundles are equal exactly when they hold the same count of every
/// denomination.
pub proof fn lemma_equal_by_counts(a: Bundle, b: Bundle)
    ensures
        a == b <==> a@ == b@,
        a == b <==> forall|d: Denomination| a@[d] == b@[d],
{
    if forall|d: Denomination| a@[d] == b@[d] {
        assert(a@[Denomination::Fifty] == b@[Denomination::Fifty]);
        assert(a@[Denomination::Twenty] == b@[Denomination::Twenty]);
        assert(a@[Denomination::Ten] == b@[Denomination::Ten]);
        assert(a@[Denomination::Five] == b@[Denomination::Five]);
    }
}

/// Loading a quantity and then unloading the same quantity of the same
/// denomination gives back the counts from before, and so does unloading
/// first and loading after.
pub proof fn lemma_load_then_unload(bundle: Bundle, quantity: int, denomination: Denomination)
    ensures
        deposited(deposited(bundle@, quantity, denomination), -quantity, denomination) == bundle@,
        deposited(deposited(bundle@, -quantity, denomination), quantity, denomination) == bundle@,
{
    assert(deposited(deposited(bundle@, quantity, denomination), -quantity, denomination)
        =~= bundle@);
    assert(deposited(deposited(bundle@, -quantity, denomination), quantity, denomination)
        =~= bundle@);
}

/// The total value goes up by the value of the bills that are loaded.
pub proof fn lemma_total_after_deposit(
    counts: Map<Denomination, int>,
    quantity: int,
    denomination: Denomination,
)
    ensures
        total_value(deposited(counts, quantity, denomination)) == total_value(counts) + quantity
            * denomination.face_value(),
{
    let after = deposited(counts, quantity, denomination);
    match denomination {
        Denomination::Fifty => {
            assert(after[Denomination::Fifty] * 50 == counts[Denomination::Fifty] * 50 + quantity
                * 50);
        },
        Denomination::Twenty => {
            assert(after[Denomination::Twenty] * 20 == counts[Denomination::Twenty] * 20
                + quantity * 20);
        },
        Denomination::Ten => {
            assert(after[Denomination::Ten] * 10 == counts[Denomination::Ten] * 10 + quantity
                * 10);
        },
        Denomination::Five => {
            assert(after[Denomination::Five] * 5 == counts[Denomination::Five] * 5 + quantity * 5);
        },
    }
}

} // verus!
