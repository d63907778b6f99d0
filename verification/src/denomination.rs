use vstd::prelude::*;

verus! {

/// The number of denominations the dispenser knows.
pub const DENOMINATION_COUNT: usize = 4;

/// A face value of a bill. The variants are listed in the canonical order,
/// largest value first.
#[derive(Copy, Clone, Debug, PartialEq, Eq, Hash, Structural)]
pub enum Denomination {
    Fifty,
    Twenty,
    Ten,
    Five,
}

impl Denomination {
    /// The face value of one bill, in currency units.
    pub open spec fn face_value(self) -> int {
        match self {
            Denomination::Fifty => 50,
            Denomination::Twenty => 20,
            Denomination::Ten => 10,
            Denomination::Five => 5,
        }
    }

    /// The place of this denomination in the canonical order, from 0.
    pub open spec fn position(self) -> int {
        match self {
            Denomination::Fifty => 0,
            Denomination::Twenty => 1,
            Denomination::Ten => 2,
            Denomination::Five => 3,
        }
    }

    /// The denomination at a place of the canonical order. Every place past
    /// the last one gives the smallest denomination.
    pub open spec fn at_spec(index: int) -> Denomination {
        if index == 0 {
            Denomination::Fifty
        } else if index == 1 {
            Denomination::Twenty
        } else if index == 2 {
            Denomination::Ten
        } else {
            Denomination::Five
        }
    }

    /// The face value of one bill.
    pub fn value(&self) -> (v: i32)
        ensures
            v == self.face_value(),
            v > 0,
    {
        match self {
            Denomination::Fifty => 50,
            Denomination::Twenty => 20,
            Denomination::Ten => 10,
            Denomination::Five => 5,
        }
    }

    /// The denomination at `index` in the canonical order.
    pub fn at(index: usize) -> (d: Denomination)
        ensures
            d == Self::at_spec(index as int),
            index < DENOMINATION_COUNT ==> d.position() == index,
    {
        match index {
            0 => Denomination::Fifty,
            1 => Denomination::Twenty,
            2 => Denomination::Ten,
            _ => Denomination::Five,
        }
    }

    /// The total value of `quantity` bills of this denomination. A negative
    /// quantity gives a negative total.
    pub fn times(&self, quantity: i32) -> (total: i32)
        requires
            i32::MIN <= self.face_value() * quantity <= i32::MAX,
        ensures
            total == self.face_value() * quantity,
    {
        self.value() * quantity
    }

    /// The largest number of bills of this denomination whose total does not
    /// exceed `remainder`: the quotient rounded down, so that a negative
    /// remainder gives a negative number.
    pub fn bills_for(&self, remainder: i32) -> (bills: i32)
        ensures
            bills == remainder as int / self.face_value(),
            bills * self.face_value() <= remainder < (bills + 1) * self.face_value(),
    {
        let v: i32 = self.value();
        if remainder >= 0 {
            remainder / v
        } else {
            -((-(remainder + 1)) / v) - 1
        }
    }
}

/// The canonical order is the order of strictly falling face values, and
/// `position` is the inverse of `at_spec` on it.
pub proof fn lemma_canonical_order(i: int, j: int)
    requires
        0 <= i < j < DENOMINATION_COUNT,
    ensures
        Denomination::at_spec(i).face_value() > Denomination::at_spec(j).face_value(),
        Denomination::at_spec(i).position() == i,
        Denomination::at_spec(j).position() == j,
{
}

/// Every denomination stands at its own place of the canonical order.
pub proof fn lemma_position_in_order(d: Denomination)
    ensures
        0 <= d.position() < DENOMINATION_COUNT,
        Denomination::at_spec(d.position()) == d,
        d.face_value() > 0,
{
}

} // verus!
