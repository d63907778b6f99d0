use cash_dispenser::bundle::Bundle;
use cash_dispenser::denomination::Denomination;

#[test]
fn load_bills_sets_current_number_of_bills_for_denomination() {
    let mut bundle = Bundle::new();

    assert_eq!(0, bundle.get(Denomination::Five));
    assert_eq!(0, bundle.get(Denomination::Ten));

    bundle.load_bills(3, Denomination::Five);

    assert_eq!(3, bundle.get(Denomination::Five));
    assert_eq!(0, bundle.get(Denomination::Ten));
}

#[test]
fn load_bills_updates_current_number_of_bills_if_some_are_already_present() {
    let mut bundle = Bundle::new();

    bundle.load_bills(1, Denomination::Twenty);

    assert_eq!(1, bundle.get(Denomination::Twenty));

    bundle.load_bills(3, Denomination::Twenty);

    assert_eq!(4, bundle.get(Denomination::Twenty));
}

#[test]
#[allow(clippy::identity_op)]
fn total_amount_returns_total_for_all_denominations() {
    let mut bundle = Bundle::new();

    assert_eq!(0, bundle.get_total_amount());

    bundle.load_all_bills([1, 2, 0, 10]);

    assert_eq!(10 * 5 + 2 * 20 + 1 * 50, bundle.get_total_amount());
}

#[test]
fn equals_is_based_on_contained_bills() {
    let mut bundle = Bundle::new();

    let mut other = Bundle::new();

    assert_eq!(other, bundle);

    other.load_bills(2, Denomination::Five);
    other.load_bills(1, Denomination::Twenty);

    assert_ne!(Bundle::new(), other);

    bundle.load_bills(2, Denomination::Five);
    bundle.load_bills(1, Denomination::Twenty);

    assert_eq!(bundle, other);
}

#[test]
fn load_all_bills_sets_all_denominations() {
    let mut bundle = Bundle::new();

    bundle.load_all_bills([1, 2, 3, 4]);

    assert_eq!(1, bundle.get(Denomination::Fifty));
    assert_eq!(2, bundle.get(Denomination::Twenty));
    assert_eq!(3, bundle.get(Denomination::Ten));
    assert_eq!(4, bundle.get(Denomination::Five));
}

#[test]
fn new_bundle_holds_no_bills() {
    let bundle = Bundle::new();

    assert_eq!(0, bundle.get(Denomination::Fifty));
    assert_eq!(0, bundle.get(Denomination::Twenty));
    assert_eq!(0, bundle.get(Denomination::Ten));
    assert_eq!(0, bundle.get(Denomination::Five));
    assert_eq!(0, bundle.get_total_amount());
}

#[test]
fn load_bills_leaves_the_other_denominations_alone() {
    let mut bundle = Bundle::new();
    bundle.load_all_bills([1, 2, 3, 4]);

    bundle.load_bills(7, Denomination::Ten);

    assert_eq!(1, bundle.get(Denomination::Fifty));
    assert_eq!(2, bundle.get(Denomination::Twenty));
    assert_eq!(10, bundle.get(Denomination::Ten));
    assert_eq!(4, bundle.get(Denomination::Five));
}

#[test]
fn load_bills_with_a_negative_quantity_takes_bills_away() {
    let mut bundle = Bundle::new();
    bundle.load_bills(5, Denomination::Fifty);

    bundle.load_bills(-2, Denomination::Fifty);

    assert_eq!(3, bundle.get(Denomination::Fifty));
}

#[test]
fn load_bills_does_not_keep_a_count_from_going_negative() {
    let mut bundle = Bundle::new();

    bundle.load_bills(-2, Denomination::Ten);

    assert_eq!(-2, bundle.get(Denomination::Ten));
    assert_eq!(-20, bundle.get_total_amount());
}

#[test]
fn unload_bills_takes_bills_away() {
    let mut bundle = Bundle::new();
    bundle.load_all_bills([4, 4, 4, 4]);

    bundle.unload_bills(3, Denomination::Twenty);

    assert_eq!(4, bundle.get(Denomination::Fifty));
    assert_eq!(1, bundle.get(Denomination::Twenty));
    assert_eq!(4, bundle.get(Denomination::Ten));
    assert_eq!(4, bundle.get(Denomination::Five));
}

#[test]
fn unload_bills_is_load_bills_of_the_negated_quantity() {
    let mut unloaded = Bundle::new();
    unloaded.load_all_bills([9, 9, 9, 9]);
    let mut loaded = Bundle::new();
    loaded.load_all_bills([9, 9, 9, 9]);

    unloaded.unload_bills(4, Denomination::Five);
    loaded.load_bills(-4, Denomination::Five);

    assert_eq!(loaded, unloaded);
}

#[test]
fn load_then_unload_gives_back_the_counts() {
    let mut bundle = Bundle::new();
    bundle.load_all_bills([3, 0, 7, 1]);
    let mut expected = Bundle::new();
    expected.load_all_bills([3, 0, 7, 1]);

    for index in 0..4 {
        let denomination = Denomination::at(index);
        bundle.load_bills(12, denomination);
        bundle.unload_bills(12, denomination);
        assert_eq!(expected, bundle);
        bundle.unload_bills(-5, denomination);
        bundle.load_bills(-5, denomination);
        assert_eq!(expected, bundle);
    }
}

#[test]
fn unload_bills_reaches_the_ends_of_the_range() {
    let mut bundle = Bundle::new();
    bundle.load_bills(-1, Denomination::Five);

    bundle.unload_bills(i32::MIN, Denomination::Five);

    assert_eq!(i32::MAX, bundle.get(Denomination::Five));

    bundle.unload_bills(i32::MAX, Denomination::Five);
    bundle.unload_bills(i32::MAX, Denomination::Five);
    bundle.unload_bills(1, Denomination::Five);

    assert_eq!(i32::MIN, bundle.get(Denomination::Five));
}

#[test]
fn load_all_bills_adds_to_what_is_there() {
    let mut bundle = Bundle::new();
    bundle.load_all_bills([1, 2, 3, 4]);

    bundle.load_all_bills([10, 20, -3, 0]);

    assert_eq!(11, bundle.get(Denomination::Fifty));
    assert_eq!(22, bundle.get(Denomination::Twenty));
    assert_eq!(0, bundle.get(Denomination::Ten));
    assert_eq!(4, bundle.get(Denomination::Five));
}

#[test]
fn total_amount_is_the_sum_of_count_times_value() {
    let mut bundle = Bundle::new();
    bundle.load_all_bills([3, 4, 5, 6]);

    let mut expected = 0;
    for index in 0..4 {
        let denomination = Denomination::at(index);
        expected += bundle.get(denomination) * denomination.value();
    }

    assert_eq!(3 * 50 + 4 * 20 + 5 * 10 + 6 * 5, expected);
    assert_eq!(expected, bundle.get_total_amount());
}

#[test]
fn total_amount_follows_every_change() {
    let mut bundle = Bundle::new();
    assert_eq!(0, bundle.get_total_amount());
    bundle.load_bills(2, Denomination::Fifty);
    assert_eq!(100, bundle.get_total_amount());
    bundle.load_bills(3, Denomination::Five);
    assert_eq!(115, bundle.get_total_amount());
    bundle.unload_bills(1, Denomination::Fifty);
    assert_eq!(65, bundle.get_total_amount());
    bundle.unload_bills(3, Denomination::Five);
    assert_eq!(50, bundle.get_total_amount());
}

#[test]
fn total_amount_fits_though_a_part_of_the_sum_does_not() {
    let mut bundle = Bundle::new();
    bundle.load_all_bills([i32::MAX, 0, 0, -i32::MAX]);
    bundle.load_bills(-2_147_483_647 + 214_748_364, Denomination::Fifty);

    assert_eq!(214_748_364, bundle.get(Denomination::Fifty));
    assert_eq!(
        (214_748_364i64 * 50 - 2_147_483_647i64 * 5) as i32,
        bundle.get_total_amount()
    );
    assert_eq!(-35, bundle.get_total_amount());
}

#[test]
fn clone_holds_the_same_bills_and_is_independent() {
    let mut bundle = Bundle::new();
    bundle.load_all_bills([1, 2, 3, 4]);

    let copy = bundle.clone();
    bundle.load_bills(1, Denomination::Five);

    assert_eq!(4, copy.get(Denomination::Five));
    assert_eq!(5, bundle.get(Denomination::Five));
    assert_ne!(copy, bundle);
}

#[test]
fn bundles_differ_where_one_count_differs() {
    for index in 0..4 {
        let mut bundle = Bundle::new();
        bundle.load_bills(1, Denomination::at(index));
        assert_ne!(Bundle::new(), bundle);
        bundle.unload_bills(1, Denomination::at(index));
        assert_eq!(Bundle::new(), bundle);
    }
}
