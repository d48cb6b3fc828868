use visits::date::Date;
use visits::visit::{Timestamp, Visit};

#[test]
fn visit_days_returns_correct_sum() {
    let v = Visit {
        id: 1,
        user_id: 1,
        enter_at: Date::from_ymd(2018, 1, 1),
        exit_at: Date::from_ymd(2018, 1, 10),
        created_at: Timestamp::from_timestamp(0, 42),
        updated_at: Timestamp::from_timestamp(0, 42),
    };
    assert_eq!(v.days(), 10);
}

#[test]
fn visit_sum_all_days_returns_correct_sum() {
    let vs = vec![
        Visit {
            id: 1,
            user_id: 1,
            enter_at: Date::from_ymd(2018, 1, 1),
            exit_at: Date::from_ymd(2018, 1, 10),
            created_at: Timestamp::from_timestamp(0, 42),
            updated_at: Timestamp::from_timestamp(0, 42),
        },
        Visit {
            id: 1,
            user_id: 1,
            enter_at: Date::from_ymd(2018, 1, 1),
            exit_at: Date::from_ymd(2018, 1, 2),
            created_at: Timestamp::from_timestamp(0, 42),
            updated_at: Timestamp::from_timestamp(0, 42),
        },
    ];
    assert_eq!(Visit::sum_all_days(&vs), 12);
}

#[test]
fn visit_days_since_returns_correct_sum() {
    let v = Visit {
        id: 1,
        user_id: 1,
        enter_at: Date::from_ymd(2018, 1, 5),
        exit_at: Date::from_ymd(2018, 1, 10),
        created_at: Timestamp::from_timestamp(0, 42),
        updated_at: Timestamp::from_timestamp(0, 42),
    };

    // when the start date is before the entry
    let start_at = Date::from_ymd(2017, 1, 1);
    assert_eq!(v.days_since(start_at), 6);

    // when the start date is on the entry
    let start_at = Date::from_ymd(2018, 1, 5);
    assert_eq!(v.days_since(start_at), 6);

    // when the start date is after the entry
    let start_at = Date::from_ymd(2018, 1, 7);
    assert_eq!(v.days_since(start_at), 4);

    // when the start date is after the exit
    let start_at = Date::from_ymd(2018, 1, 11);
    assert_eq!(v.days_since(start_at), 0);
}

#[test]
fn visit_sum_all_days_since_returns_correct_sum() {
    let vs = vec![
        Visit {
            id: 1,
            user_id: 1,
            enter_at: Date::from_ymd(2018, 1, 1),
            exit_at: Date::from_ymd(2018, 1, 10),
            created_at: Timestamp::from_timestamp(0, 42),
            updated_at: Timestamp::from_timestamp(0, 42),
        },
        Visit {
            id: 1,
            user_id: 1,
            enter_at: Date::from_ymd(2018, 2, 1),
            exit_at: Date::from_ymd(2018, 2, 10),
            created_at: Timestamp::from_timestamp(0, 42),
            updated_at: Timestamp::from_timestamp(0, 42),
        },
    ];

    // when the start date is before all entries
    let start_at = Date::from_ymd(2017, 1, 1);
    assert_eq!(vs[0].sum_all_days_since(start_at, &vs), 10);
    assert_eq!(vs[1].sum_all_days_since(start_at, &vs), 20);

    // when the start date is on the entry
    let start_at = Date::from_ymd(2018, 1, 1);
    assert_eq!(vs[0].sum_all_days_since(start_at, &vs), 10);
    assert_eq!(vs[1].sum_all_days_since(start_at, &vs), 20);

    // when the start date is after the first entry
    let start_at = Date::from_ymd(2018, 1, 5);
    assert_eq!(vs[0].sum_all_days_since(start_at, &vs), 6);
    assert_eq!(vs[1].sum_all_days_since(start_at, &vs), 16);

    // when the start date is after the first exit
    let start_at = Date::from_ymd(2018, 1, 11);
    assert_eq!(vs[0].sum_all_days_since(start_at, &vs), 0);
    assert_eq!(vs[1].sum_all_days_since(start_at, &vs), 10);

    // when the start date is after the second entry
    let start_at = Date::from_ymd(2018, 2, 5);
    assert_eq!(vs[0].sum_all_days_since(start_at, &vs), 0);
    assert_eq!(vs[1].sum_all_days_since(start_at, &vs), 6);

    // when the start date is after the second exit
    let start_at = Date::from_ymd(2018, 2, 11);
    assert_eq!(vs[0].sum_all_days_since(start_at, &vs), 0);
    assert_eq!(vs[1].sum_all_days_since(start_at, &vs), 0);
}

#[test]
fn single_day_visit_counts_one_day() {
    let v = Visit {
        id: 1,
        user_id: 1,
        enter_at: Date::from_ymd(2018, 3, 7),
        exit_at: Date::from_ymd(2018, 3, 7),
        created_at: Timestamp::from_timestamp(0, 0),
        updated_at: Timestamp::from_timestamp(0, 0),
    };
    assert_eq!(v.days(), 1);
}

#[test]
fn days_since_never_grows_as_cutoff_moves_later() {
    let v = Visit {
        id: 1,
        user_id: 1,
        enter_at: Date::from_ymd(2018, 1, 5),
        exit_at: Date::from_ymd(2018, 1, 10),
        created_at: Timestamp::from_timestamp(0, 0),
        updated_at: Timestamp::from_timestamp(0, 0),
    };
    let mut previous = v.days_since(Date::from_ymd(2017, 12, 20));
    for offset in 0..40 {
        let cutoff = Date::from_day(Date::from_ymd(2017, 12, 20).day + offset);
        let current = v.days_since(cutoff);
        assert!(current <= previous);
        assert!(0 <= current && current <= v.days());
        previous = current;
    }
}

#[test]
fn sum_all_days_since_excludes_visits_starting_on_reference_exit() {
    let reference = Visit {
        id: 1,
        user_id: 1,
        enter_at: Date::from_ymd(2018, 1, 1),
        exit_at: Date::from_ymd(2018, 1, 10),
        created_at: Timestamp::from_timestamp(0, 0),
        updated_at: Timestamp::from_timestamp(0, 0),
    };
    let later = Visit {
        id: 2,
        user_id: 1,
        enter_at: Date::from_ymd(2018, 1, 10),
        exit_at: Date::from_ymd(2018, 1, 20),
        created_at: Timestamp::from_timestamp(0, 0),
        updated_at: Timestamp::from_timestamp(0, 0),
    };
    let cutoff = Date::from_ymd(2017, 1, 1);
    let with_later = vec![reference, later];
    let without_later = vec![reference];
    assert_eq!(reference.sum_all_days_since(cutoff, &with_later), 10);
    assert_eq!(
        reference.sum_all_days_since(cutoff, &with_later),
        reference.sum_all_days_since(cutoff, &without_later)
    );
}

#[test]
fn days_left_in_window_subtracts_window_usage() {
    let vs = vec![
        Visit {
            id: 1,
            user_id: 1,
            enter_at: Date::from_ymd(2018, 1, 1),
            exit_at: Date::from_ymd(2018, 1, 10),
            created_at: Timestamp::from_timestamp(0, 0),
            updated_at: Timestamp::from_timestamp(0, 0),
        },
        Visit {
            id: 2,
            user_id: 1,
            enter_at: Date::from_ymd(2018, 2, 1),
            exit_at: Date::from_ymd(2018, 2, 10),
            created_at: Timestamp::from_timestamp(0, 0),
            updated_at: Timestamp::from_timestamp(0, 0),
        },
    ];
    assert_eq!(vs[0].days_left_in_window(&vs, 180, 90), 80);
    assert_eq!(vs[1].days_left_in_window(&vs, 180, 90), 70);
    // a window so short that only two days of the visit itself fall in it
    assert_eq!(vs[0].days_left_in_window(&vs, 1, 90), 88);
}

#[test]
fn days_until_counts_days_from_given_day() {
    let v = Visit {
        id: 1,
        user_id: 1,
        enter_at: Date::from_ymd(2020, 6, 10),
        exit_at: Date::from_ymd(2020, 6, 12),
        created_at: Timestamp::from_timestamp(0, 0),
        updated_at: Timestamp::from_timestamp(0, 0),
    };
    assert_eq!(v.days_until(Date::from_ymd(2020, 6, 1)), 9);
    assert_eq!(v.days_until(Date::from_ymd(2020, 6, 10)), 0);
    assert_eq!(v.days_until(Date::from_ymd(2020, 6, 15)), -5);
}

#[test]
fn days_until_now_is_negative_for_long_past_visits() {
    let v = Visit {
        id: 1,
        user_id: 1,
        enter_at: Date::from_ymd(2000, 1, 1),
        exit_at: Date::from_ymd(2000, 1, 2),
        created_at: Timestamp::from_timestamp(0, 0),
        updated_at: Timestamp::from_timestamp(0, 0),
    };
    assert!(v.days_until_now() < 0);
    let far = Visit {
        id: 2,
        user_id: 1,
        enter_at: Date::from_ymd(9999, 1, 1),
        exit_at: Date::from_ymd(9999, 1, 2),
        created_at: Timestamp::from_timestamp(0, 0),
        updated_at: Timestamp::from_timestamp(0, 0),
    };
    assert!(far.days_until_now() > 0);
}
