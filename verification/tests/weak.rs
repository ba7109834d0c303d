use mnemosyne::weak::{
    answers_for, assess, card_evidence, cards_of_task, count_still_weak, listing_totals, sync_after_write, task_listing,
    sync_without_write, weak_summary, CardEvidence, WeakCardSync, Weakness, WEAK_CARD_WINDOW,
};

#[test]
fn two_misses_in_five_is_weak() {
    assert_eq!(assess(&[false, true, false, true, true]), Weakness::Weak { wrong: 2 });
    assert_eq!(assess(&[false; 5]), Weakness::Weak { wrong: 5 });
}

#[test]
fn one_miss_in_five_is_not_weak() {
    assert_eq!(assess(&[true, true, false, true, true]), Weakness::NotWeak { wrong: 1 });
}

#[test]
fn fewer_than_five_reviews_are_not_judged() {
    assert_eq!(assess(&[false; 4]), Weakness::NotEnoughHistory { reviews: 4 });
    assert_eq!(assess(&[]), Weakness::NotEnoughHistory { reviews: 0 });
}

#[test]
fn only_the_newest_five_count() {
    assert_eq!(
        assess(&[true, true, true, true, true, false, false, false]),
        Weakness::NotWeak { wrong: 0 }
    );
}

#[test]
fn still_weak_follows_the_writers_rule() {
    assert!(matches!(assess(&[false, false, false, false, true]), Weakness::Weak { .. }));
    assert!(matches!(assess(&[false, false, true, true, true]), Weakness::Weak { wrong: 2 }));
    assert!(matches!(assess(&[false, true, true, true, true]), Weakness::NotWeak { wrong: 1 }));
    assert!(matches!(assess(&[false, false]), Weakness::NotEnoughHistory { reviews: 2 }));
}

#[test]
fn the_window_is_five_reviews() {
    assert_eq!(WEAK_CARD_WINDOW, 5);
}

#[test]
fn a_card_too_new_to_judge_reports_all_its_misses_and_is_not_weak() {
    assert_eq!(weak_summary(&[false, false, true]), (2, false));
    assert_eq!(weak_summary(&[false, false, true, true, true]), (2, true));
    assert_eq!(weak_summary(&[true, true, true, true, false, false]), (1, false));
}

#[test]
fn only_a_weak_card_needs_the_todo_item_written() {
    assert_eq!(
        sync_without_write(&Weakness::NotEnoughHistory { reviews: 3 }),
        Some(WeakCardSync::NotEnoughHistory)
    );
    assert_eq!(sync_without_write(&Weakness::NotWeak { wrong: 1 }), Some(WeakCardSync::NotWeak));
    assert_eq!(sync_without_write(&Weakness::Weak { wrong: 3 }), None);
}

#[test]
fn the_write_reports_opened_added_or_already_listed() {
    assert_eq!(sync_after_write(true, true, 7), WeakCardSync::Opened { todo_id: 7 });
    assert_eq!(sync_after_write(true, false, 7), WeakCardSync::Opened { todo_id: 7 });
    assert_eq!(sync_after_write(false, true, 7), WeakCardSync::CardAdded { todo_id: 7 });
    assert_eq!(sync_after_write(false, false, 7), WeakCardSync::AlreadyListed { todo_id: 7 });
}

#[test]
fn a_listed_card_is_judged_from_its_own_answers_only() {
    let recent = vec![(1u128, false), (2, true), (1, false), (1, true), (2, false), (1, true), (1, true)];
    assert_eq!(answers_for(&recent, 1), vec![false, false, true, true, true]);
    assert_eq!(answers_for(&recent, 2), vec![true, false]);
    assert_eq!(answers_for(&recent, 3), Vec::<bool>::new());
    assert_eq!(
        card_evidence(&recent, 1),
        CardEvidence { recent_reviews: 5, recent_wrong: 2, still_weak: true }
    );
    assert_eq!(
        card_evidence(&recent, 2),
        CardEvidence { recent_reviews: 2, recent_wrong: 1, still_weak: false }
    );
}

#[test]
fn cards_are_grouped_under_their_task_in_order() {
    let task_of_card = vec![10u128, 20, 10, 30, 10];
    assert_eq!(cards_of_task(&task_of_card, 10), vec![0, 2, 4]);
    assert_eq!(cards_of_task(&task_of_card, 20), vec![1]);
    assert_eq!(cards_of_task(&task_of_card, 40), Vec::<usize>::new());
    assert_eq!(count_still_weak(&vec![true, false, true]), 2);
    assert_eq!(count_still_weak(&vec![]), 0);
}

#[test]
fn listing_totals_sum_every_item() {
    let task_of_card = vec![1u128, 2, 1];
    let card_ids = vec![10u128, 20, 30];
    let mut recent = vec![(10u128, false), (10, false), (10, true), (10, true), (10, true), (20, true)];
    recent.extend([(30u128, false), (30, false), (30, false), (30, true), (30, true)]);
    let listings = vec![
        task_listing(1, &task_of_card, &card_ids, &recent),
        task_listing(2, &task_of_card, &card_ids, &recent),
    ];
    assert_eq!(listings[0].cards.len(), 2);
    assert_eq!(listings[0].still_weak_count, 2);
    assert_eq!(listings[1].still_weak_count, 0);
    assert_eq!(listing_totals(&listings), (3, 2));
    assert_eq!(listing_totals(&Vec::new()), (0, 0));
}
