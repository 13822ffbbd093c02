use topdown_racer::race::FinishStatus;
use topdown_racer::standings::{positions_from_order, race_positions};

#[test]
fn positions_follow_the_running_order() {
    // Car 2 leads, then car 0, then car 3, then car 1.
    assert_eq!(positions_from_order(&vec![2, 0, 3, 1]), vec![2, 4, 1, 3]);
    assert_eq!(positions_from_order(&vec![0]), vec![1]);
    assert!(positions_from_order(&vec![]).is_empty());
}

#[test]
fn every_car_holds_its_own_position() {
    let pos = positions_from_order(&vec![3, 1, 4, 0, 2]);
    let mut sorted = pos.clone();
    sorted.sort();
    assert_eq!(sorted, vec![1, 2, 3, 4, 5]);
}

#[test]
fn flagged_cars_lead_by_place_then_racing_then_dnf() {
    // Car 0 DNF but furthest along, car 1 second home, car 2 racing,
    // car 3 first home.
    let finish = vec![
        FinishStatus::Dnf,
        FinishStatus::Finished { place: 2 },
        FinishStatus::Racing,
        FinishStatus::Finished { place: 1 },
    ];
    let progress = vec![1, 3, 2, 4];
    assert_eq!(race_positions(&finish, &progress), vec![4, 2, 3, 1]);
}

#[test]
fn racing_cars_follow_their_progress() {
    let finish = vec![FinishStatus::Racing; 3];
    assert_eq!(race_positions(&finish, &vec![3, 1, 2]), vec![3, 1, 2]);
}
