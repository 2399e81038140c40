use cat_zzz::score::BackgroundId;
use cat_zzz::score::apply_delta;
use cat_zzz::score::background_for;
use cat_zzz::score::get_background_for_score;
use cat_zzz::score::is_winning;
use cat_zzz::score::size_for;

#[test]
fn background_buckets_are_total() {
    // No score panics, including the extremes.
    assert_eq!(background_for(i32::MIN), BackgroundId::Mono);
    assert_eq!(background_for(i32::MAX), BackgroundId::Winner);
    assert_eq!(background_for(0), BackgroundId::Original);
}

#[test]
fn background_bucket_boundaries() {
    assert_eq!(background_for(30), BackgroundId::Winner);
    assert_eq!(background_for(29), BackgroundId::Original);
    assert_eq!(background_for(-9), BackgroundId::Original);
    assert_eq!(background_for(-10), BackgroundId::Mouse1);
    assert_eq!(background_for(-20), BackgroundId::Mouse1);
    assert_eq!(background_for(-21), BackgroundId::Mouse2);
    assert_eq!(background_for(-30), BackgroundId::Mouse2);
    assert_eq!(background_for(-31), BackgroundId::Mono);
}

#[test]
fn get_background_picks_the_bucket_buffer() {
    let mono = [1u32, 1];
    let mouse1 = [2u32, 2];
    let mouse2 = [3u32, 3];
    let original = [4u32, 4];
    let winner = [5u32, 5];
    let pick = |score: i32| get_background_for_score(score, &mono, &mouse1, &mouse2, &original, &winner);
    assert_eq!(pick(-40), vec![1, 1]);
    assert_eq!(pick(-15), vec![2, 2]);
    assert_eq!(pick(-25), vec![3, 3]);
    assert_eq!(pick(0), vec![4, 4]);
    assert_eq!(pick(35), vec![5, 5]);
}

#[test]
fn apply_delta_saturates_at_extremes() {
    assert_eq!(apply_delta(0, 1), 1);
    assert_eq!(apply_delta(3, -5), -2);
    assert_eq!(apply_delta(i32::MAX, 1), i32::MAX);
    assert_eq!(apply_delta(i32::MIN, -5), i32::MIN);
    assert_eq!(apply_delta(i32::MAX, -1), i32::MAX - 1);
}

#[test]
fn size_grows_above_threshold() {
    assert_eq!(size_for(10), 30);
    assert_eq!(size_for(11), 50);
    assert_eq!(size_for(-100), 30);
    assert_eq!(size_for(i32::MAX), 50);
}

#[test]
fn winning_threshold() {
    assert!(!is_winning(29));
    assert!(is_winning(30));
    assert!(is_winning(i32::MAX));
    assert!(!is_winning(i32::MIN));
}
