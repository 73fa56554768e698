use rtmp_codec::timestamp::{compare, RtmpTimestamp};

#[test]
fn two_timestamps_can_be_added_together() {
    let time1 = RtmpTimestamp::new(50);
    let time2 = RtmpTimestamp::new(60);
    let result = time1 + time2;

    assert_eq!(result.value, 110);
}

#[test]
fn can_add_number_to_timestamp() {
    let time = RtmpTimestamp::new(50);
    let result = time + 60;

    assert_eq!(result.value, 110);
}

#[test]
fn can_add_timestamps_that_overflow_u32() {
    let time1 = RtmpTimestamp::new(u32::MAX);
    let time2 = RtmpTimestamp::new(60);
    let result = time1 + time2;

    assert_eq!(result.value, 59);
}

#[test]
fn can_add_number_to_timestamp_that_overflows_u32() {
    let time = RtmpTimestamp::new(u32::MAX);
    let result = time + 60;

    assert_eq!(result.value, 59);
}

#[test]
fn two_timestamps_can_be_subtracted_from_each_other() {
    let time1 = RtmpTimestamp::new(60);
    let time2 = RtmpTimestamp::new(50);
    let result = time1 - time2;

    assert_eq!(result.value, 10);
}

#[test]
fn can_subtract_number_from_timestamp() {
    let time = RtmpTimestamp::new(60);
    let result = time - 50;

    assert_eq!(result.value, 10);
}

#[test]
fn can_subtract_timestamps_that_underflow() {
    let time1 = RtmpTimestamp::new(0);
    let time2 = RtmpTimestamp::new(50);
    let result = time1 - time2;

    assert_eq!(result.value, u32::MAX - 49);
}

#[test]
fn can_subtract_number_from_timestamp_that_underflow_u32() {
    let time = RtmpTimestamp::new(0);
    let result = time - 50;

    assert_eq!(result.value, u32::MAX - 49);
}

#[test]
fn can_do_basic_comparisons_of_timestamps() {
    let time1 = RtmpTimestamp::new(50);
    let time2 = RtmpTimestamp::new(60);

    assert!(time1 < time2, "time1 was not less than time2");
    assert!(time2 > time1, "time2 was not greater than time2");
    assert!(
        time1 == RtmpTimestamp::new(50),
        "Two timestamps with the same time were not equal"
    );
}

#[test]
fn can_do_comparisons_with_timestamps_that_wrap_around() {
    let time1 = RtmpTimestamp::new(10000);
    let time2 = RtmpTimestamp::new(4000000000);
    let time3 = RtmpTimestamp::new(3000000000);

    assert!(time1 > time2, "10000 was not marked as greater than 4000000000");
    assert!(time3 < time2, "4000000000 was not marked greater than 3000000000");
}

#[test]
fn compare_orders_equal_values_as_equal() {
    assert_eq!(compare(&1234, &1234), core::cmp::Ordering::Equal);
}

#[test]
fn compare_orders_within_the_adjacency_window() {
    assert_eq!(compare(&200, &100), core::cmp::Ordering::Greater);
    assert_eq!(compare(&100, &200), core::cmp::Ordering::Less);
}
