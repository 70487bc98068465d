use paqus_wallet::text::{
    age_text, block_mined_text, bool_text, confirmations_text, duration_value_text,
    format_duration, latest_tip_height, optional_u64_text, short_text, target_block_time_text,
    tx_fee_rate_text, value_moved_text,
};

#[test]
fn durations() {
    assert_eq!(format_duration(0), "0 sec");
    assert_eq!(format_duration(59), "59 sec");
    assert_eq!(format_duration(60), "1 minute");
    assert_eq!(format_duration(150), "2 minutes");
    assert_eq!(format_duration(3_599), "59 minutes");
    assert_eq!(format_duration(3_600), "1 hour");
    assert_eq!(format_duration(86_399), "23 hours");
    assert_eq!(format_duration(86_400), "1 day");
    assert_eq!(format_duration(200_000), "2 days");
    assert_eq!(duration_value_text(None), "none");
    assert_eq!(duration_value_text(Some(61)), "1 minute");
}

#[test]
fn small_texts() {
    assert_eq!(optional_u64_text(None), "none");
    assert_eq!(optional_u64_text(Some(12)), "12");
    assert_eq!(short_text("abcdef"), "abcdef");
    assert_eq!(bool_text(Some(true)), "yes");
    assert_eq!(bool_text(Some(false)), "no");
    assert_eq!(bool_text(None), "unknown");
}

#[test]
fn fee_rates() {
    assert_eq!(tx_fee_rate_text(None, Some(10)), "none");
    assert_eq!(tx_fee_rate_text(Some(10), None), "none");
    assert_eq!(tx_fee_rate_text(Some(10), Some(0)), "infinite");
    assert_eq!(tx_fee_rate_text(Some(250), Some(125)), "2 paqus/vB");
    assert_eq!(tx_fee_rate_text(Some(10), Some(3)), "3.333 paqus/vB");
    assert_eq!(tx_fee_rate_text(Some(1), Some(200)), "0.005 paqus/vB");
    assert_eq!(tx_fee_rate_text(Some(u64::MAX), Some(u64::MAX - 1)), "1.000 paqus/vB");
}

#[test]
fn confirmations() {
    assert_eq!(confirmations_text(Some(7), Some(1), Some(100)), "7");
    assert_eq!(confirmations_text(None, Some(90), Some(100)), "11");
    assert_eq!(confirmations_text(None, Some(120), Some(100)), "1");
    assert_eq!(confirmations_text(None, None, Some(100)), "unknown");
    assert_eq!(confirmations_text(None, Some(5), None), "unknown");
    assert_eq!(confirmations_text(None, Some(0), Some(u64::MAX)), u64::MAX.to_string());
}

#[test]
fn ages_and_block_times() {
    assert_eq!(age_text(Some(30), Some(1), Some(1000)), "30 sec ago");
    assert_eq!(age_text(None, Some(1_000), Some(1_120)), "2 minutes ago");
    assert_eq!(age_text(None, Some(1_000), Some(10)), "0 sec ago");
    assert_eq!(age_text(None, Some(1_000), None), "0 sec ago");
    assert_eq!(age_text(None, None, Some(10)), "unknown");
    assert_eq!(target_block_time_text(None), "5 minutes");
    assert_eq!(target_block_time_text(Some(7_200)), "2 hours");
    assert_eq!(block_mined_text(Some(90), Some(1), Some(2)), "1 minute");
    assert_eq!(block_mined_text(None, Some(400), Some(100)), "5 minutes");
    assert_eq!(block_mined_text(None, Some(100), Some(400)), "0 sec");
    assert_eq!(block_mined_text(None, Some(100), None), "unknown");
}

#[test]
fn value_moved() {
    assert_eq!(value_moved_text(Some(12), None), Some("12".to_string()));
    assert_eq!(value_moved_text(None, None), Some("unknown".to_string()));
    let amounts = vec![Some(5), None, Some(7)];
    assert_eq!(value_moved_text(None, Some(&amounts)), Some("12".to_string()));
    let empty = vec![];
    assert_eq!(value_moved_text(None, Some(&empty)), Some("0".to_string()));
    let too_much = vec![Some(u64::MAX), Some(1)];
    assert_eq!(value_moved_text(None, Some(&too_much)), None);
}

#[test]
fn tip_of_latest_blocks() {
    assert_eq!(latest_tip_height(&[]), None);
    assert_eq!(latest_tip_height(&[None, None]), None);
    assert_eq!(latest_tip_height(&[Some(5), None, Some(9), Some(7)]), Some(9));
}
