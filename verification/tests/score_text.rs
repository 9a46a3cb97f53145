use snake::resources::Score;
use snake::ui::update_score_text;

#[test]
fn score_text_zero() {
    assert_eq!(update_score_text(&Score { value: 0 }), "Score: 0");
}

#[test]
fn score_text_single_digit() {
    assert_eq!(update_score_text(&Score { value: 7 }), "Score: 7");
}

#[test]
fn score_text_multiple_digits() {
    assert_eq!(update_score_text(&Score { value: 42 }), "Score: 42");
    assert_eq!(update_score_text(&Score { value: 100 }), "Score: 100");
    assert_eq!(update_score_text(&Score { value: 12345 }), "Score: 12345");
}

#[test]
fn score_text_largest_value() {
    assert_eq!(update_score_text(&Score { value: u32::MAX }), "Score: 4294967295");
}
