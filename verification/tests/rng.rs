use practice_tasks::rng::{RandRule, RuleError};

#[test]
fn test_rng_num_rage() {
    let min: u64 = 1;
    let max: u64 = 5;
    let rule = RandRule::new(min, max).expect("err");
    let mut wrong_cases: u32 = 0;
    for _ in 1..100 {
        let (a, b) = rule.generate();
        if a > max || b > max || a < min || b < min {
            wrong_cases += 1;
        }
    }
    assert_eq!(wrong_cases, 0);
}

#[test]
fn test_upper_bound_is_never_produced() {
    let rule = RandRule::new(1, 2).expect("err");
    for _ in 0..200 {
        let (a, b) = rule.generate();
        assert_eq!(a, 1);
        assert_eq!(b, 1);
    }
}

#[test]
fn test_degenerate_range_rejected() {
    assert!(matches!(RandRule::new(5, 5), Err(RuleError::InvalidRange)));
}

#[test]
fn test_inverted_range_rejected() {
    assert!(matches!(RandRule::new(7, 3), Err(RuleError::InvalidRange)));
}

#[test]
fn test_zero_lower_bound_rejected() {
    assert!(matches!(RandRule::new(0, 5), Err(RuleError::InvalidRange)));
}

#[test]
fn test_check_accepts_valid_rule() {
    let rule = RandRule::new(10, 20).expect("err");
    assert!(rule.check().is_ok());
}
