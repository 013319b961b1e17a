use yieldera_math::tick_math::{align_to_pool_tick_spacing, decimals_difference};

#[test]
fn align_positive_tick_moves_down() {
    assert_eq!(align_to_pool_tick_spacing(105, 60), 60);
    assert_eq!(align_to_pool_tick_spacing(59, 60), 0);
    assert_eq!(align_to_pool_tick_spacing(119, 60), 60);
}

#[test]
fn align_negative_tick_moves_toward_zero() {
    assert_eq!(align_to_pool_tick_spacing(-105, 60), -60);
    assert_eq!(align_to_pool_tick_spacing(-59, 60), 0);
    assert_eq!(align_to_pool_tick_spacing(-1, 60), 0);
    assert_eq!(align_to_pool_tick_spacing(-61, 60), -60);
}

#[test]
fn align_keeps_ticks_on_the_grid() {
    assert_eq!(align_to_pool_tick_spacing(0, 60), 0);
    assert_eq!(align_to_pool_tick_spacing(120, 60), 120);
    assert_eq!(align_to_pool_tick_spacing(-120, 60), -120);
    assert_eq!(align_to_pool_tick_spacing(887220, 60), 887220);
    assert_eq!(align_to_pool_tick_spacing(-887272, 1), -887272);
}

#[test]
fn align_at_the_ends_of_the_range() {
    assert_eq!(align_to_pool_tick_spacing(i32::MAX, 60), 2147483640);
    assert_eq!(align_to_pool_tick_spacing(i32::MIN, 60), -2147483640);
    assert_eq!(align_to_pool_tick_spacing(i32::MIN, 1), i32::MIN);
    assert_eq!(align_to_pool_tick_spacing(i32::MAX, i32::MAX), i32::MAX);
    assert_eq!(align_to_pool_tick_spacing(i32::MIN, i32::MAX), -i32::MAX);
    assert_eq!(align_to_pool_tick_spacing(5, i32::MAX), 0);
}

#[test]
fn aligned_tick_is_a_near_multiple() {
    for spacing in [1, 2, 10, 60, 200, 887272] {
        let mut tick: i64 = -887272;
        while tick <= 887272 {
            let aligned = align_to_pool_tick_spacing(tick as i32, spacing);
            assert_eq!(aligned % spacing, 0);
            assert!((tick - aligned as i64).abs() < spacing as i64);
            assert!((aligned as i64).abs() <= tick.abs());
            tick += 7919;
        }
    }
}

#[test]
fn decimals_difference_is_signed() {
    assert_eq!(decimals_difference(18, 18), 0);
    assert_eq!(decimals_difference(6, 18), 12);
    assert_eq!(decimals_difference(18, 6), -12);
    assert_eq!(decimals_difference(0, 255), 255);
    assert_eq!(decimals_difference(255, 0), -255);
    assert_eq!(decimals_difference(200, 100), -100);
}
