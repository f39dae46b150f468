use rendercore::ubo::UboLayout;

#[test]
fn alignment_is_at_least_one_matrix() {
    let l = UboLayout::new(16);
    assert_eq!(l.alignment, 64);
}

#[test]
fn device_alignment_wins_when_larger() {
    let l = UboLayout::new(256);
    assert_eq!(l.alignment, 256);
    assert_eq!(l.offset(0), 0);
    assert_eq!(l.offset(3), 768);
    assert_eq!(l.total_size(10), 2560);
}
