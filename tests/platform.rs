use soliloquy_drivers::platform::Platform;

#[test]
fn test_platform_detection() {
    assert_eq!(Platform::detect_from_compatible("allwinner,sun55i-a527"), Platform::AllwinnerA527);
    assert_eq!(Platform::detect_from_compatible("radxa,cubie-a5e"), Platform::AllwinnerA527);
    assert_eq!(Platform::detect_from_compatible("unknown-soc"), Platform::Unknown);
}

#[test]
fn platform_detection_other_socs() {
    assert_eq!(Platform::detect_from_compatible("allwinner,sun50i-h616"), Platform::AllwinnerH616);
    assert_eq!(Platform::detect_from_compatible("pine64,sun50i-a64"), Platform::AllwinnerA64);
    assert_eq!(Platform::detect_from_compatible("rockchip,rk3588"), Platform::RockchipRK3588);
    assert_eq!(Platform::detect_from_compatible(""), Platform::Unknown);
}
