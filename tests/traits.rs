use soliloquy_drivers::traits::{DriverError, ClockRate, GpioConfig, GpioDirection, GpioPull, UartConfig, UartParity};

#[test]
fn test_clock_rate_conversions() {
    assert_eq!(ClockRate::mhz(24).as_hz(), 24000000);
    assert_eq!(ClockRate::khz(400).as_hz(), 400000);
}

#[test]
fn test_gpio_config_default() {
    let config = GpioConfig::default();
    assert_eq!(config.direction, GpioDirection::Input);
    assert_eq!(config.pull, GpioPull::Floating);
    assert!(!config.initial_value);
}

#[test]
fn test_uart_config_default() {
    let config = UartConfig::default();
    assert_eq!(config.baud_rate, 115200);
    assert_eq!(config.data_bits, 8);
    assert_eq!(config.stop_bits, 1);
    assert_eq!(config.parity, UartParity::NoParity);
    assert!(!config.flow_control);
}

#[test]
fn driver_error_messages() {
    assert_eq!(DriverError::NotFound.message(), "device not found");
    assert_eq!(DriverError::Timeout.message(), "operation timeout");
    assert_eq!(DriverError::DeviceError(0xBEEF).message(), "device error: 0x0000beef");
    assert_eq!(DriverError::DeviceError(0xDEADBEEF).message(), "device error: 0xdeadbeef");
    assert_eq!(DriverError::Custom("bus fault".to_string()).message(), "bus fault");
}
