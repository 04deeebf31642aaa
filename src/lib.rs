//! Hardware driver library: driver traits and shared types, a generic
//! SD/MMC/eMMC protocol engine with a block-device facade, register layout
//! and arithmetic of the generic UART, GPIO and clock controllers, platform
//! detection, an AIC8800 WiFi driver core with a simulated SDIO bus and
//! firmware store, a WLAN soft-MAC bridge, keyboard input handling and URL
//! validation for the web content shell.
pub mod traits;
pub mod cmd;
pub mod mmc;
pub mod platform;
pub mod uart;
pub mod gpio;
pub mod clock;
pub mod aic8800_mock;
pub mod aic8800;
pub mod wlan_softmac;
pub mod servo_embedder;
pub mod ui_input;
