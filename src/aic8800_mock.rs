//! A simulated AIC8800 chip: its register map, an SDIO bus device that
//! records transactions, and a firmware image store.
pub mod register;
pub mod sdio;
pub mod firmware;
