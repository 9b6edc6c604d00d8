//! A smart home model: devices, rooms and houses, their reports, and the
//! rules of the services built around them.
pub mod device;
pub mod emulator;
pub mod error;
pub mod house;
pub mod laws;
pub mod name_map;
pub mod network;
pub mod observer;
pub mod report;
pub mod report_builder;
pub mod room;
pub mod service;
pub mod smart_house_builder;
pub mod text;
pub mod web;

pub use device::{SmartDevice, SmartSocket, SmartThermometer};
pub use error::DeviceLookupError;
pub use house::SmartHouse;
pub use report::Report;
pub use room::Room;
