//! Driver for the BMI270 inertial measurement unit.
//!
//! The methods of [`Bmi270`] give operations. An operation says what it needs from the bus, one
//! request at a time, and goes on with the reply; see [`operation`].

pub mod bank_laws;
pub mod bits;
pub mod change;
pub mod change_laws;
pub mod compat_embedded_hal;
pub mod conversation;
pub mod driver;
pub mod error;
pub mod initialize_laws;
pub mod initialize_step_laws;
pub mod operation;
pub mod operation_laws;
pub mod reading_laws;
pub mod readout;
pub mod register_laws;
pub mod registers;
pub mod setting_laws;
pub mod startup;
pub mod startup_laws;

pub use crate::driver::Bmi270;
pub use crate::error::Error;
pub use crate::registers::{
    AccBwpVariant, AccFilterPerf, AccOdrVariant, AccRangeVariant, AdvPowerSave, CmdVariant,
    ErrorCodeVariant, GyrBwpVariant, GyrFilterPerf, GyrNoisePerf, GyrOdrVariant, GyrRangeVariant,
    InitCtrlVariant, InitStatusVariant,
};
