//! Driver logic for a Pegasus power distribution box: the serial wire codec,
//! the property table with its permission and update rules, the refresh
//! cycle, and the decisions of the device manager.
//!
//! Nothing here performs I/O: the caller owns the serial port and the message
//! bus, performs the exchanges that the library asks for, and hands back what
//! came of them.
pub mod error;
pub mod properties;
pub mod protocol;
pub mod table;
pub mod device;
pub mod manager;
