//! Verified decisions of a power-plan optimizer for Windows laptops: reading
//! what `powercfg` and `sc` print, deciding which settings to align and which
//! services to disable or restore, and building the commands and scripts that
//! carry the decisions out.
pub mod text;
pub mod classes;
pub mod grammar;
pub mod labels;
pub mod decode;
pub mod command;
pub mod powercfg;
pub mod optimize;
pub mod tasks;
pub mod script;
pub mod services;
pub mod backup;
