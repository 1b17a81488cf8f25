//! Running a COMPOUND: what is refused before anything runs, what each operation
//! is turned into, what its outcome becomes on the wire, and where the COMPOUND
//! stops.
//!
//! The dispatcher decides and the server around it acts. [`run::start`] admits a
//! request, [`run::CompoundRun`] hands out the operations one by one and takes
//! their results, [`route::route`] says what to do with an operation, and
//! [`complete::complete`] turns what a handler answered into a result.
pub mod admission;
pub mod attrs;
pub mod complete;
pub mod complete_laws;
pub mod connections;
pub mod layout;
pub mod open;
pub mod placement;
pub mod route;
pub mod route_laws;
pub mod run;
pub mod stats;

