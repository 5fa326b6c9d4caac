//! The execution cluster: its configuration, the resource arithmetic that the
//! scheduler and the cluster share, and the cluster's state machine.

pub mod glul;
