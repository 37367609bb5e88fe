//! Central controller of a model railway: the wire protocol spoken with the
//! locomotives, sensors and switches, the rail network it plans over, and the
//! oracle that at each tick decides switch positions and speeds so that no
//! two locomotives are sent onto the same or conflicting segments.
pub mod protocol;
pub mod rail_network;
pub mod backend;
pub mod oracle;
pub mod safety;
pub mod device;
