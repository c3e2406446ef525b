//! Site-wide settings and the GeoIP database.

pub mod types;
pub mod site;
pub mod geoip;
