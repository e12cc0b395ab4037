pub mod beast;
pub mod clock;
pub mod co2;
pub mod icao_country;
pub mod json_output;
pub mod modes;
pub mod readsb;
pub mod text;
pub mod tracker;
