//! State machines of five small interactive programs: a counter, a list of
//! names with create / update / delete, a flight booker, a temperature
//! converter and a timer. Each model changes only through its `update`
//! function, which takes one event and is proved against a contract.
pub mod counter;
pub mod crud;
pub mod flight_booker;
pub mod temperature_converter;
pub mod timer;
