//! A debounce unit: every call of `action` replaces the invocation that is
//! waiting, and only a timer that is still the waiting one hands its payload
//! out when it runs down.

pub mod laws;
pub mod trace;
pub mod unit;
