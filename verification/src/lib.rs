//! Verified cores of two coordination primitives for interface code: a
//! bounded broadcast channel whose backpressure counts only the
//! subscriptions that are listening, and a debounce unit that turns a burst
//! of calls into one delayed effect.
//!
//! Neither waits, sleeps nor spawns. Each is a state machine that says, for
//! every call, what changed and what its driver has to do next; the driver
//! supplies the tasks and the timers.
//!
//! Beside them stand the lookup of translated texts, and the decisions on
//! what the platform's position service answers.

pub mod channel;
pub mod debounce;
pub mod geolocation;
pub mod i18n;
