//! Messages exchanged with towers, and the checks applied to their answers.

pub mod http;
