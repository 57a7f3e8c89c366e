//! Data sets of instructions and answers, made with a local language model.
//!
//! Lines of JSON are read ([`input`]), each item is put to a provider
//! ([`provider`]), under a persona where there is one ([`persona`]), and what
//! is answered is written as a line of JSON in one of three layouts
//! ([`example`]), with earlier turns of a conversation where such are given
//! ([`history`]). [`run`] says what a run over all items does and when it stops.

pub mod example;
pub mod history;
pub mod input;
pub mod json;
pub mod persona;
pub mod provider;
pub mod run;
pub mod text;
