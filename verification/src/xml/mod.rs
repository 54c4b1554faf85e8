//! XML reading: the events of a document, the tokens they decode to, and the
//! element tree that the tokens spell.
pub mod alike;
pub mod event;
pub mod extension;
pub mod lenient;
pub mod name;
pub mod query;
pub mod schema;
pub mod token;
pub mod tree;
