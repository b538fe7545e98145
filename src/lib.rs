//! Persistence-and-identity core of a question-and-answer forum: password
//! credentials, sessions, activation codes, and the content store for
//! questions, answers and tags, with the request-level operations that
//! compose them.

pub mod errors;
pub mod text;
pub mod ids;
pub mod session;
pub mod activation;
pub mod credentials;
pub mod render;
pub mod models;
pub mod store;
pub mod responses;
pub mod settings;
pub mod startup;
pub mod routes;
