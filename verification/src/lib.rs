//! The domain core of a small discussion forum: input normalization and
//! validation, session tokens and their digests, password hashing, the records
//! of the HTTP interface, and the decisions that the request handlers take.
//!
//! Every function here is verified with Verus; calls into `uuid`, `sha2` and
//! `argon2` go through small trusted wrappers whose contracts are stated where
//! they are declared.
pub mod api;
pub mod auth;
pub mod model;
pub mod text;
pub mod validation;

pub use auth::{hash_password, new_id, new_session_token, token_digest, verify_password};
pub use model::{
    ApiError, Category, CategoryInput, IdResponse, ListResponse, LoginInput, Post, PostInput,
    RegisterInput, SessionResponse, Topic, TopicDetail, TopicInput, User, UserWithPassword,
};
pub use validation::{
    normalize_email, normalize_slug, normalize_username, validate_body, validate_title, DomainError,
};
