//! The records that the forum's HTTP interface reads and writes.
use vstd::prelude::*;

verus! {

#[derive(Debug, Clone, PartialEq, Eq)]
pub struct User {
    pub id: String,
    pub username: String,
    pub email: String,
    pub role: String,
    pub created_at: String,
}

#[derive(Debug, Clone, PartialEq, Eq)]
pub struct Category {
    pub id: String,
    pub name: String,
    pub slug: String,
    pub created_at: String,
}

#[derive(Debug, Clone, PartialEq, Eq)]
pub struct Topic {
    pub id: String,
    pub category_id: String,
    pub author_id: String,
    pub author_username: String,
    pub title: String,
    pub created_at: String,
    pub updated_at: String,
    pub post_count: i32,
}

#[derive(Debug, Clone, PartialEq, Eq)]
pub struct Post {
    pub id: String,
    pub topic_id: String,
    pub author_id: String,
    pub author_username: String,
    pub body: String,
    pub position: i32,
    pub created_at: String,
    pub updated_at: String,
}

#[derive(Debug)]
pub struct RegisterInput {
    pub username: String,
    pub email: String,
    pub password: String,
}

#[derive(Debug)]
pub struct LoginInput {
    pub login: String,
    pub password: String,
}

#[derive(Debug)]
pub struct CategoryInput {
    pub name: String,
    pub slug: String,
}

#[derive(Debug)]
pub struct TopicInput {
    pub category_id: String,
    pub title: String,
    pub body: String,
}

#[derive(Debug)]
pub struct PostInput {
    pub body: String,
}

#[derive(Debug)]
pub struct SessionResponse {
    pub token: String,
    pub user: User,
}

#[derive(Debug)]
pub struct TopicDetail {
    pub topic: Topic,
    pub posts: Vec<Post>,
}

/// The body of every error reply: `{"error": "..."}`.
#[derive(Debug)]
pub struct ApiError<'a> {
    pub error: &'a str,
}

#[derive(Debug)]
pub struct IdResponse {
    pub id: String,
}

#[derive(Debug)]
pub struct ListResponse<T> {
    pub items: Vec<T>,
}

/// A user record as stored, with its password hash.
#[derive(Debug)]
pub struct UserWithPassword {
    pub id: String,
    pub username: String,
    pub email: String,
    pub role: String,
    pub password_hash: String,
    pub created_at: String,
}

impl UserWithPassword {
    /// The user as others may see it: every field but the password hash.
    pub fn public(&self) -> (u: User)
        ensures
            u.id@ == self.id@,
            u.username@ == self.username@,
            u.email@ == self.email@,
            u.role@ == self.role@,
            u.created_at@ == self.created_at@,
    {
        User {
            id: self.id.clone(),
            username: self.username.clone(),
            email: self.email.clone(),
            role: self.role.clone(),
            created_at: self.created_at.clone(),
        }
    }
}

} // verus!
