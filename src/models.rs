use vstd::prelude::*;

verus! {

/// A stored account. `password` holds the Argon2 hash, never the password.
#[derive(Debug)]
pub struct User {
    pub id: u128,
    pub email: String,
    pub password: String,
    pub first_name: String,
    pub last_name: String,
    pub is_active: bool,
    pub is_staff: bool,
    pub is_superuser: bool,
    pub thumbnail: Option<String>,
    pub date_joined: u64,
}

/// The profile of an account that other users may see.
#[derive(Debug)]
pub struct UserVisible {
    pub id: u128,
    pub email: String,
    pub first_name: String,
    pub last_name: String,
    pub is_active: bool,
    pub is_staff: bool,
    pub is_superuser: bool,
    pub thumbnail: Option<String>,
    pub date_joined: u64,
}

pub open spec fn visible_of(u: User) -> UserVisible {
    UserVisible {
        id: u.id,
        email: u.email,
        first_name: u.first_name,
        last_name: u.last_name,
        is_active: u.is_active,
        is_staff: u.is_staff,
        is_superuser: u.is_superuser,
        thumbnail: u.thumbnail,
        date_joined: u.date_joined,
    }
}

pub fn copy_string_option(o: &Option<String>) -> (r: Option<String>)
    ensures
        r == *o,
{
    match o {
        Some(s) => Some(s.clone()),
        None => None,
    }
}

impl User {
    /// A copy of the row.
    pub fn copy(&self) -> (r: User)
        ensures
            r == *self,
    {
        User {
            id: self.id,
            email: self.email.clone(),
            password: self.password.clone(),
            first_name: self.first_name.clone(),
            last_name: self.last_name.clone(),
            is_active: self.is_active,
            is_staff: self.is_staff,
            is_superuser: self.is_superuser,
            thumbnail: copy_string_option(&self.thumbnail),
            date_joined: self.date_joined,
        }
    }

    /// The visible profile of this account.
    pub fn visible(&self) -> (r: UserVisible)
        ensures
            r == visible_of(*self),
    {
        UserVisible {
            id: self.id,
            email: self.email.clone(),
            first_name: self.first_name.clone(),
            last_name: self.last_name.clone(),
            is_active: self.is_active,
            is_staff: self.is_staff,
            is_superuser: self.is_superuser,
            thumbnail: copy_string_option(&self.thumbnail),
            date_joined: self.date_joined,
        }
    }
}

/// A tag that questions can carry.
#[derive(Debug)]
pub struct Tag {
    pub id: String,
    pub name: String,
    pub symbol: String,
}

impl Tag {
    pub fn copy(&self) -> (r: Tag)
        ensures
            r == *self,
    {
        Tag { id: self.id.clone(), name: self.name.clone(), symbol: self.symbol.clone() }
    }
}

/// A stored question, without its tags.
#[derive(Debug)]
pub struct Question {
    pub id: u128,
    pub title: String,
    pub slug: String,
    pub content: String,
    pub raw_content: String,
    pub author: u128,
    pub created_at: u64,
    pub updated_at: u64,
}

impl Question {
    pub fn copy(&self) -> (r: Question)
        ensures
            r == *self,
    {
        Question {
            id: self.id,
            title: self.title.clone(),
            slug: self.slug.clone(),
            content: self.content.clone(),
            raw_content: self.raw_content.clone(),
            author: self.author,
            created_at: self.created_at,
            updated_at: self.updated_at,
        }
    }
}

/// A stored answer.
#[derive(Debug)]
pub struct Answer {
    pub id: u128,
    pub content: String,
    pub raw_content: String,
    pub author: u128,
    pub question: u128,
    pub created_at: u64,
    pub updated_at: u64,
}

impl Answer {
    pub fn copy(&self) -> (r: Answer)
        ensures
            r == *self,
    {
        Answer {
            id: self.id,
            content: self.content.clone(),
            raw_content: self.raw_content.clone(),
            author: self.author,
            question: self.question,
            created_at: self.created_at,
            updated_at: self.updated_at,
        }
    }
}

/// A question as a caller submits it: tags are one comma-separated text.
#[derive(Debug)]
pub struct NewQuestion {
    pub title: String,
    pub content: String,
    pub tags: String,
}

/// New title, tags and content for an existing question.
#[derive(Debug)]
pub struct UpdateQuestion {
    pub title: String,
    pub tags: String,
    pub content: String,
}

/// What the store writes for a new or updated question.
#[derive(Debug)]
pub struct CreateQuestion {
    pub title: String,
    pub slug: String,
    pub content: String,
    pub raw_content: String,
    pub author: u128,
    pub tags: Vec<String>,
}

/// An answer as a caller submits it.
#[derive(Debug)]
pub struct NewAnswer {
    pub content: String,
}

/// What the store writes for a new answer.
#[derive(Debug)]
pub struct CreateAnswer {
    pub content: String,
    pub raw_content: String,
    pub author: u128,
    pub question: u128,
}

/// What the store writes over an existing answer.
#[derive(Debug)]
pub struct UpdateAnswer {
    pub content: String,
    pub raw_content: String,
    pub author: u128,
    pub answer_id: u128,
}

/// A question composed with its author's profile and its tags.
#[derive(Debug)]
pub struct QuestionAuthorWithTags {
    pub id: u128,
    pub title: String,
    pub slug: String,
    pub content: String,
    pub raw_content: String,
    pub author: UserVisible,
    pub created_at: u64,
    pub updated_at: u64,
    pub tags: Vec<Tag>,
}

/// An answer composed with its author's profile.
#[derive(Debug)]
pub struct AnswerAuthor {
    pub id: u128,
    pub content: String,
    pub raw_content: String,
    pub author: UserVisible,
    pub created_at: u64,
    pub updated_at: u64,
}

/// A registration request.
#[derive(Debug)]
pub struct NewUser {
    pub email: String,
    pub password: String,
    pub first_name: String,
    pub last_name: String,
}

/// A login request.
#[derive(Debug)]
pub struct LoginUser {
    pub email: String,
    pub password: String,
}

/// An activation request: the account and the code mailed to it.
#[derive(Debug)]
pub struct ActivateUser {
    pub id: u128,
    pub token: String,
}

} // verus!
