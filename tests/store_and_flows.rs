use forum_core::credentials::hash_password;
use forum_core::errors::CustomAppError;
use forum_core::models::{
    ActivateUser, CreateAnswer, CreateQuestion, LoginUser, NewAnswer, NewQuestion, NewUser, Tag,
    UpdateAnswer, UpdateQuestion,
};
use forum_core::startup::AppState;
use forum_core::responses::ErrorResponse;
use forum_core::store::Store;

fn tag(id: &str) -> Tag {
    Tag { id: id.to_string(), name: id.to_string(), symbol: id.to_uppercase() }
}

fn cq(title: &str, author: u128, tags: &[&str]) -> CreateQuestion {
    CreateQuestion {
        title: title.to_string(),
        slug: title.to_lowercase(),
        content: format!("<p>{}</p>", title),
        raw_content: title.to_string(),
        author,
        tags: tags.iter().map(|t| t.to_string()).collect(),
    }
}

fn store_with_user() -> (Store, u128) {
    let mut store = Store::new();
    for t in ["rust", "web", "a", "b", "c", "d", "e"] {
        store.upsert_tag(tag(t));
    }
    let u = store
        .create_user("Ada".into(), "L".into(), "ada@x.com".into(), "hash".into(), 10)
        .unwrap();
    (store, u.id)
}

#[test]
fn users_have_unique_emails() {
    let (mut store, id) = store_with_user();
    assert_eq!(
        store.create_user("B".into(), "C".into(), "ada@x.com".into(), "h".into(), 11).err(),
        Some(CustomAppError::Conflict)
    );
    let other = store
        .create_user("B".into(), "C".into(), "bob@x.com".into(), "h".into(), 11)
        .unwrap();
    assert_ne!(other.id, id);
    assert!(!other.is_active);
    assert!(!other.is_staff);
}

#[test]
fn only_active_users_are_found() {
    let (mut store, id) = store_with_user();
    assert_eq!(
        store.get_user_by_email("ada@x.com").err(),
        Some(CustomAppError::UnauthorizedOrNotFound)
    );
    assert_eq!(store.get_user_by_id(id).err(), Some(CustomAppError::UnauthorizedOrNotFound));
    assert_eq!(store.activate_user(id), Ok(()));
    let u = store.get_user_by_email("ada@x.com").unwrap();
    assert_eq!(u.id, id);
    assert!(u.is_active);
    assert_eq!(store.get_user_by_id(id).unwrap().email, "ada@x.com");
    assert_eq!(store.activate_user(id + 1000), Ok(()));
    assert_eq!(store.get_user_by_id(id + 1000).err(), Some(CustomAppError::UnauthorizedOrNotFound));
    assert_eq!(store.activate_user(id), Ok(()));
    assert!(store.get_user_by_id(id).unwrap().is_active);
}

#[test]
fn superuser_is_upserted_by_email() {
    let (mut store, id) = store_with_user();
    let same = store
        .create_super_user_in_db("ada@x.com".into(), "h2".into(), "Ada2".into(), "M".into(), 20)
        .unwrap();
    assert_eq!(same, id);
    store.activate_user(id).unwrap();
    let u = store.get_user_by_id(id).unwrap();
    assert_eq!(u.first_name, "Ada2");
    assert_eq!(u.last_name, "M");
    assert_eq!(u.password, "hash");
    let admin = store
        .create_super_user_in_db("root@x.com".into(), "h".into(), "R".into(), "T".into(), 20)
        .unwrap();
    let a = store.get_user_by_id(admin).unwrap();
    assert!(a.is_active && a.is_staff && a.is_superuser);
}

#[test]
fn tags_are_validated() {
    let (store, _) = store_with_user();
    assert_eq!(store.validate_tags(&vec!["rust".to_string()]), Ok(()));
    assert_eq!(store.validate_tags(&vec![]), Err(CustomAppError::InvalidInput));
    assert_eq!(
        store.validate_tags(&vec!["rust".to_string(), "go".to_string()]),
        Err(CustomAppError::InvalidTag)
    );
}

#[test]
fn tag_upsert_replaces_by_id() {
    let (mut store, id) = store_with_user();
    store.upsert_tag(Tag { id: "rust".into(), name: "Rust".into(), symbol: "RS".into() });
    let q = store.create_question_in_db(cq("T", id, &["rust"]), 30).unwrap();
    assert_eq!(q.tags.len(), 1);
    assert_eq!(q.tags[0].name, "Rust");
    assert_eq!(q.tags[0].symbol, "RS");
}

#[test]
fn question_create_then_get() {
    let (mut store, id) = store_with_user();
    let created = store.create_question_in_db(cq("Why?", id, &["rust", "web"]), 30).unwrap();
    let got = store.get_question_from_db(created.id).unwrap();
    assert_eq!(got.title, "Why?");
    assert_eq!(got.slug, "why?");
    assert_eq!(got.raw_content, "Why?");
    assert_eq!(got.content, "<p>Why?</p>");
    assert_eq!(got.author.id, id);
    assert_eq!(got.author.email, "ada@x.com");
    assert_eq!(got.created_at, 30);
    assert_eq!(got.updated_at, 30);
    let names: Vec<&str> = got.tags.iter().map(|t| t.name.as_str()).collect();
    assert_eq!(names, vec!["rust", "web"]);
}

#[test]
fn question_tag_lists_are_checked() {
    let (mut store, id) = store_with_user();
    assert_eq!(
        store.create_question_in_db(cq("T", id, &[]), 30).err(),
        Some(CustomAppError::InvalidInput)
    );
    assert_eq!(
        store.create_question_in_db(cq("T", id, &["a", "b", "c", "d", "e"]), 30).err(),
        Some(CustomAppError::InvalidInput)
    );
    assert_eq!(
        store.create_question_in_db(cq("T", id, &["a", "a"]), 30).err(),
        Some(CustomAppError::InvalidInput)
    );
    assert_eq!(
        store.create_question_in_db(cq("T", id, &["a", "go"]), 30).err(),
        Some(CustomAppError::InvalidTag)
    );
    assert_eq!(
        store.create_question_in_db(cq("T", id + 1000, &["a"]), 30).err(),
        Some(CustomAppError::UnauthorizedOrNotFound)
    );
    assert!(store.get_all_questions_from_db().is_empty());
    assert!(store.create_question_in_db(cq("T", id, &["a", "b", "c", "d"]), 30).is_ok());
}

#[test]
fn only_the_author_updates_a_question() {
    let (mut store, a) = store_with_user();
    let b = store
        .create_user("B".into(), "C".into(), "bob@x.com".into(), "h".into(), 11)
        .unwrap()
        .id;
    let q = store.create_question_in_db(cq("Old", a, &["rust"]), 30).unwrap();
    assert_eq!(
        store.update_question_in_db(q.id, cq("New", b, &["web"]), 40).err(),
        Some(CustomAppError::UnauthorizedOrNotFound)
    );
    let same = store.get_question_from_db(q.id).unwrap();
    assert_eq!(same.title, "Old");
    assert_eq!(same.tags[0].id, "rust");
    assert_eq!(same.updated_at, 30);
    assert_eq!(
        store.update_question_in_db(q.id + 1000, cq("New", a, &["web"]), 40).err(),
        Some(CustomAppError::UnauthorizedOrNotFound)
    );
    let updated = store.update_question_in_db(q.id, cq("New", a, &["web", "a"]), 40).unwrap();
    assert_eq!(updated.id, q.id);
    assert_eq!(updated.title, "New");
    assert_eq!(updated.created_at, 30);
    assert_eq!(updated.updated_at, 40);
    let ids: Vec<&str> = updated.tags.iter().map(|t| t.id.as_str()).collect();
    assert_eq!(ids, vec!["web", "a"]);
}

#[test]
fn question_is_deleted_once_with_its_answers() {
    let (mut store, a) = store_with_user();
    let q = store.create_question_in_db(cq("Q", a, &["rust"]), 30).unwrap();
    let keep = store.create_question_in_db(cq("K", a, &["web"]), 31).unwrap();
    let ans = store
        .create_answer_in_db(
            CreateAnswer { content: "x".into(), raw_content: "x".into(), author: a, question: q.id },
            32,
        )
        .unwrap();
    store
        .create_answer_in_db(
            CreateAnswer { content: "y".into(), raw_content: "y".into(), author: a, question: keep.id },
            33,
        )
        .unwrap();
    assert_eq!(store.delete_question_from_db(a + 1000, q.id), Err(CustomAppError::UnauthorizedOrNotFound));
    assert_eq!(store.delete_question_from_db(a, q.id), Ok(()));
    assert_eq!(store.delete_question_from_db(a, q.id), Err(CustomAppError::UnauthorizedOrNotFound));
    assert_eq!(store.get_question_from_db(q.id).err(), Some(CustomAppError::UnauthorizedOrNotFound));
    assert_eq!(store.get_an_answer_from_db(ans.id).err(), Some(CustomAppError::UnauthorizedOrNotFound));
    assert_eq!(store.get_answers_from_db(keep.id).len(), 1);
    assert_eq!(store.get_all_questions_from_db().len(), 1);
}

#[test]
fn answers_are_owned_by_their_authors() {
    let (mut store, a) = store_with_user();
    let b = store
        .create_user("B".into(), "C".into(), "bob@x.com".into(), "h".into(), 11)
        .unwrap()
        .id;
    let q = store.create_question_in_db(cq("Q", a, &["rust"]), 30).unwrap();
    assert_eq!(
        store
            .create_answer_in_db(
                CreateAnswer { content: "x".into(), raw_content: "x".into(), author: b, question: q.id + 1000 },
                31,
            )
            .err(),
        Some(CustomAppError::UnauthorizedOrNotFound)
    );
    let ans = store
        .create_answer_in_db(
            CreateAnswer { content: "<p>x</p>".into(), raw_content: "x".into(), author: b, question: q.id },
            31,
        )
        .unwrap();
    assert_eq!(ans.author.email, "bob@x.com");
    assert_eq!(
        store
            .update_answer_in_db(
                UpdateAnswer { content: "z".into(), raw_content: "z".into(), author: a, answer_id: ans.id },
                40,
            )
            .err(),
        Some(CustomAppError::UnauthorizedOrNotFound)
    );
    let up = store
        .update_answer_in_db(
            UpdateAnswer { content: "<p>z</p>".into(), raw_content: "z".into(), author: b, answer_id: ans.id },
            40,
        )
        .unwrap();
    assert_eq!(up.raw_content, "z");
    assert_eq!(up.created_at, 31);
    assert_eq!(up.updated_at, 40);
    let listed = store.get_answers_from_db(q.id);
    assert_eq!(listed.len(), 1);
    assert_eq!(listed[0].content, "<p>z</p>");
    assert_eq!(store.delete_answer_from_db(a, ans.id), Err(CustomAppError::UnauthorizedOrNotFound));
    assert_eq!(store.delete_answer_from_db(b, ans.id), Ok(()));
    assert_eq!(store.delete_answer_from_db(b, ans.id), Err(CustomAppError::UnauthorizedOrNotFound));
    assert!(store.get_answers_from_db(q.id).is_empty());
}

fn state_with_tags() -> AppState {
    let mut state = AppState::new(3600, 900);
    for t in ["rust", "web"] {
        state.db_store.upsert_tag(Tag { id: t.to_string(), name: t.to_string(), symbol: t.to_string() });
    }
    state
}

fn new_user(email: &str, password: &str) -> NewUser {
    NewUser {
        email: email.to_string(),
        password: password.to_string(),
        first_name: "U".to_string(),
        last_name: "X".to_string(),
    }
}

#[test]
fn register_activate_login_ask_and_read_back() {
    let mut state = state_with_tags();
    let hash = hash_password(b"pw").unwrap();
    let (user, code) = state
        .register_hashed_user(new_user("u@x.com", "pw"), hash, 382913, 100)
        .unwrap();
    assert_eq!(code, "482913");
    assert!(!user.is_active);
    assert_eq!(
        state.activate_user_account(ActivateUser { id: user.id, token: "482913".into() }, 110),
        Ok(())
    );
    let cookie = state
        .login_user(LoginUser { email: "u@x.com".into(), password: "pw".into() }, 120)
        .unwrap();
    assert_eq!(cookie.name, "sessionid");
    assert_eq!(cookie.value.len(), 36);
    assert_eq!(cookie.max_age_seconds, 3600);
    assert!(cookie.secure && cookie.http_only && cookie.same_site_strict);
    assert_eq!(cookie.path, "/");
    let token = Some(cookie.value.as_str());
    let asked = state
        .ask_question(
            token,
            NewQuestion { title: "Why?".into(), content: "Because.".into(), tags: "rust,web".into() },
            130,
        )
        .unwrap();
    let got = state.get_question(asked.id).unwrap();
    assert_eq!(got.title, "Why?");
    assert_eq!(got.slug, "why");
    assert_eq!(got.raw_content, "Because.");
    assert_eq!(got.content, "<p>Because.</p>\n");
    assert_eq!(got.author.id, user.id);
    assert_eq!(got.author.email, "u@x.com");
    assert_eq!(got.author.first_name, "U");
    assert!(got.author.is_active);
    let names: Vec<&str> = got.tags.iter().map(|t| t.name.as_str()).collect();
    assert_eq!(names, vec!["rust", "web"]);
}

#[test]
fn activation_is_single_use_through_the_state() {
    let mut state = state_with_tags();
    let hash = hash_password(b"pw").unwrap();
    let (user, code) = state.register_hashed_user(new_user("u@x.com", "pw"), hash, 7, 100).unwrap();
    assert_eq!(code, "100007");
    assert_eq!(
        state.activate_user_account(ActivateUser { id: user.id, token: "100008".into() }, 110),
        Err(CustomAppError::InvalidOrExpired)
    );
    assert_eq!(
        state.activate_user_account(ActivateUser { id: user.id, token: code.clone() }, 110),
        Ok(())
    );
    assert_eq!(
        state.activate_user_account(ActivateUser { id: user.id, token: code }, 111),
        Err(CustomAppError::InvalidOrExpired)
    );
}

#[test]
fn registration_conflicts_and_real_hashing() {
    let mut state = state_with_tags();
    let (user, code) = state.register_user(new_user("u@x.com", "secret"), 100).unwrap();
    assert_eq!(code.len(), 6);
    assert_eq!(
        state.register_user(new_user("u@x.com", "other"), 101).err(),
        Some(CustomAppError::Conflict)
    );
    assert_eq!(
        state.login_user(LoginUser { email: "u@x.com".into(), password: "secret".into() }, 102).err(),
        Some(CustomAppError::InvalidInput)
    );
    state.activate_user_account(ActivateUser { id: user.id, token: code }, 102).unwrap();
    assert_eq!(
        state.login_user(LoginUser { email: "u@x.com".into(), password: "wrong".into() }, 103).err(),
        Some(CustomAppError::InvalidInput)
    );
    assert!(state
        .login_user(LoginUser { email: "u@x.com".into(), password: "secret".into() }, 103)
        .is_ok());
}

#[test]
fn bad_sessions_are_refused() {
    let mut state = state_with_tags();
    let hash = hash_password(b"pw").unwrap();
    let (user, code) = state.register_hashed_user(new_user("u@x.com", "pw"), hash, 1, 0).unwrap();
    state.activate_user_account(ActivateUser { id: user.id, token: code }, 1).unwrap();
    assert_eq!(state.validate_authentication_session(None, 5), Err(CustomAppError::Unauthenticated));
    assert_eq!(
        state.validate_authentication_session(Some("not-a-token"), 5),
        Err(CustomAppError::Unauthenticated)
    );
    assert_eq!(
        state.validate_authentication_session(Some("550e8400-e29b-41d4-a716-446655440000"), 5),
        Err(CustomAppError::Unauthenticated)
    );
    let cookie = state
        .login_with_token(LoginUser { email: "u@x.com".into(), password: "pw".into() }, 77, 10)
        .unwrap();
    assert_eq!(cookie.value, "00000000-0000-0000-0000-00000000004d");
    assert_eq!(uuid::Uuid::parse_str(&cookie.value).unwrap().as_u128(), 77);
    let t = Some(cookie.value.as_str());
    assert_eq!(state.validate_authentication_session(t, 11), Ok(user.id));
    assert_eq!(state.get_user_id_from_session(t, 11), Ok((user.id, 77)));
    assert_eq!(state.get_current_user(t, 11).unwrap().email, "u@x.com");
    assert_eq!(state.validate_authentication_session(t, 3610), Err(CustomAppError::Unauthenticated));
    assert_eq!(
        state
            .login_with_token(LoginUser { email: "u@x.com".into(), password: "pw".into() }, 77, 12)
            .err(),
        Some(CustomAppError::InternalError)
    );
    assert_eq!(state.logout_user(t, 12), Ok(()));
    assert_eq!(state.validate_authentication_session(t, 12), Err(CustomAppError::Unauthenticated));
    assert_eq!(state.logout_user(t, 12), Err(CustomAppError::Unauthenticated));
}

#[test]
fn asking_checks_the_submission() {
    let mut state = state_with_tags();
    let hash = hash_password(b"pw").unwrap();
    let (user, code) = state.register_hashed_user(new_user("u@x.com", "pw"), hash, 1, 0).unwrap();
    state.activate_user_account(ActivateUser { id: user.id, token: code }, 1).unwrap();
    let cookie = state
        .login_with_token(LoginUser { email: "u@x.com".into(), password: "pw".into() }, 5, 2)
        .unwrap();
    let t = Some(cookie.value.as_str());
    let ask = |title: &str, content: &str, tags: &str| NewQuestion {
        title: title.into(),
        content: content.into(),
        tags: tags.into(),
    };
    assert_eq!(state.ask_question(None, ask("T", "C", "rust"), 3).err(), Some(CustomAppError::Unauthenticated));
    assert_eq!(state.ask_question(t, ask("", "C", "rust"), 3).err(), Some(CustomAppError::InvalidInput));
    assert_eq!(state.ask_question(t, ask("T", "", "rust"), 3).err(), Some(CustomAppError::InvalidInput));
    assert_eq!(state.ask_question(t, ask("T", "C", ""), 3).err(), Some(CustomAppError::InvalidInput));
    assert_eq!(
        state.ask_question(t, ask("T", "C", "a,b,c,d,e"), 3).err(),
        Some(CustomAppError::InvalidInput)
    );
    assert_eq!(state.ask_question(t, ask("T", "C", "rust,go"), 3).err(), Some(CustomAppError::InvalidTag));
    let q = state.ask_question(t, ask("Hello, World!", "*hi*", "web, rust, web"), 3).unwrap();
    assert_eq!(q.slug, "hello-world");
    assert_eq!(q.content, "<p><em>hi</em></p>\n");
    let ids: Vec<&str> = q.tags.iter().map(|x| x.id.as_str()).collect();
    assert_eq!(ids, vec!["web", "rust"]);
    assert_eq!(state.all_questions().len(), 1);
}

#[test]
fn question_and_answer_routes_check_ownership() {
    let mut state = state_with_tags();
    let mut cookies = Vec::new();
    for (i, email) in ["a@x.com", "b@x.com"].iter().enumerate() {
        let hash = hash_password(b"pw").unwrap();
        let (user, code) = state.register_hashed_user(new_user(email, "pw"), hash, 1, 0).unwrap();
        state.activate_user_account(ActivateUser { id: user.id, token: code }, 1).unwrap();
        let c = state
            .login_with_token(LoginUser { email: email.to_string(), password: "pw".into() }, 100 + i as u128, 2)
            .unwrap();
        cookies.push(c.value);
    }
    let a = Some(cookies[0].as_str());
    let b = Some(cookies[1].as_str());
    let q = state
        .ask_question(a, NewQuestion { title: "Q".into(), content: "C".into(), tags: "rust".into() }, 3)
        .unwrap();
    let upd = || UpdateQuestion { title: "Q2".into(), tags: "web".into(), content: "C2".into() };
    assert_eq!(state.update_a_question(b, q.id, upd(), 4).err(), Some(CustomAppError::UnauthorizedOrNotFound));
    assert_eq!(state.get_question(q.id).unwrap().title, "Q");
    assert_eq!(
        state
            .update_a_question(b, q.id, UpdateQuestion { title: "".into(), tags: "".into(), content: "".into() }, 4)
            .err(),
        Some(CustomAppError::UnauthorizedOrNotFound)
    );
    let q2 = state.update_a_question(a, q.id, upd(), 4).unwrap();
    assert_eq!(q2.slug, "q2");
    assert_eq!(q2.tags[0].id, "web");
    let ans = state.answer_question(b, q.id, NewAnswer { content: "**A**".into() }, 5).unwrap();
    assert_eq!(ans.content, "<p><strong>A</strong></p>\n");
    assert_eq!(
        state.update_answer(a, ans.id, NewAnswer { content: "x".into() }, 6).err(),
        Some(CustomAppError::UnauthorizedOrNotFound)
    );
    let ans2 = state.update_answer(b, ans.id, NewAnswer { content: "B".into() }, 6).unwrap();
    assert_eq!(ans2.raw_content, "B");
    assert_eq!(state.question_answers(q.id).len(), 1);
    assert_eq!(state.delete_an_answer(a, ans.id, 7), Err(CustomAppError::UnauthorizedOrNotFound));
    assert_eq!(state.delete_an_answer(b, ans.id, 7), Ok(()));
    assert_eq!(state.delete_a_question(b, q.id, 8), Err(CustomAppError::UnauthorizedOrNotFound));
    assert_eq!(state.delete_a_question(a, q.id, 8), Ok(()));
    assert_eq!(state.delete_a_question(a, q.id, 9), Err(CustomAppError::UnauthorizedOrNotFound));
}

#[test]
fn tag_ids_are_found_by_name() {
    let mut store = Store::new();
    store.upsert_tag(Tag { id: "btc".into(), name: "bitcoin".into(), symbol: "BTC".into() });
    store.upsert_tag(Tag { id: "eth".into(), name: "ethereum".into(), symbol: "ETH".into() });
    store.upsert_tag(Tag { id: "sol".into(), name: "solana".into(), symbol: "SOL".into() });
    let names = vec!["solana".to_string(), "bitcoin".to_string(), "doge".to_string()];
    assert_eq!(store.get_tag_ids_from_db(&names), vec!["btc".to_string(), "sol".to_string()]);
    assert!(store.get_tag_ids_from_db(&Vec::new()).is_empty());
}

#[test]
fn superuser_is_seeded_with_a_hashed_password() {
    let mut state = state_with_tags();
    let admin = forum_core::settings::SuperUser {
        email: "root@x.com".into(),
        password: "s3cret".into(),
        first_name: "Root".into(),
        last_name: "Admin".into(),
    };
    let id = state.create_super_user(admin.clone(), 5).unwrap();
    assert_eq!(state.create_super_user(admin, 6), Ok(id));
    let stored = state.db_store.get_user_by_id(id).unwrap();
    assert!(stored.is_superuser && stored.is_staff && stored.is_active);
    assert_ne!(stored.password, "s3cret");
    let cookie = state
        .login_user(LoginUser { email: "root@x.com".into(), password: "s3cret".into() }, 7)
        .unwrap();
    assert_eq!(state.validate_authentication_session(Some(cookie.value.as_str()), 8), Ok(id));
}

#[test]
fn error_payload_matches_the_category() {
    let body = ErrorResponse::from_error(CustomAppError::UnauthorizedOrNotFound);
    assert_eq!(body.status_code, 404);
    assert_eq!(body.message, "Resource not found or you are not allowed to perform this operation");
    let body = ErrorResponse::from_error(CustomAppError::Conflict);
    assert_eq!(body.status_code, 400);
    assert_eq!(body.message, "An account with this email already exists.");
}
