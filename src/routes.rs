use crate::activation::{accepts, activation_number, code_hash};
use crate::credentials::{argon2_verdict, hash_password, verify_password, PasswordError};
use crate::errors::CustomAppError;
use crate::ids::{new_uuid_v4, parse_uuid, random_u32, uuid_hyphenated, uuid_parsed, uuid_to_text};
use crate::models::{
    visible_of, ActivateUser, AnswerAuthor, CreateAnswer, CreateQuestion, LoginUser, NewAnswer,
    NewQuestion, NewUser, QuestionAuthorWithTags, Tag, UpdateAnswer, UpdateQuestion, User,
    UserVisible,
};
use crate::render::{convert_markdown_to_html, markdown_html, slug_of, slugify};
use crate::session::{expiry, resolved, Session};
use crate::settings::SuperUser;
use crate::startup::AppState;
use crate::store::{
    active_user_by_email, active_user_by_id, answer_at, answer_composes, answer_of, composes,
    email_taken, lemma_created_question_found, model_wf, owns_answer, owns_question, question_at,
    question_exists, question_input_error, registered_user, superuser_upsert, tag_exists,
    user_at, user_exists, with_answer, with_answer_at, with_question, with_question_at, with_user,
    with_user_at, without_answer, without_question, QuestionRecord, StoreModel,
};
use crate::text::{
    decimal, dedup_first, dedup_keep_first, lemma_dedup_first_props, split_at_commas,
    split_commas, trim, trim_whitespace, views_of,
};
use vstd::prelude::*;
use vstd::utf8::encode_utf8;

verus! {

/// The cookie that carries a session token to the browser.
#[derive(Debug)]
pub struct SessionCookie {
    pub name: String,
    pub value: String,
    pub max_age_seconds: u64,
    pub secure: bool,
    pub http_only: bool,
    pub same_site_strict: bool,
    pub path: String,
}

/// `c` delivers `token` as `sessionid`: secure, HTTP-only, strictly
/// same-site, for the whole site, and as long as the session lasts.
pub open spec fn is_session_cookie(c: SessionCookie, token: u128, ttl: u64) -> bool {
    &&& c.name@ == "sessionid"@
    &&& c.value@ == uuid_hyphenated(token)
    &&& uuid_parsed(c.value@) == Some(token)
    &&& c.max_age_seconds == ttl
    &&& c.secure
    &&& c.http_only
    &&& c.same_site_strict
    &&& c.path@ == "/"@
}

/// Builds the cookie for a session token.
pub fn session_cookie(token: u128, ttl: u64) -> (r: SessionCookie)
    ensures
        is_session_cookie(r, token, ttl),
{
    SessionCookie {
        name: String::from_str("sessionid"),
        value: uuid_to_text(token),
        max_age_seconds: ttl,
        secure: true,
        http_only: true,
        same_site_strict: true,
        path: String::from_str("/"),
    }
}

/// Whom a request's session cookie identifies at time `now`: a missing
/// cookie, one that is not a token, and an unknown or expired token are all
/// refused as unauthenticated.
pub open spec fn session_lookup(m: Map<u128, Session>, cookie: Option<&str>, now: u64) -> Result<
    u128,
    CustomAppError,
> {
    match cookie {
        None => Err(CustomAppError::Unauthenticated),
        Some(text) => match uuid_parsed(text@) {
            None => Err(CustomAppError::Unauthenticated),
            Some(token) => resolved(m, token, now),
        },
    }
}

/// What registering `new_user` with the password hash `hash` and the random
/// draw `random` does to the tables and the pending codes.
pub open spec fn registration_outcome(
    db: StoreModel,
    codes: Map<u128, (Seq<char>, u64)>,
    db2: StoreModel,
    codes2: Map<u128, (Seq<char>, u64)>,
    new_user: NewUser,
    hash: String,
    random: u32,
    ttl: u64,
    now: u64,
    r: Result<(UserVisible, String), CustomAppError>,
) -> bool {
    if email_taken(db, new_user.email@) {
        r == Err::<(UserVisible, String), CustomAppError>(CustomAppError::Conflict) && db2 == db
            && codes2 == codes
    } else if db.next_id == u128::MAX {
        r == Err::<(UserVisible, String), CustomAppError>(CustomAppError::InternalError) && db2
            == db && codes2 == codes
    } else {
        let u = registered_user(
            db.next_id,
            new_user.email,
            hash,
            new_user.first_name,
            new_user.last_name,
            now,
        );
        &&& db2 == with_user(db, u)
        &&& r matches Ok((v, code)) && v == visible_of(u) && code@ == decimal(
            activation_number(random),
        ) && codes2 == codes.insert(u.id, (code_hash(code@), expiry(now, ttl)))
    }
}

/// What a login attempt with the token `token` does to the sessions.
pub open spec fn login_outcome(
    db: StoreModel,
    sessions: Map<u128, Session>,
    sessions2: Map<u128, Session>,
    login: LoginUser,
    token: u128,
    ttl: u64,
    now: u64,
    r: Result<SessionCookie, CustomAppError>,
) -> bool {
    match active_user_by_email(db, login.email@) {
        None => r == Err::<SessionCookie, CustomAppError>(CustomAppError::InvalidInput) && sessions2
            == sessions,
        Some(u) => match argon2_verdict(u.password@, encode_utf8(login.password@)) {
            Some(true) => if sessions.contains_key(token) {
                r == Err::<SessionCookie, CustomAppError>(CustomAppError::InternalError)
                    && sessions2 == sessions
            } else {
                &&& sessions2 == sessions.insert(
                    token,
                    Session { user_id: u.id, expires_at: expiry(now, ttl) },
                )
                &&& r matches Ok(c) && is_session_cookie(c, token, ttl)
            },
            Some(false) => r == Err::<SessionCookie, CustomAppError>(CustomAppError::InvalidInput)
                && sessions2 == sessions,
            None => r == Err::<SessionCookie, CustomAppError>(CustomAppError::InternalError)
                && sessions2 == sessions,
        },
    }
}

/// The pieces of a comma-separated tag text, each without surrounding white
/// space.
pub open spec fn tag_pieces(text: Seq<char>) -> Seq<Seq<char>> {
    split_commas(text).map_values(|p: Seq<char>| trim(p))
}

/// The tag ids a comma-separated text names, each once, in order of first
/// appearance.
pub open spec fn normalized_tags(text: Seq<char>) -> Seq<Seq<char>> {
    dedup_first(tag_pieces(text))
}

/// A tag text that is malformed: more than four pieces, counted before
/// repeats are dropped, or a piece that is empty once trimmed.
pub open spec fn tag_text_malformed(text: Seq<char>) -> bool {
    tag_pieces(text).len() > 4 || tag_pieces(text).contains(Seq::<char>::empty())
}

/// Splits a comma-separated tag text into tag ids and drops repeated ones.
pub fn parse_tag_ids(text: &str) -> (r: Result<Vec<String>, CustomAppError>)
    ensures
        tag_text_malformed(text@) ==> r == Err::<Vec<String>, CustomAppError>(
            CustomAppError::InvalidInput,
        ),
        !tag_text_malformed(text@) ==> (r matches Ok(v) && views_of(v@) == normalized_tags(
            text@,
        )),
{
    let pieces = split_at_commas(text);
    if pieces.len() > 4 {
        return Err(CustomAppError::InvalidInput);
    }
    let mut trimmed: Vec<String> = Vec::new();
    let mut i: usize = 0;
    while i < pieces.len()
        invariant
            i <= pieces@.len(),
            views_of(pieces@) == split_commas(text@),
            trimmed@.len() == i,
            forall|j: int| 0 <= j < i ==> #[trigger] trimmed@[j]@ == trim(pieces@[j]@),
        decreases pieces@.len() - i,
    {
        trimmed.push(trim_whitespace(pieces[i].as_str()));
        i = i + 1;
    }
    assert(views_of(trimmed@) =~= tag_pieces(text@)) by {
        assert forall|j: int| 0 <= j < trimmed@.len() implies views_of(trimmed@)[j] == tag_pieces(
            text@,
        )[j] by {
            assert(views_of(pieces@)[j] == pieces@[j]@);
        }
    }
    let mut k: usize = 0;
    while k < trimmed.len()
        invariant
            k <= trimmed@.len(),
            views_of(trimmed@) == tag_pieces(text@),
            forall|j: int| 0 <= j < k ==> trimmed@[j]@.len() > 0,
        decreases trimmed@.len() - k,
    {
        if trimmed[k].unicode_len() == 0 {
            assert(tag_pieces(text@)[k as int] == Seq::<char>::empty());
            return Err(CustomAppError::InvalidInput);
        }
        k = k + 1;
    }
    assert(!tag_pieces(text@).contains(Seq::<char>::empty())) by {
        if tag_pieces(text@).contains(Seq::<char>::empty()) {
            let j = choose|j: int|
                0 <= j < tag_pieces(text@).len() && tag_pieces(text@)[j] == Seq::<char>::empty();
            assert(trimmed@[j]@ == views_of(trimmed@)[j]);
        }
    }
    Ok(dedup_keep_first(trimmed))
}

/// A question text that is refused before any table is read: an empty
/// title, content or tag text, or a malformed tag text.
pub open spec fn question_text_invalid(
    title: Seq<char>,
    content: Seq<char>,
    tags: Seq<char>,
) -> bool {
    title.len() == 0 || content.len() == 0 || tags.len() == 0 || tag_text_malformed(tags)
}

/// `q` carries the title, content and tags that were submitted: the slug is
/// derived from the title, the content rendered from its Markdown source.
pub open spec fn carries_submission(
    q: QuestionRecord,
    title: Seq<char>,
    content: Seq<char>,
    tags: Seq<char>,
) -> bool {
    &&& q.question.title@ == title
    &&& q.question.slug@ == slug_of(title)
    &&& q.question.content@ == markdown_html(content)
    &&& q.question.raw_content@ == content
    &&& q.tags == normalized_tags(tags)
}

/// Normalising a tag text leaves no id twice and keeps every id it named.
pub proof fn lemma_normalized_tags(text: Seq<char>)
    ensures
        normalized_tags(text).no_duplicates(),
        forall|id: Seq<char>| normalized_tags(text).contains(id) <==> tag_pieces(text).contains(id),
        normalized_tags(text).len() <= tag_pieces(text).len(),
{
    lemma_dedup_first_props(tag_pieces(text));
}

/// A question that was asked is read back under its new id with the title,
/// slug, content and tags that were submitted.
pub proof fn lemma_asked_question_read_back(
    s: StoreModel,
    q: QuestionRecord,
    title: Seq<char>,
    content: Seq<char>,
    tags: Seq<char>,
    v: QuestionAuthorWithTags,
)
    requires
        model_wf(s),
        q.question.id == s.next_id,
        carries_submission(q, title, content, tags),
        question_input_error(s, q.question.author, q.tags) is None,
        composes(
            with_question(s, q),
            question_at(with_question(s, q), q.question.id)->Some_0,
            v,
        ),
    ensures
        question_at(with_question(s, q), q.question.id) == Some(q),
        v.id == q.question.id,
        v.title@ == title,
        v.slug@ == slug_of(title),
        v.raw_content@ == content,
        v.content@ == markdown_html(content),
        v.tags@.map_values(|t: Tag| t.id@) == normalized_tags(tags),
{
    lemma_created_question_found(s, q);
    let t = with_question(s, q);
    assert forall|k: int| 0 <= k < q.tags.len() implies tag_exists(t, #[trigger] q.tags[k]) by {
        assert(tag_exists(s, q.tags[k]));
        let j = choose|j: int| 0 <= j < s.tags.len() && s.tags[j].id@ == q.tags[k];
        assert(t.tags[j].id@ == q.tags[k]);
    }
    assert(v.tags@.map_values(|t: Tag| t.id@) =~= normalized_tags(tags));
}

/// The cookie of a successful login, read back before the session lapses,
/// names the account that logged in.
pub proof fn lemma_login_cookie_resolves(
    db: StoreModel,
    sessions: Map<u128, Session>,
    sessions2: Map<u128, Session>,
    login: LoginUser,
    token: u128,
    ttl: u64,
    now: u64,
    later: u64,
    r: Result<SessionCookie, CustomAppError>,
    text: &str,
)
    requires
        login_outcome(db, sessions, sessions2, login, token, ttl, now, r),
        r matches Ok(c) && text@ == c.value@,
        later < expiry(now, ttl),
    ensures
        active_user_by_email(db, login.email@) matches Some(u) && session_lookup(
            sessions2,
            Some(text),
            later,
        ) == Ok::<u128, CustomAppError>(u.id),
{
}

impl AppState {
    /// Resolves the session cookie of a request to the user id and the
    /// token.
    pub fn get_user_id_from_session(&self, session_id: Option<&str>, now: u64) -> (r: Result<
        (u128, u128),
        CustomAppError,
    >)
        ensures
            match session_lookup(self.sessions@, session_id, now) {
                Ok(u) => r matches Ok((user, token)) && user == u && session_id is Some
                    && uuid_parsed(session_id->Some_0@) == Some(token),
                Err(e) => r == Err::<(u128, u128), CustomAppError>(e),
            },
    {
        let text = match session_id {
            Some(t) => t,
            None => {
                return Err(CustomAppError::Unauthenticated);
            },
        };
        let token = match parse_uuid(text) {
            Some(token) => token,
            None => {
                return Err(CustomAppError::Unauthenticated);
            },
        };
        match self.sessions.resolve_session(token, now) {
            Ok(user) => Ok((user, token)),
            Err(e) => Err(e),
        }
    }

    /// Runs before every protected operation and tells who the caller is.
    pub fn validate_authentication_session(&self, session_id: Option<&str>, now: u64) -> (r:
        Result<u128, CustomAppError>)
        ensures
            r == session_lookup(self.sessions@, session_id, now),
    {
        match self.get_user_id_from_session(session_id, now) {
            Ok((user, _token)) => Ok(user),
            Err(e) => Err(e),
        }
    }

    /// Ends the caller's session.
    pub fn logout_user(&mut self, session_id: Option<&str>, now: u64) -> (r: Result<
        (),
        CustomAppError,
    >)
        ensures
            final(self).db_store@ == old(self).db_store@,
            final(self).activations@ == old(self).activations@,
            final(self).session_ttl == old(self).session_ttl,
            final(self).activation_ttl == old(self).activation_ttl,
            match session_lookup(old(self).sessions@, session_id, now) {
                Ok(_) => r is Ok && session_id is Some && uuid_parsed(session_id->Some_0@) is Some
                    && final(self).sessions@ == old(self).sessions@.remove(
                    uuid_parsed(session_id->Some_0@)->Some_0,
                ),
                Err(e) => r == Err::<(), CustomAppError>(e)
                    && final(self).sessions@ == old(self).sessions@,
            },
    {
        match self.get_user_id_from_session(session_id, now) {
            Ok((_user, token)) => {
                self.sessions.revoke_session(token);
                Ok(())
            },
            Err(e) => Err(e),
        }
    }

    /// The visible profile of the caller.
    pub fn get_current_user(&self, session_id: Option<&str>, now: u64) -> (r: Result<
        UserVisible,
        CustomAppError,
    >)
        requires
            self.wf(),
        ensures
            match session_lookup(self.sessions@, session_id, now) {
                Err(e) => r == Err::<UserVisible, CustomAppError>(e),
                Ok(id) => match active_user_by_id(self.db_store@, id) {
                    Some(u) => r == Ok::<UserVisible, CustomAppError>(visible_of(u)),
                    None => r == Err::<UserVisible, CustomAppError>(
                        CustomAppError::UnauthorizedOrNotFound,
                    ),
                },
            },
    {
        let user_id = match self.validate_authentication_session(session_id, now) {
            Ok(id) => id,
            Err(e) => {
                return Err(e);
            },
        };
        match self.db_store.get_user_by_id(user_id) {
            Ok(u) => Ok(u.visible()),
            Err(e) => Err(e),
        }
    }

    /// Registers an account from an already hashed password and issues the
    /// activation code that the random draw `random` gives.
    pub fn register_hashed_user(
        &mut self,
        new_user: NewUser,
        password_hash: String,
        random: u32,
        now: u64,
    ) -> (r: Result<(UserVisible, String), CustomAppError>)
        requires
            old(self).wf(),
        ensures
            final(self).wf(),
            final(self).sessions@ == old(self).sessions@,
            final(self).session_ttl == old(self).session_ttl,
            final(self).activation_ttl == old(self).activation_ttl,
            registration_outcome(
                old(self).db_store@,
                old(self).activations@,
                final(self).db_store@,
                final(self).activations@,
                new_user,
                password_hash,
                random,
                old(self).activation_ttl,
                now,
                r,
            ),
    {
        let ghost nu = new_user;
        let user = match self.db_store.create_user(
            new_user.first_name,
            new_user.last_name,
            new_user.email,
            password_hash,
            now,
        ) {
            Ok(user) => user,
            Err(e) => {
                return Err(e);
            },
        };
        let code = self.activations.issue_code(user.id, random, self.activation_ttl, now);
        Ok((user, code))
    }

    /// Registers an account: hashes the password, stores the inactive
    /// account and issues a random activation code, which is returned for
    /// delivery to the new user.
    pub fn register_user(&mut self, new_user: NewUser, now: u64) -> (r: Result<
        (UserVisible, String),
        CustomAppError,
    >)
        requires
            old(self).wf(),
        ensures
            final(self).wf(),
            final(self).sessions@ == old(self).sessions@,
            final(self).session_ttl == old(self).session_ttl,
            final(self).activation_ttl == old(self).activation_ttl,
            encode_utf8(new_user.password@).len() > 0xFFFF_FFFF ==> r == Err::<
                (UserVisible, String),
                CustomAppError,
            >(CustomAppError::InternalError) && final(self).db_store@ == old(self).db_store@
                && final(self).activations@ == old(self).activations@,
            encode_utf8(new_user.password@).len() <= 0xFFFF_FFFF ==> exists|
                hash: String,
                random: u32,
            |
                {
                    &&& "$argon2id$"@.is_prefix_of(hash@)
                    &&& argon2_verdict(hash@, encode_utf8(new_user.password@)) == Some(true)
                    &&& registration_outcome(
                        old(self).db_store@,
                        old(self).activations@,
                        final(self).db_store@,
                        final(self).activations@,
                        new_user,
                        hash,
                        random,
                        old(self).activation_ttl,
                        now,
                        r,
                    )
                },
    {
        let hash = match hash_password(new_user.password.as_str().as_bytes()) {
            Some(h) => h,
            None => {
                return Err(CustomAppError::InternalError);
            },
        };
        let random = random_u32();
        self.register_hashed_user(new_user, hash, random, now)
    }

    /// Consumes the activation code of an account and then marks the account
    /// active. The two steps are separate: an account that vanished between
    /// them leaves the code used up.
    pub fn activate_user_account(&mut self, request: ActivateUser, now: u64) -> (r: Result<
        (),
        CustomAppError,
    >)
        requires
            old(self).wf(),
        ensures
            final(self).wf(),
            final(self).sessions@ == old(self).sessions@,
            final(self).session_ttl == old(self).session_ttl,
            final(self).activation_ttl == old(self).activation_ttl,
            !accepts(old(self).activations@, request.id, request.token@, now) ==> r == Err::<
                (),
                CustomAppError,
            >(CustomAppError::InvalidOrExpired)
                && final(self).activations@ == old(self).activations@
                    && final(self).db_store@ == old(self).db_store@,
            accepts(old(self).activations@, request.id, request.token@, now) ==> {
                &&& final(self).activations@ == old(self).activations@.remove(request.id)
                &&& r is Ok
                &&& match user_at(old(self).db_store@, request.id) {
                    Some(u) => exists|i: int|
                        0 <= i < old(self).db_store@.users.len() && old(self).db_store@.users[i].id
                            == request.id && final(self).db_store@ == with_user_at(
                            old(self).db_store@,
                            i,
                            User { is_active: true, ..u },
                        ),
                    None => final(self).db_store@ == old(self).db_store@,
                }
            },
    {
        match self.activations.consume(request.id, request.token.as_str(), now) {
            Ok(()) => {},
            Err(e) => {
                return Err(e);
            },
        }
        self.db_store.activate_user(request.id)
    }

    /// Checks an email and password and, if they match an active account,
    /// opens a session under `token` and returns its cookie.
    pub fn login_with_token(&mut self, login: LoginUser, token: u128, now: u64) -> (r: Result<
        SessionCookie,
        CustomAppError,
    >)
        requires
            old(self).wf(),
        ensures
            final(self).wf(),
            final(self).db_store@ == old(self).db_store@,
            final(self).activations@ == old(self).activations@,
            final(self).session_ttl == old(self).session_ttl,
            final(self).activation_ttl == old(self).activation_ttl,
            login_outcome(
                old(self).db_store@,
                old(self).sessions@,
                final(self).sessions@,
                login,
                token,
                old(self).session_ttl,
                now,
                r,
            ),
    {
        let user = match self.db_store.get_user_by_email(login.email.as_str()) {
            Ok(u) => u,
            Err(_) => {
                return Err(CustomAppError::InvalidInput);
            },
        };
        match verify_password(user.password.as_str(), login.password.as_str().as_bytes()) {
            Ok(()) => {},
            Err(PasswordError::Mismatch) => {
                return Err(CustomAppError::InvalidInput);
            },
            Err(PasswordError::Malformed) => {
                return Err(CustomAppError::InternalError);
            },
        }
        match self.sessions.create_session_with_token(token, user.id, self.session_ttl, now) {
            Ok(()) => Ok(session_cookie(token, self.session_ttl)),
            Err(e) => Err(e),
        }
    }

    /// Logs a user in under a fresh random session token.
    pub fn login_user(&mut self, login: LoginUser, now: u64) -> (r: Result<
        SessionCookie,
        CustomAppError,
    >)
        requires
            old(self).wf(),
        ensures
            final(self).wf(),
            final(self).db_store@ == old(self).db_store@,
            final(self).activations@ == old(self).activations@,
            final(self).session_ttl == old(self).session_ttl,
            final(self).activation_ttl == old(self).activation_ttl,
            exists|token: u128|
                login_outcome(
                    old(self).db_store@,
                    old(self).sessions@,
                    final(self).sessions@,
                    login,
                    token,
                    old(self).session_ttl,
                    now,
                    r,
                ),
    {
        let token = new_uuid_v4();
        self.login_with_token(login, token, now)
    }
}

impl AppState {
    fn build_question(title: String, content: String, tags: Vec<String>, author: u128) -> (r:
        CreateQuestion)
        ensures
            r.title == title,
            r.slug@ == slug_of(title@),
            r.content@ == markdown_html(content@),
            r.raw_content == content,
            r.author == author,
            r.tags == tags,
    {
        let slug = slugify(title.as_str());
        let rendered = convert_markdown_to_html(content.as_str());
        CreateQuestion { title, slug, content: rendered, raw_content: content, author, tags }
    }

    /// Asks a question as the caller: checks the submission, normalises its
    /// tags, derives the slug, renders the content and writes the question.
    pub fn ask_question(
        &mut self,
        session_id: Option<&str>,
        new_question: NewQuestion,
        now: u64,
    ) -> (r: Result<QuestionAuthorWithTags, CustomAppError>)
        requires
            old(self).wf(),
        ensures
            final(self).wf(),
            final(self).sessions@ == old(self).sessions@,
            final(self).activations@ == old(self).activations@,
            final(self).session_ttl == old(self).session_ttl,
            final(self).activation_ttl == old(self).activation_ttl,
            match session_lookup(old(self).sessions@, session_id, now) {
                Err(e) => r == Err::<QuestionAuthorWithTags, CustomAppError>(e)
                    && final(self).db_store@ == old(self).db_store@,
                Ok(author) => if question_text_invalid(
                    new_question.title@,
                    new_question.content@,
                    new_question.tags@,
                ) {
                    r == Err::<QuestionAuthorWithTags, CustomAppError>(
                        CustomAppError::InvalidInput,
                    ) && final(self).db_store@ == old(self).db_store@
                } else {
                    match question_input_error(
                        old(self).db_store@,
                        author,
                        normalized_tags(new_question.tags@),
                    ) {
                        Some(e) => r == Err::<QuestionAuthorWithTags, CustomAppError>(e)
                            && final(self).db_store@ == old(self).db_store@,
                        None => if old(self).db_store@.next_id == u128::MAX {
                            r == Err::<QuestionAuthorWithTags, CustomAppError>(
                                CustomAppError::InternalError,
                            ) && final(self).db_store@ == old(self).db_store@
                        } else {
                            exists|q: QuestionRecord|
                                {
                                    &&& q.question.id == old(self).db_store@.next_id
                                    &&& q.question.author == author
                                    &&& q.question.created_at == now
                                    &&& q.question.updated_at == now
                                    &&& carries_submission(
                                        q,
                                        new_question.title@,
                                        new_question.content@,
                                        new_question.tags@,
                                    )
                                    &&& final(self).db_store@ == with_question(
                                        old(self).db_store@,
                                        q,
                                    )
                                    &&& r matches Ok(v) && composes(final(self).db_store@, q, v)
                                }
                        },
                    }
                },
            },
    {
        let author = match self.validate_authentication_session(session_id, now) {
            Ok(a) => a,
            Err(e) => {
                return Err(e);
            },
        };
        if new_question.title.unicode_len() == 0 || new_question.content.unicode_len() == 0
            || new_question.tags.unicode_len() == 0 {
            return Err(CustomAppError::InvalidInput);
        }
        let tags = match parse_tag_ids(new_question.tags.as_str()) {
            Ok(t) => t,
            Err(e) => {
                return Err(e);
            },
        };
        let ghost tags_text = new_question.tags@;
        let cq = Self::build_question(new_question.title, new_question.content, tags, author);
        let ghost q = crate::store::new_question_record(self.db_store@.next_id, cq, now);
        let r = self.db_store.create_question_in_db(cq, now);
        assert(carries_submission(q, new_question.title@, new_question.content@, tags_text));
        r
    }

    /// Rewrites the caller's question. Someone else's question and a missing
    /// one are refused alike, before the submission is looked at.
    pub fn update_a_question(
        &mut self,
        session_id: Option<&str>,
        question_id: u128,
        update: UpdateQuestion,
        now: u64,
    ) -> (r: Result<QuestionAuthorWithTags, CustomAppError>)
        requires
            old(self).wf(),
        ensures
            final(self).wf(),
            final(self).sessions@ == old(self).sessions@,
            final(self).activations@ == old(self).activations@,
            final(self).session_ttl == old(self).session_ttl,
            final(self).activation_ttl == old(self).activation_ttl,
            match session_lookup(old(self).sessions@, session_id, now) {
                Err(e) => r == Err::<QuestionAuthorWithTags, CustomAppError>(e)
                    && final(self).db_store@ == old(self).db_store@,
                Ok(author) => if !owns_question(old(self).db_store@, question_id, author) {
                    r == Err::<QuestionAuthorWithTags, CustomAppError>(
                        CustomAppError::UnauthorizedOrNotFound,
                    ) && final(self).db_store@ == old(self).db_store@
                } else if question_text_invalid(update.title@, update.content@, update.tags@) {
                    r == Err::<QuestionAuthorWithTags, CustomAppError>(
                        CustomAppError::InvalidInput,
                    ) && final(self).db_store@ == old(self).db_store@
                } else {
                    match question_input_error(
                        old(self).db_store@,
                        author,
                        normalized_tags(update.tags@),
                    ) {
                        Some(e) => r == Err::<QuestionAuthorWithTags, CustomAppError>(e)
                            && final(self).db_store@ == old(self).db_store@,
                        None => {
                            let before = question_at(old(self).db_store@, question_id)->Some_0;
                            exists|q: QuestionRecord, i: int|
                                {
                                    &&& 0 <= i < old(self).db_store@.questions.len()
                                    &&& old(self).db_store@.questions[i] == before
                                    &&& q.question.id == question_id
                                    &&& q.question.author == author
                                    &&& q.question.created_at == before.question.created_at
                                    &&& q.question.updated_at == now
                                    &&& carries_submission(
                                        q,
                                        update.title@,
                                        update.content@,
                                        update.tags@,
                                    )
                                    &&& final(self).db_store@ == with_question_at(
                                        old(self).db_store@,
                                        i,
                                        q,
                                    )
                                    &&& r matches Ok(v) && composes(final(self).db_store@, q, v)
                                }
                        },
                    }
                },
            },
    {
        let author = match self.validate_authentication_session(session_id, now) {
            Ok(a) => a,
            Err(e) => {
                return Err(e);
            },
        };
        if !self.db_store.question_owned_by(question_id, author) {
            return Err(CustomAppError::UnauthorizedOrNotFound);
        }
        if update.title.unicode_len() == 0 || update.content.unicode_len() == 0
            || update.tags.unicode_len() == 0 {
            return Err(CustomAppError::InvalidInput);
        }
        let tags = match parse_tag_ids(update.tags.as_str()) {
            Ok(t) => t,
            Err(e) => {
                return Err(e);
            },
        };
        let ghost tags_text = update.tags@;
        let cq = Self::build_question(update.title, update.content, tags, author);
        let ghost before = question_at(self.db_store@, question_id)->Some_0;
        let ghost q = crate::store::updated_question_record(before, cq, now);
        let r = self.db_store.update_question_in_db(question_id, cq, now);
        assert(carries_submission(q, update.title@, update.content@, tags_text));
        r
    }

    /// Deletes the caller's question with its answers.
    pub fn delete_a_question(
        &mut self,
        session_id: Option<&str>,
        question_id: u128,
        now: u64,
    ) -> (r: Result<(), CustomAppError>)
        requires
            old(self).wf(),
        ensures
            final(self).wf(),
            final(self).sessions@ == old(self).sessions@,
            final(self).activations@ == old(self).activations@,
            final(self).session_ttl == old(self).session_ttl,
            final(self).activation_ttl == old(self).activation_ttl,
            match session_lookup(old(self).sessions@, session_id, now) {
                Err(e) => r == Err::<(), CustomAppError>(e)
                    && final(self).db_store@ == old(self).db_store@,
                Ok(author) => if owns_question(old(self).db_store@, question_id, author) {
                    r is Ok && exists|i: int|
                        0 <= i < old(self).db_store@.questions.len()
                            && old(self).db_store@.questions[i].question.id == question_id
                            && final(self).db_store@ == without_question(old(self).db_store@, i)
                } else {
                    r == Err::<(), CustomAppError>(CustomAppError::UnauthorizedOrNotFound)
                        && final(self).db_store@ == old(self).db_store@
                },
            },
    {
        let author = match self.validate_authentication_session(session_id, now) {
            Ok(a) => a,
            Err(e) => {
                return Err(e);
            },
        };
        self.db_store.delete_question_from_db(author, question_id)
    }

    /// Every question, composed.
    pub fn all_questions(&self) -> (r: Vec<QuestionAuthorWithTags>)
        requires
            self.wf(),
        ensures
            r@.len() == self.db_store@.questions.len(),
            forall|i: int|
                0 <= i < r@.len() ==> composes(
                    self.db_store@,
                    self.db_store@.questions[i],
                    #[trigger] r@[i],
                ),
    {
        self.db_store.get_all_questions_from_db()
    }

    /// One question, composed.
    pub fn get_question(&self, question_id: u128) -> (r: Result<
        QuestionAuthorWithTags,
        CustomAppError,
    >)
        requires
            self.wf(),
        ensures
            match question_at(self.db_store@, question_id) {
                Some(q) => r matches Ok(v) && composes(self.db_store@, q, v),
                None => r == Err::<QuestionAuthorWithTags, CustomAppError>(
                    CustomAppError::UnauthorizedOrNotFound,
                ),
            },
    {
        self.db_store.get_question_from_db(question_id)
    }

    /// Answers a question as the caller.
    pub fn answer_question(
        &mut self,
        session_id: Option<&str>,
        question_id: u128,
        new_answer: NewAnswer,
        now: u64,
    ) -> (r: Result<AnswerAuthor, CustomAppError>)
        requires
            old(self).wf(),
        ensures
            final(self).wf(),
            final(self).sessions@ == old(self).sessions@,
            final(self).activations@ == old(self).activations@,
            final(self).session_ttl == old(self).session_ttl,
            final(self).activation_ttl == old(self).activation_ttl,
            match session_lookup(old(self).sessions@, session_id, now) {
                Err(e) => r == Err::<AnswerAuthor, CustomAppError>(e) && final(self).db_store@
                    == old(self).db_store@,
                Ok(author) => if !question_exists(old(self).db_store@, question_id) || !user_exists(
                    old(self).db_store@,
                    author,
                ) {
                    r == Err::<AnswerAuthor, CustomAppError>(
                        CustomAppError::UnauthorizedOrNotFound,
                    ) && final(self).db_store@ == old(self).db_store@
                } else if old(self).db_store@.next_id == u128::MAX {
                    r == Err::<AnswerAuthor, CustomAppError>(CustomAppError::InternalError)
                        && final(self).db_store@ == old(self).db_store@
                } else {
                    let a = final(self).db_store@.answers.last();
                    &&& a.id == old(self).db_store@.next_id
                    &&& a.content@ == markdown_html(new_answer.content@)
                    &&& a.raw_content == new_answer.content
                    &&& a.author == author
                    &&& a.question == question_id
                    &&& a.created_at == now
                    &&& a.updated_at == now
                    &&& final(self).db_store@ == with_answer(old(self).db_store@, a)
                    &&& r matches Ok(v) && answer_composes(final(self).db_store@, a, v)
                },
            },
    {
        let author = match self.validate_authentication_session(session_id, now) {
            Ok(a) => a,
            Err(e) => {
                return Err(e);
            },
        };
        let rendered = convert_markdown_to_html(new_answer.content.as_str());
        let ca = CreateAnswer {
            content: rendered,
            raw_content: new_answer.content,
            author,
            question: question_id,
        };
        self.db_store.create_answer_in_db(ca, now)
    }

    /// The answers to a question, composed, oldest first.
    pub fn question_answers(&self, question_id: u128) -> (r: Vec<AnswerAuthor>)
        requires
            self.wf(),
        ensures
            r@.len() == self.db_store@.answers.filter(answer_of(question_id)).len(),
            forall|i: int|
                0 <= i < r@.len() ==> answer_composes(
                    self.db_store@,
                    self.db_store@.answers.filter(answer_of(question_id))[i],
                    #[trigger] r@[i],
                ),
    {
        self.db_store.get_answers_from_db(question_id)
    }

    /// Deletes the caller's answer.
    pub fn delete_an_answer(&mut self, session_id: Option<&str>, answer_id: u128, now: u64) -> (r:
        Result<(), CustomAppError>)
        requires
            old(self).wf(),
        ensures
            final(self).wf(),
            final(self).sessions@ == old(self).sessions@,
            final(self).activations@ == old(self).activations@,
            final(self).session_ttl == old(self).session_ttl,
            final(self).activation_ttl == old(self).activation_ttl,
            match session_lookup(old(self).sessions@, session_id, now) {
                Err(e) => r == Err::<(), CustomAppError>(e)
                    && final(self).db_store@ == old(self).db_store@,
                Ok(author) => if owns_answer(old(self).db_store@, answer_id, author) {
                    r is Ok && exists|i: int|
                        0 <= i < old(self).db_store@.answers.len()
                            && old(self).db_store@.answers[i].id == answer_id
                            && final(self).db_store@ == without_answer(old(self).db_store@, i)
                } else {
                    r == Err::<(), CustomAppError>(CustomAppError::UnauthorizedOrNotFound)
                        && final(self).db_store@ == old(self).db_store@
                },
            },
    {
        let author = match self.validate_authentication_session(session_id, now) {
            Ok(a) => a,
            Err(e) => {
                return Err(e);
            },
        };
        self.db_store.delete_answer_from_db(author, answer_id)
    }

    /// Rewrites the caller's answer.
    pub fn update_answer(
        &mut self,
        session_id: Option<&str>,
        answer_id: u128,
        new_answer: NewAnswer,
        now: u64,
    ) -> (r: Result<AnswerAuthor, CustomAppError>)
        requires
            old(self).wf(),
        ensures
            final(self).wf(),
            final(self).sessions@ == old(self).sessions@,
            final(self).activations@ == old(self).activations@,
            final(self).session_ttl == old(self).session_ttl,
            final(self).activation_ttl == old(self).activation_ttl,
            match session_lookup(old(self).sessions@, session_id, now) {
                Err(e) => r == Err::<AnswerAuthor, CustomAppError>(e) && final(self).db_store@
                    == old(self).db_store@,
                Ok(author) => if owns_answer(old(self).db_store@, answer_id, author) {
                    let before = answer_at(old(self).db_store@, answer_id)->Some_0;
                    exists|i: int|
                        {
                            let a = final(self).db_store@.answers[i];
                            &&& 0 <= i < old(self).db_store@.answers.len()
                            &&& (#[trigger] old(self).db_store@.answers[i]).id == answer_id
                            &&& a.id == answer_id
                            &&& a.author == author
                            &&& a.question == before.question
                            &&& a.created_at == before.created_at
                            &&& a.updated_at == now
                            &&& a.content@ == markdown_html(new_answer.content@)
                            &&& a.raw_content == new_answer.content
                            &&& final(self).db_store@ == with_answer_at(old(self).db_store@, i, a)
                            &&& r matches Ok(v) && answer_composes(final(self).db_store@, a, v)
                        }
                } else {
                    r == Err::<AnswerAuthor, CustomAppError>(
                        CustomAppError::UnauthorizedOrNotFound,
                    ) && final(self).db_store@ == old(self).db_store@
                },
            },
    {
        let author = match self.validate_authentication_session(session_id, now) {
            Ok(a) => a,
            Err(e) => {
                return Err(e);
            },
        };
        let rendered = convert_markdown_to_html(new_answer.content.as_str());
        let ua = UpdateAnswer {
            content: rendered,
            raw_content: new_answer.content,
            author,
            answer_id,
        };
        self.db_store.update_answer_in_db(ua, now)
    }
}

impl AppState {
    /// Seeds the administrator account from the configuration, hashing its
    /// password first.
    pub fn create_super_user(&mut self, admin: SuperUser, now: u64) -> (r: Result<
        u128,
        CustomAppError,
    >)
        requires
            old(self).wf(),
        ensures
            final(self).wf(),
            final(self).sessions@ == old(self).sessions@,
            final(self).activations@ == old(self).activations@,
            final(self).session_ttl == old(self).session_ttl,
            final(self).activation_ttl == old(self).activation_ttl,
            encode_utf8(admin.password@).len() > 0xFFFF_FFFF ==> r == Err::<u128, CustomAppError>(
                CustomAppError::InternalError,
            ) && final(self).db_store@ == old(self).db_store@,
            encode_utf8(admin.password@).len() <= 0xFFFF_FFFF ==> exists|hash: String|
                {
                    &&& "$argon2id$"@.is_prefix_of(hash@)
                    &&& argon2_verdict(hash@, encode_utf8(admin.password@)) == Some(true)
                    &&& superuser_upsert(
                        old(self).db_store@,
                        final(self).db_store@,
                        admin.email,
                        hash,
                        admin.first_name,
                        admin.last_name,
                        now,
                        r,
                    )
                },
    {
        let hash = match hash_password(admin.password.as_str().as_bytes()) {
            Some(h) => h,
            None => {
                return Err(CustomAppError::InternalError);
            },
        };
        self.db_store.create_super_user_in_db(
            admin.email,
            hash,
            admin.first_name,
            admin.last_name,
            now,
        )
    }
}

} // verus!
