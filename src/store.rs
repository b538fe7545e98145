use crate::errors::CustomAppError;
use crate::models::{
    visible_of, Answer, AnswerAuthor, CreateAnswer, CreateQuestion, Question,
    QuestionAuthorWithTags, Tag, UpdateAnswer, User, UserVisible,
};
use crate::text::{constant_time_eq, contains_string, views_of};
use vstd::prelude::*;

verus! {

/// A question row with the ids of its tags, in the order given.
pub struct QuestionRecord {
    pub question: Question,
    pub tags: Seq<Seq<char>>,
}

/// The tables of the content store.
pub struct StoreModel {
    pub users: Seq<User>,
    pub tags: Seq<Tag>,
    pub questions: Seq<QuestionRecord>,
    pub answers: Seq<Answer>,
    pub next_id: u128,
}

// ---- users ----

pub open spec fn user_exists(s: StoreModel, id: u128) -> bool {
    exists|i: int| 0 <= i < s.users.len() && s.users[i].id == id
}

pub open spec fn user_at(s: StoreModel, id: u128) -> Option<User> {
    if exists|i: int| 0 <= i < s.users.len() && s.users[i].id == id {
        Some(s.users[choose|i: int| 0 <= i < s.users.len() && s.users[i].id == id])
    } else {
        None
    }
}

pub open spec fn email_taken(s: StoreModel, email: Seq<char>) -> bool {
    exists|i: int| 0 <= i < s.users.len() && s.users[i].email@ == email
}

pub open spec fn user_with_email(s: StoreModel, email: Seq<char>) -> User {
    s.users[choose|i: int| 0 <= i < s.users.len() && s.users[i].email@ == email]
}

// ---- tags ----

pub open spec fn tag_exists(s: StoreModel, id: Seq<char>) -> bool {
    exists|i: int| 0 <= i < s.tags.len() && s.tags[i].id@ == id
}

pub open spec fn tag_with_id(s: StoreModel, id: Seq<char>) -> Tag {
    s.tags[choose|i: int| 0 <= i < s.tags.len() && s.tags[i].id@ == id]
}

/// The tag rows that a list of tag ids names, in the list's order.
pub open spec fn tags_named(s: StoreModel, ids: Seq<Seq<char>>) -> Seq<Tag> {
    ids.map_values(|id: Seq<char>| tag_with_id(s, id))
}

// ---- questions ----

pub open spec fn question_exists(s: StoreModel, id: u128) -> bool {
    exists|i: int| 0 <= i < s.questions.len() && s.questions[i].question.id == id
}

pub open spec fn question_at(s: StoreModel, id: u128) -> Option<QuestionRecord> {
    if exists|i: int| 0 <= i < s.questions.len() && s.questions[i].question.id == id {
        Some(
            s.questions[choose|i: int|
                0 <= i < s.questions.len() && s.questions[i].question.id == id],
        )
    } else {
        None
    }
}

/// A tag list that a question may carry: one to four ids, none twice.
pub open spec fn valid_tag_count(ids: Seq<Seq<char>>) -> bool {
    1 <= ids.len() <= 4 && ids.no_duplicates()
}

// ---- answers ----

pub open spec fn answer_at(s: StoreModel, id: u128) -> Option<Answer> {
    if exists|i: int| 0 <= i < s.answers.len() && s.answers[i].id == id {
        Some(s.answers[choose|i: int| 0 <= i < s.answers.len() && s.answers[i].id == id])
    } else {
        None
    }
}

/// The invariant of the tables: ids strictly increase in each table and stay
/// below the next id to hand out, emails and tag ids are unique, and every
/// reference names an existing row.
pub open spec fn model_wf(s: StoreModel) -> bool {
    &&& forall|i: int, j: int|
        0 <= i < j < s.users.len() ==> #[trigger] s.users[i].id < #[trigger] s.users[j].id
    &&& forall|i: int| 0 <= i < s.users.len() ==> #[trigger] s.users[i].id < s.next_id
    &&& forall|i: int, j: int|
        0 <= i < s.users.len() && 0 <= j < s.users.len() && i != j ==> #[trigger] s.users[i].email@
            != #[trigger] s.users[j].email@
    &&& forall|i: int, j: int|
        0 <= i < s.tags.len() && 0 <= j < s.tags.len() && i != j ==> #[trigger] s.tags[i].id@
            != #[trigger] s.tags[j].id@
    &&& forall|i: int, j: int|
        0 <= i < j < s.questions.len() ==> #[trigger] s.questions[i].question.id
            < #[trigger] s.questions[j].question.id
    &&& forall|i: int|
        0 <= i < s.questions.len() ==> #[trigger] s.questions[i].question.id < s.next_id
    &&& forall|i: int|
        0 <= i < s.questions.len() ==> user_exists(s, #[trigger] s.questions[i].question.author)
    &&& forall|i: int|
        0 <= i < s.questions.len() ==> valid_tag_count(#[trigger] s.questions[i].tags)
    &&& forall|i: int, k: int|
        0 <= i < s.questions.len() && 0 <= k < s.questions[i].tags.len() ==> tag_exists(
            s,
            #[trigger] s.questions[i].tags[k],
        )
    &&& forall|i: int, j: int|
        0 <= i < j < s.answers.len() ==> #[trigger] s.answers[i].id < #[trigger] s.answers[j].id
    &&& forall|i: int| 0 <= i < s.answers.len() ==> #[trigger] s.answers[i].id < s.next_id
    &&& forall|i: int|
        0 <= i < s.answers.len() ==> user_exists(s, #[trigger] s.answers[i].author)
    &&& forall|i: int|
        0 <= i < s.answers.len() ==> question_exists(s, #[trigger] s.answers[i].question)
}

/// The row that registration writes.
pub open spec fn registered_user(
    id: u128,
    email: String,
    password: String,
    first_name: String,
    last_name: String,
    now: u64,
) -> User {
    User {
        id,
        email,
        password,
        first_name,
        last_name,
        is_active: false,
        is_staff: false,
        is_superuser: false,
        thumbnail: None,
        date_joined: now,
    }
}

/// `s` with the user `u` appended and the id counter moved past it.
pub open spec fn with_user(s: StoreModel, u: User) -> StoreModel {
    StoreModel { users: s.users.push(u), next_id: (s.next_id + 1) as u128, ..s }
}

/// `s` with the user at index `i` replaced by `u`.
pub open spec fn with_user_at(s: StoreModel, i: int, u: User) -> StoreModel {
    StoreModel { users: s.users.update(i, u), ..s }
}

/// The active account with the given email, if any.
pub open spec fn active_user_by_email(s: StoreModel, email: Seq<char>) -> Option<User> {
    if email_taken(s, email) && user_with_email(s, email).is_active {
        Some(user_with_email(s, email))
    } else {
        None
    }
}

/// The active account with the given id, if any.
pub open spec fn active_user_by_id(s: StoreModel, id: u128) -> Option<User> {
    match user_at(s, id) {
        Some(u) => if u.is_active {
            Some(u)
        } else {
            None
        },
        None => None,
    }
}

proof fn lemma_wf_push_user(s: StoreModel, u: User)
    requires
        model_wf(s),
        u.id == s.next_id,
        s.next_id < u128::MAX,
        !email_taken(s, u.email@),
    ensures
        model_wf(with_user(s, u)),
{
    let t = with_user(s, u);
    assert forall|id: u128| user_exists(s, id) implies user_exists(t, id) by {
        let j = choose|j: int| 0 <= j < s.users.len() && s.users[j].id == id;
        assert(t.users[j].id == id);
    }
    assert forall|id: u128| question_exists(s, id) implies question_exists(t, id) by {
        let j = choose|j: int| 0 <= j < s.questions.len() && s.questions[j].question.id == id;
        assert(t.questions[j].question.id == id);
    }
    assert forall|id: Seq<char>| tag_exists(s, id) implies tag_exists(t, id) by {
        let j = choose|j: int| 0 <= j < s.tags.len() && s.tags[j].id@ == id;
        assert(t.tags[j].id@ == id);
    }
    assert forall|i: int, j: int|
        0 <= i < t.users.len() && 0 <= j < t.users.len()
            && i != j implies #[trigger] t.users[i].email@
        != #[trigger] t.users[j].email@ by {
        if i == s.users.len() {
            assert(s.users[j].email@ != u.email@);
        } else if j == s.users.len() {
            assert(s.users[i].email@ != u.email@);
        }
    }
}

proof fn lemma_wf_update_user(s: StoreModel, i: int, u: User)
    requires
        model_wf(s),
        0 <= i < s.users.len(),
        u.id == s.users[i].id,
        u.email == s.users[i].email,
    ensures
        model_wf(with_user_at(s, i, u)),
{
    let t = with_user_at(s, i, u);
    assert forall|id: u128| user_exists(s, id) implies user_exists(t, id) by {
        let j = choose|j: int| 0 <= j < s.users.len() && s.users[j].id == id;
        assert(t.users[j].id == id);
    }
    assert forall|id: u128| question_exists(s, id) implies question_exists(t, id) by {
        let j = choose|j: int| 0 <= j < s.questions.len() && s.questions[j].question.id == id;
        assert(t.questions[j].question.id == id);
    }
    assert forall|id: Seq<char>| tag_exists(s, id) implies tag_exists(t, id) by {
        let j = choose|j: int| 0 <= j < s.tags.len() && s.tags[j].id@ == id;
        assert(t.tags[j].id@ == id);
    }
}

/// Why a question with this author and these tag ids cannot be written, if
/// it cannot: a tag list of the wrong size or with a repeated id, an unknown
/// tag, an unknown author.
pub open spec fn question_input_error(s: StoreModel, author: u128, ids: Seq<Seq<char>>) -> Option<
    CustomAppError,
> {
    if !valid_tag_count(ids) {
        Some(CustomAppError::InvalidInput)
    } else if !(forall|k: int| 0 <= k < ids.len() ==> tag_exists(s, #[trigger] ids[k])) {
        Some(CustomAppError::InvalidTag)
    } else if !user_exists(s, author) {
        Some(CustomAppError::UnauthorizedOrNotFound)
    } else {
        None
    }
}

/// What tag validation says of a list of tag ids: an empty list is
/// malformed, an unknown id is refused.
pub open spec fn tags_validation(s: StoreModel, ids: Seq<Seq<char>>) -> Result<(), CustomAppError> {
    if ids.len() == 0 {
        Err(CustomAppError::InvalidInput)
    } else if forall|k: int| 0 <= k < ids.len() ==> tag_exists(s, #[trigger] ids[k]) {
        Ok(())
    } else {
        Err(CustomAppError::InvalidTag)
    }
}

/// `v` is the composed view of the question record `q`: its own fields, its
/// author's visible profile and its tag rows in order.
pub open spec fn composes(s: StoreModel, q: QuestionRecord, v: QuestionAuthorWithTags) -> bool {
    &&& v.id == q.question.id
    &&& v.title == q.question.title
    &&& v.slug == q.question.slug
    &&& v.content == q.question.content
    &&& v.raw_content == q.question.raw_content
    &&& v.created_at == q.question.created_at
    &&& v.updated_at == q.question.updated_at
    &&& user_at(s, q.question.author) matches Some(u) && v.author == visible_of(u)
    &&& v.tags@ == tags_named(s, q.tags)
}

/// The record that creating a question writes.
pub open spec fn new_question_record(
    id: u128,
    cq: CreateQuestion,
    now: u64,
) -> QuestionRecord {
    QuestionRecord {
        question: Question {
            id,
            title: cq.title,
            slug: cq.slug,
            content: cq.content,
            raw_content: cq.raw_content,
            author: cq.author,
            created_at: now,
            updated_at: now,
        },
        tags: views_of(cq.tags@),
    }
}

/// `s` with the question `q` appended and the id counter moved past it.
pub open spec fn with_question(s: StoreModel, q: QuestionRecord) -> StoreModel {
    StoreModel { questions: s.questions.push(q), next_id: (s.next_id + 1) as u128, ..s }
}

proof fn lemma_wf_push_question(s: StoreModel, q: QuestionRecord)
    requires
        model_wf(s),
        q.question.id == s.next_id,
        s.next_id < u128::MAX,
        question_input_error(s, q.question.author, q.tags) is None,
    ensures
        model_wf(with_question(s, q)),
{
    let t = with_question(s, q);
    assert forall|id: u128| user_exists(s, id) implies user_exists(t, id) by {
        let j = choose|j: int| 0 <= j < s.users.len() && s.users[j].id == id;
        assert(t.users[j].id == id);
    }
    assert forall|id: u128| question_exists(s, id) implies question_exists(t, id) by {
        let j = choose|j: int| 0 <= j < s.questions.len() && s.questions[j].question.id == id;
        assert(t.questions[j].question.id == id);
    }
    assert forall|id: Seq<char>| tag_exists(s, id) implies tag_exists(t, id) by {
        let j = choose|j: int| 0 <= j < s.tags.len() && s.tags[j].id@ == id;
        assert(t.tags[j].id@ == id);
    }
    assert forall|i: int, k: int|
        0 <= i < t.questions.len() && 0 <= k < t.questions[i].tags.len() implies tag_exists(
        t,
        #[trigger] t.questions[i].tags[k],
    ) by {
        if i < s.questions.len() {
            assert(tag_exists(s, s.questions[i].tags[k]));
        } else {
            assert(tag_exists(s, q.tags[k]));
        }
    }
}

/// A question created in `s` is found under its new id, as it was written.
pub proof fn lemma_created_question_found(s: StoreModel, q: QuestionRecord)
    requires
        model_wf(s),
        q.question.id == s.next_id,
    ensures
        question_at(with_question(s, q), q.question.id) == Some(q),
{
    let t = with_question(s, q);
    let n = s.questions.len() as int;
    assert(t.questions[n].question.id == q.question.id);
    let j = choose|j: int| 0 <= j < t.questions.len()
        && t.questions[j].question.id == q.question.id;
    if j < n {
        assert(s.questions[j].question.id < s.next_id);
    }
}

/// The record that updating question `q` writes: new text and tags, the
/// same id, author and creation time.
pub open spec fn updated_question_record(
    q: QuestionRecord,
    cq: CreateQuestion,
    now: u64,
) -> QuestionRecord {
    QuestionRecord {
        question: Question {
            id: q.question.id,
            title: cq.title,
            slug: cq.slug,
            content: cq.content,
            raw_content: cq.raw_content,
            author: q.question.author,
            created_at: q.question.created_at,
            updated_at: now,
        },
        tags: views_of(cq.tags@),
    }
}

/// `s` with the question at index `i` replaced by `q`.
pub open spec fn with_question_at(s: StoreModel, i: int, q: QuestionRecord) -> StoreModel {
    StoreModel { questions: s.questions.update(i, q), ..s }
}

pub open spec fn not_answer_of(question_id: u128) -> spec_fn(Answer) -> bool {
    |a: Answer| a.question != question_id
}

/// `s` without the question at index `i` and without the answers to it.
pub open spec fn without_question(s: StoreModel, i: int) -> StoreModel {
    StoreModel {
        questions: s.questions.remove(i),
        answers: s.answers.filter(not_answer_of(s.questions[i].question.id)),
        ..s
    }
}

/// Whether `author` may change or delete the question `id`: it exists and
/// `author` wrote it.
pub open spec fn owns_question(s: StoreModel, id: u128, author: u128) -> bool {
    question_at(s, id) matches Some(q) && q.question.author == author
}

proof fn lemma_wf_update_question(s: StoreModel, i: int, q: QuestionRecord)
    requires
        model_wf(s),
        0 <= i < s.questions.len(),
        q.question.id == s.questions[i].question.id,
        q.question.author == s.questions[i].question.author,
        question_input_error(s, q.question.author, q.tags) is None,
    ensures
        model_wf(with_question_at(s, i, q)),
{
    let t = with_question_at(s, i, q);
    assert forall|id: u128| user_exists(s, id) implies user_exists(t, id) by {
        let j = choose|j: int| 0 <= j < s.users.len() && s.users[j].id == id;
        assert(t.users[j].id == id);
    }
    assert forall|id: u128| question_exists(s, id) implies question_exists(t, id) by {
        let j = choose|j: int| 0 <= j < s.questions.len() && s.questions[j].question.id == id;
        assert(t.questions[j].question.id == id);
    }
    assert forall|id: Seq<char>| tag_exists(s, id) implies tag_exists(t, id) by {
        let j = choose|j: int| 0 <= j < s.tags.len() && s.tags[j].id@ == id;
        assert(t.tags[j].id@ == id);
    }
    assert forall|a: int, k: int|
        0 <= a < t.questions.len() && 0 <= k < t.questions[a].tags.len() implies tag_exists(
        t,
        #[trigger] t.questions[a].tags[k],
    ) by {
        if a != i {
            assert(tag_exists(s, s.questions[a].tags[k]));
        } else {
            assert(tag_exists(s, q.tags[k]));
        }
    }
}

proof fn lemma_wf_remove_question(s: StoreModel, i: int)
    requires
        model_wf(s),
        0 <= i < s.questions.len(),
    ensures
        model_wf(without_question(s, i)),
        question_at(without_question(s, i), s.questions[i].question.id) is None,
{
    let t = without_question(s, i);
    let qid = s.questions[i].question.id;
    let pred = not_answer_of(qid);
    broadcast use vstd::seq_lib::group_filter_ensures;

    assert forall|id: u128| user_exists(s, id) implies user_exists(t, id) by {
        let j = choose|j: int| 0 <= j < s.users.len() && s.users[j].id == id;
        assert(t.users[j].id == id);
    }
    assert forall|id: Seq<char>| tag_exists(s, id) implies tag_exists(t, id) by {
        let j = choose|j: int| 0 <= j < s.tags.len() && s.tags[j].id@ == id;
        assert(t.tags[j].id@ == id);
    }
    assert forall|id: u128| question_exists(s, id) && id != qid implies question_exists(t, id) by {
        let j = choose|j: int| 0 <= j < s.questions.len() && s.questions[j].question.id == id;
        if j < i {
            assert(t.questions[j].question.id == id);
        } else {
            assert(t.questions[j - 1].question.id == id);
        }
    }
    assert forall|a: int| 0 <= a < t.questions.len() implies t.questions[a] == (if a < i {
        s.questions[a]
    } else {
        s.questions[a + 1]
    }) by {}
    assert forall|a: int, b: int|
        0 <= a < b < t.questions.len() implies #[trigger] t.questions[a].question.id
        < #[trigger] t.questions[b].question.id by {
        if a < i && b >= i {
            assert(s.questions[a].question.id < s.questions[b + 1].question.id);
        } else if a >= i {
            assert(s.questions[a + 1].question.id < s.questions[b + 1].question.id);
        }
    }
    assert forall|a: int, k: int|
        0 <= a < t.questions.len() && 0 <= k < t.questions[a].tags.len() implies tag_exists(
        t,
        #[trigger] t.questions[a].tags[k],
    ) by {
        if a < i {
            assert(tag_exists(s, s.questions[a].tags[k]));
        } else {
            assert(tag_exists(s, s.questions[a + 1].tags[k]));
        }
    }
    assert forall|a: int| 0 <= a < t.questions.len() implies user_exists(
        t,
        #[trigger] t.questions[a].question.author,
    ) by {
        if a >= i {
            assert(user_exists(s, s.questions[a + 1].question.author));
        }
    }
    assert forall|a: int| 0 <= a < t.questions.len() implies valid_tag_count(
        #[trigger] t.questions[a].tags,
    ) by {
        if a >= i {
            assert(valid_tag_count(s.questions[a + 1].tags));
        }
    }
    assert forall|a: int| 0 <= a < t.answers.len() implies #[trigger] t.answers[a].id < t.next_id
        && user_exists(t, t.answers[a].author) && question_exists(t, t.answers[a].question) by {
        let x = t.answers[a];
        assert(pred(x));
        assert(t.answers.contains(x));
        s.answers.lemma_filter_contains_rev(pred, x);
        let j = choose|j: int| 0 <= j < s.answers.len() && s.answers[j] == x;
        assert(s.answers[j].id < s.next_id);
        assert(user_exists(s, s.answers[j].author));
        assert(question_exists(s, s.answers[j].question));
    }
    lemma_filter_sorted(s.answers, pred);
    if question_exists(t, qid) {
        let j = choose|j: int| 0 <= j < t.questions.len() && t.questions[j].question.id == qid;
        if j < i {
            assert(s.questions[j].question.id < s.questions[i].question.id);
        } else {
            assert(s.questions[i].question.id < s.questions[j + 1].question.id);
        }
    }
}

proof fn lemma_filter_sorted(v: Seq<Answer>, pred: spec_fn(Answer) -> bool)
    requires
        forall|i: int, j: int| 0 <= i < j < v.len() ==> #[trigger] v[i].id < #[trigger] v[j].id,
    ensures
        forall|i: int, j: int|
            0 <= i < j < v.filter(pred).len() ==> #[trigger] v.filter(pred)[i].id
                < #[trigger] v.filter(pred)[j].id,
        forall|i: int|
            0 <= i < v.filter(pred).len() ==> exists|k: int|
                0 <= k < v.len() && v[k] == #[trigger] v.filter(pred)[i],
    decreases v.len(),
{
    reveal(Seq::filter);
    if v.len() > 0 {
        let p = v.drop_last();
        lemma_filter_sorted(p, pred);
        let f = p.filter(pred);
        assert forall|i: int| 0 <= i < f.len() implies exists|k: int|
            0 <= k < v.len() && v[k] == #[trigger] f[i] by {
            let k = choose|k: int| 0 <= k < p.len() && p[k] == f[i];
            assert(v[k] == f[i]);
        }
        if pred(v.last()) {
            let g = f.push(v.last());
            assert forall|i: int, j: int| 0 <= i < j < g.len() implies #[trigger] g[i].id
                < #[trigger] g[j].id by {
                if j == f.len() {
                    let k = choose|k: int| 0 <= k < p.len() && p[k] == f[i];
                    assert(v[k].id < v[v.len() - 1].id);
                } else {
                    assert(f[i].id < f[j].id);
                }
            }
            assert forall|i: int| 0 <= i < g.len() implies exists|k: int|
                0 <= k < v.len() && v[k] == #[trigger] g[i] by {
                if i == f.len() {
                    assert(v[v.len() - 1] == g[i]);
                } else {
                    assert(g[i] == f[i]);
                }
            }
        }
    }
}

/// `v` is the composed view of the answer `a`.
pub open spec fn answer_composes(s: StoreModel, a: Answer, v: AnswerAuthor) -> bool {
    &&& v.id == a.id
    &&& v.content == a.content
    &&& v.raw_content == a.raw_content
    &&& v.created_at == a.created_at
    &&& v.updated_at == a.updated_at
    &&& user_at(s, a.author) matches Some(u) && v.author == visible_of(u)
}

/// Whether `author` may change or delete the answer `id`.
pub open spec fn owns_answer(s: StoreModel, id: u128, author: u128) -> bool {
    answer_at(s, id) matches Some(a) && a.author == author
}

pub open spec fn answer_of(question_id: u128) -> spec_fn(Answer) -> bool {
    |a: Answer| a.question == question_id
}

/// The answer that creating one writes.
pub open spec fn new_answer_row(id: u128, ca: CreateAnswer, now: u64) -> Answer {
    Answer {
        id,
        content: ca.content,
        raw_content: ca.raw_content,
        author: ca.author,
        question: ca.question,
        created_at: now,
        updated_at: now,
    }
}

/// `s` with the answer `a` appended and the id counter moved past it.
pub open spec fn with_answer(s: StoreModel, a: Answer) -> StoreModel {
    StoreModel { answers: s.answers.push(a), next_id: (s.next_id + 1) as u128, ..s }
}

/// `s` with the answer at index `i` replaced by `a`.
pub open spec fn with_answer_at(s: StoreModel, i: int, a: Answer) -> StoreModel {
    StoreModel { answers: s.answers.update(i, a), ..s }
}

/// `s` without the answer at index `i`.
pub open spec fn without_answer(s: StoreModel, i: int) -> StoreModel {
    StoreModel { answers: s.answers.remove(i), ..s }
}

proof fn lemma_wf_answers_changed(s: StoreModel, t: StoreModel)
    requires
        model_wf(s),
        t.users == s.users,
        t.tags == s.tags,
        t.questions == s.questions,
        s.next_id <= t.next_id,
        forall|i: int, j: int|
            0 <= i < j < t.answers.len() ==> #[trigger] t.answers[i].id < #[trigger] t.answers[j].id,
        forall|i: int| 0 <= i < t.answers.len() ==> #[trigger] t.answers[i].id < t.next_id,
        forall|i: int| 0 <= i < t.answers.len() ==> user_exists(s, #[trigger] t.answers[i].author),
        forall|i: int|
            0 <= i < t.answers.len() ==> question_exists(s, #[trigger] t.answers[i].question),
    ensures
        model_wf(t),
{
    assert forall|id: u128| user_exists(s, id) implies user_exists(t, id) by {
        let j = choose|j: int| 0 <= j < s.users.len() && s.users[j].id == id;
        assert(t.users[j].id == id);
    }
    assert forall|id: u128| question_exists(s, id) implies question_exists(t, id) by {
        let j = choose|j: int| 0 <= j < s.questions.len() && s.questions[j].question.id == id;
        assert(t.questions[j].question.id == id);
    }
    assert forall|id: Seq<char>| tag_exists(s, id) implies tag_exists(t, id) by {
        let j = choose|j: int| 0 <= j < s.tags.len() && s.tags[j].id@ == id;
        assert(t.tags[j].id@ == id);
    }
    assert forall|i: int| 0 <= i < t.users.len() implies #[trigger] t.users[i].id < t.next_id by {
        assert(s.users[i].id < s.next_id);
    }
    assert forall|i: int|
        0 <= i < t.questions.len() implies #[trigger] t.questions[i].question.id < t.next_id by {
        assert(s.questions[i].question.id < s.next_id);
    }
    assert forall|a: int, k: int|
        0 <= a < t.questions.len() && 0 <= k < t.questions[a].tags.len() implies tag_exists(
        t,
        #[trigger] t.questions[a].tags[k],
    ) by {
        assert(tag_exists(s, s.questions[a].tags[k]));
    }
}

/// The row that seeding the administrator account writes.
pub open spec fn superuser_row(
    id: u128,
    email: String,
    password: String,
    first_name: String,
    last_name: String,
    now: u64,
) -> User {
    User {
        id,
        email,
        password,
        first_name,
        last_name,
        is_active: true,
        is_staff: true,
        is_superuser: true,
        thumbnail: None,
        date_joined: now,
    }
}

/// Only the author may change a question: anyone else is refused.
pub proof fn lemma_only_author_owns(s: StoreModel, id: u128, author: u128, other: u128)
    requires
        question_at(s, id) matches Some(q) && q.question.author == author,
        other != author,
    ensures
        owns_question(s, id, author),
        !owns_question(s, id, other),
{
}

/// The author can delete a question once; afterwards nobody owns it, so a
/// second deletion is refused.
pub proof fn lemma_delete_question_once(s: StoreModel, i: int, author: u128)
    requires
        model_wf(s),
        0 <= i < s.questions.len(),
        s.questions[i].question.author == author,
    ensures
        owns_question(s, s.questions[i].question.id, author),
        forall|someone: u128|
            !owns_question(without_question(s, i), s.questions[i].question.id, someone),
{
    lemma_wf_remove_question(s, i);
    let id = s.questions[i].question.id;
    let j = choose|j: int| 0 <= j < s.questions.len() && s.questions[j].question.id == id;
    if j < i {
        assert(s.questions[j].question.id < s.questions[i].question.id);
    } else if j > i {
        assert(s.questions[i].question.id < s.questions[j].question.id);
    }
}

/// What seeding the administrator account does: an existing account with
/// the email keeps everything but its names, which are replaced; otherwise a
/// new active staff superuser is added.
pub open spec fn superuser_upsert(
    s: StoreModel,
    t: StoreModel,
    email: String,
    password: String,
    first_name: String,
    last_name: String,
    now: u64,
    r: Result<u128, CustomAppError>,
) -> bool {
    if email_taken(s, email@) {
        let u = user_with_email(s, email@);
        &&& r == Ok::<u128, CustomAppError>(u.id)
        &&& exists|i: int|
            0 <= i < s.users.len() && s.users[i] == u && t == with_user_at(
                s,
                i,
                User { first_name, last_name, ..u },
            )
    } else if s.next_id == u128::MAX {
        r == Err::<u128, CustomAppError>(CustomAppError::InternalError) && t == s
    } else {
        &&& r == Ok::<u128, CustomAppError>(s.next_id)
        &&& t == with_user(s, superuser_row(s.next_id, email, password, first_name, last_name, now))
    }
}

pub open spec fn name_among(names: Seq<Seq<char>>) -> spec_fn(Tag) -> bool {
    |t: Tag| names.contains(t.name@)
}

/// The ids of the tags whose name is among `names`, in table order.
pub open spec fn tag_ids_named(s: StoreModel, names: Seq<Seq<char>>) -> Seq<Seq<char>> {
    s.tags.filter(name_among(names)).map_values(|t: Tag| t.id@)
}

struct QuestionRow {
    question: Question,
    tags: Vec<String>,
}

/// The relational tables behind the forum: users, tags, questions with their
/// tag associations, and answers. Every operation either applies in full or
/// leaves the tables as they were.
pub struct Store {
    users: Vec<User>,
    tags: Vec<Tag>,
    questions: Vec<QuestionRow>,
    answers: Vec<Answer>,
    next_id: u128,
}

impl View for Store {
    type V = StoreModel;

    closed spec fn view(&self) -> StoreModel {
        StoreModel {
            users: self.users@,
            tags: self.tags@,
            questions: self.questions@.map_values(
                |r: QuestionRow| QuestionRecord { question: r.question, tags: views_of(r.tags@) },
            ),
            answers: self.answers@,
            next_id: self.next_id,
        }
    }
}

impl Store {
    pub open spec fn wf(&self) -> bool {
        model_wf(self@)
    }

    pub fn new() -> (r: Store)
        ensures
            r.wf(),
            r@.users.len() == 0,
            r@.tags.len() == 0,
            r@.questions.len() == 0,
            r@.answers.len() == 0,
            r@.next_id == 1,
    {
        let r = Store {
            users: Vec::new(),
            tags: Vec::new(),
            questions: Vec::new(),
            answers: Vec::new(),
            next_id: 1,
        };
        r
    }

    fn find_user(&self, id: u128) -> (r: Option<usize>)
        requires
            self.wf(),
        ensures
            match r {
                Some(i) => i < self@.users.len() && self@.users[i as int].id == id && user_at(
                    self@,
                    id,
                ) == Some(self@.users[i as int]),
                None => user_at(self@, id) is None,
            },
    {
        let mut i: usize = 0;
        while i < self.users.len()
            invariant
                self.wf(),
                i <= self.users@.len(),
                forall|j: int| 0 <= j < i ==> self.users@[j].id != id,
            decreases self.users@.len() - i,
        {
            if self.users[i].id == id {
                proof {
                    let m = self@;
                    assert(m.users[i as int].id == id);
                    let j = choose|j: int| 0 <= j < m.users.len() && m.users[j].id == id;
                    if j < i {
                        assert(m.users[j].id < m.users[i as int].id);
                    } else if j > i {
                        assert(m.users[i as int].id < m.users[j].id);
                    }
                }
                return Some(i);
            }
            i = i + 1;
        }
        None
    }

    fn find_email(&self, email: &str) -> (r: Option<usize>)
        requires
            self.wf(),
        ensures
            match r {
                Some(i) => i < self@.users.len() && self@.users[i as int].email@ == email@
                    && email_taken(self@, email@) && user_with_email(self@, email@)
                    == self@.users[i as int],
                None => !email_taken(self@, email@),
            },
    {
        let mut i: usize = 0;
        while i < self.users.len()
            invariant
                self.wf(),
                i <= self.users@.len(),
                forall|j: int| 0 <= j < i ==> self.users@[j].email@ != email@,
            decreases self.users@.len() - i,
        {
            if constant_time_eq(self.users[i].email.as_str(), email) {
                proof {
                    let m = self@;
                    assert(m.users[i as int].email@ == email@);
                    let j = choose|j: int| 0 <= j < m.users.len() && m.users[j].email@ == email@;
                    if j != i {
                        assert(m.users[i as int].email@ != m.users[j].email@);
                    }
                }
                return Some(i);
            }
            i = i + 1;
        }
        None
    }
}

impl Store {
    /// Adds an account, inactive and without roles. Fails `Conflict` when the
    /// email is already registered.
    pub fn create_user(
        &mut self,
        first_name: String,
        last_name: String,
        email: String,
        password: String,
        now: u64,
    ) -> (r: Result<UserVisible, CustomAppError>)
        requires
            old(self).wf(),
        ensures
            final(self).wf(),
            email_taken(old(self)@, email@) ==> r == Err::<UserVisible, CustomAppError>(
                CustomAppError::Conflict,
            ) && final(self)@ == old(self)@,
            !email_taken(old(self)@, email@) && old(self)@.next_id == u128::MAX ==> r == Err::<
                UserVisible,
                CustomAppError,
            >(CustomAppError::InternalError) && final(self)@ == old(self)@,
            !email_taken(old(self)@, email@) && old(self)@.next_id < u128::MAX ==> {
                let u = registered_user(
                    old(self)@.next_id,
                    email,
                    password,
                    first_name,
                    last_name,
                    now,
                );
                &&& r == Ok::<UserVisible, CustomAppError>(visible_of(u))
                &&& final(self)@ == with_user(old(self)@, u)
            },
    {
        if self.find_email(email.as_str()).is_some() {
            return Err(CustomAppError::Conflict);
        }
        if self.next_id == u128::MAX {
            return Err(CustomAppError::InternalError);
        }
        let u = User {
            id: self.next_id,
            email,
            password,
            first_name,
            last_name,
            is_active: false,
            is_staff: false,
            is_superuser: false,
            thumbnail: None,
            date_joined: now,
        };
        let visible = u.visible();
        proof {
            lemma_wf_push_user(self@, u);
        }
        self.users.push(u);
        self.next_id = self.next_id + 1;
        assert(self@.questions =~= old(self)@.questions);
        assert(self@ =~= with_user(old(self)@, u));
        Ok(visible)
    }

    /// The active account with this email; inactive and unknown accounts are
    /// not told apart.
    pub fn get_user_by_email(&self, email: &str) -> (r: Result<User, CustomAppError>)
        requires
            self.wf(),
        ensures
            match active_user_by_email(self@, email@) {
                Some(u) => r == Ok::<User, CustomAppError>(u),
                None => r == Err::<User, CustomAppError>(CustomAppError::UnauthorizedOrNotFound),
            },
    {
        match self.find_email(email) {
            Some(i) => {
                if self.users[i].is_active {
                    Ok(self.users[i].copy())
                } else {
                    Err(CustomAppError::UnauthorizedOrNotFound)
                }
            },
            None => Err(CustomAppError::UnauthorizedOrNotFound),
        }
    }

    /// The active account with this id.
    pub fn get_user_by_id(&self, id: u128) -> (r: Result<User, CustomAppError>)
        requires
            self.wf(),
        ensures
            match active_user_by_id(self@, id) {
                Some(u) => r == Ok::<User, CustomAppError>(u),
                None => r == Err::<User, CustomAppError>(CustomAppError::UnauthorizedOrNotFound),
            },
    {
        match self.find_user(id) {
            Some(i) => {
                if self.users[i].is_active {
                    Ok(self.users[i].copy())
                } else {
                    Err(CustomAppError::UnauthorizedOrNotFound)
                }
            },
            None => Err(CustomAppError::UnauthorizedOrNotFound),
        }
    }

    /// Marks the account active; nothing else about it changes. An id
    /// without an account changes nothing and is no error.
    pub fn activate_user(&mut self, id: u128) -> (r: Result<(), CustomAppError>)
        requires
            old(self).wf(),
        ensures
            final(self).wf(),
            r is Ok,
            match user_at(old(self)@, id) {
                Some(u) => exists|i: int|
                    0 <= i < old(self)@.users.len() && old(self)@.users[i].id == id
                        && final(self)@ == with_user_at(
                        old(self)@,
                        i,
                        User { is_active: true, ..u },
                    ),
                None => final(self)@ == old(self)@,
            },
    {
        match self.find_user(id) {
            Some(i) => {
                let ghost u = self@.users[i as int];
                proof {
                    lemma_wf_update_user(self@, i as int, User { is_active: true, ..u });
                }
                let mut row = self.users[i].copy();
                row.is_active = true;
                self.users.set(i, row);
                assert(self@ =~= with_user_at(old(self)@, i as int, User { is_active: true, ..u }));
                Ok(())
            },
            None => Ok(()),
        }
    }
}

impl Store {
    fn find_tag(&self, id: &str) -> (r: Option<usize>)
        requires
            self.wf(),
        ensures
            match r {
                Some(i) => i < self@.tags.len() && self@.tags[i as int].id@ == id@ && tag_exists(
                    self@,
                    id@,
                ) && tag_with_id(self@, id@) == self@.tags[i as int],
                None => !tag_exists(self@, id@),
            },
    {
        let mut i: usize = 0;
        while i < self.tags.len()
            invariant
                self.wf(),
                i <= self.tags@.len(),
                forall|j: int| 0 <= j < i ==> self.tags@[j].id@ != id@,
            decreases self.tags@.len() - i,
        {
            if constant_time_eq(self.tags[i].id.as_str(), id) {
                proof {
                    let m = self@;
                    assert(m.tags[i as int].id@ == id@);
                    let j = choose|j: int| 0 <= j < m.tags.len() && m.tags[j].id@ == id@;
                    if j != i {
                        assert(m.tags[i as int].id@ != m.tags[j].id@);
                    }
                }
                return Some(i);
            }
            i = i + 1;
        }
        None
    }

    /// Adds a tag, or replaces the tag with the same id.
    pub fn upsert_tag(&mut self, tag: Tag)
        requires
            old(self).wf(),
        ensures
            final(self).wf(),
            tag_exists(old(self)@, tag.id@) ==> exists|i: int|
                0 <= i < old(self)@.tags.len() && old(self)@.tags[i].id@ == tag.id@
                    && final(self)@ == (StoreModel {
                    tags: old(self)@.tags.update(i, tag),
                    ..old(self)@
                }),
            !tag_exists(old(self)@, tag.id@) ==> final(self)@ == (StoreModel {
                tags: old(self)@.tags.push(tag),
                ..old(self)@
            }),
    {
        let ghost s = self@;
        match self.find_tag(tag.id.as_str()) {
            Some(i) => {
                let ghost t = StoreModel { tags: s.tags.update(i as int, tag), ..s };
                self.tags.set(i, tag);
                assert(self@ =~= t);
                proof {
                    assert forall|id: Seq<char>| tag_exists(s, id) implies tag_exists(t, id) by {
                        let j = choose|j: int| 0 <= j < s.tags.len() && s.tags[j].id@ == id;
                        assert(t.tags[j].id@ == id);
                    }
                    assert forall|id: u128| question_exists(s, id) implies question_exists(
                        t,
                        id,
                    ) by {
                        let j = choose|j: int|
                            0 <= j < s.questions.len() && s.questions[j].question.id == id;
                        assert(t.questions[j].question.id == id);
                    }
                    assert forall|id: u128| user_exists(s, id) implies user_exists(t, id) by {
                        let j = choose|j: int| 0 <= j < s.users.len() && s.users[j].id == id;
                        assert(t.users[j].id == id);
                    }
                }
            },
            None => {
                let ghost t = StoreModel { tags: s.tags.push(tag), ..s };
                self.tags.push(tag);
                assert(self@ =~= t);
                proof {
                    assert forall|id: Seq<char>| tag_exists(s, id) implies tag_exists(t, id) by {
                        let j = choose|j: int| 0 <= j < s.tags.len() && s.tags[j].id@ == id;
                        assert(t.tags[j].id@ == id);
                    }
                    assert forall|id: u128| question_exists(s, id) implies question_exists(
                        t,
                        id,
                    ) by {
                        let j = choose|j: int|
                            0 <= j < s.questions.len() && s.questions[j].question.id == id;
                        assert(t.questions[j].question.id == id);
                    }
                    assert forall|id: u128| user_exists(s, id) implies user_exists(t, id) by {
                        let j = choose|j: int| 0 <= j < s.users.len() && s.users[j].id == id;
                        assert(t.users[j].id == id);
                    }
                }
            },
        }
    }

    /// Succeeds exactly when the list is not empty and every id names a tag.
    pub fn validate_tags(&self, tag_ids: &Vec<String>) -> (r: Result<(), CustomAppError>)
        requires
            self.wf(),
        ensures
            r == tags_validation(self@, views_of(tag_ids@)),
    {
        if tag_ids.len() == 0 {
            return Err(CustomAppError::InvalidInput);
        }
        let ghost ids = views_of(tag_ids@);
        let mut k: usize = 0;
        while k < tag_ids.len()
            invariant
                self.wf(),
                ids == views_of(tag_ids@),
                k <= tag_ids@.len(),
                forall|j: int| 0 <= j < k ==> tag_exists(self@, #[trigger] ids[j]),
            decreases tag_ids@.len() - k,
        {
            if self.find_tag(tag_ids[k].as_str()).is_none() {
                assert(!tag_exists(self@, ids[k as int]));
                return Err(CustomAppError::InvalidTag);
            }
            k = k + 1;
        }
        Ok(())
    }

    fn has_duplicate(ids: &Vec<String>) -> (r: bool)
        ensures
            r == !views_of(ids@).no_duplicates(),
    {
        let ghost v = views_of(ids@);
        let mut i: usize = 0;
        while i < ids.len()
            invariant
                v == views_of(ids@),
                i <= ids@.len(),
                forall|a: int, b: int| 0 <= a < b < v.len() && a < i ==> v[a] != v[b],
            decreases ids@.len() - i,
        {
            let mut j: usize = i + 1;
            while j < ids.len()
                invariant
                    v == views_of(ids@),
                    i < j <= ids@.len(),
                    forall|a: int, b: int| 0 <= a < b < v.len() && a < i ==> v[a] != v[b],
                    forall|b: int| i < b < j ==> v[i as int] != v[b],
                decreases ids@.len() - j,
            {
                if ids[i] == ids[j] {
                    assert(v[i as int] == v[j as int]);
                    return true;
                }
                j = j + 1;
            }
            i = i + 1;
        }
        false
    }

    fn compose_question(&self, idx: usize) -> (r: QuestionAuthorWithTags)
        requires
            self.wf(),
            idx < self@.questions.len(),
        ensures
            composes(self@, self@.questions[idx as int], r),
    {
        let ghost rec = self@.questions[idx as int];
        let row = &self.questions[idx];
        let ui = match self.find_user(row.question.author) {
            Some(ui) => ui,
            None => {
                assert(user_exists(self@, rec.question.author));
                let ghost j = choose|j: int|
                    0 <= j < self@.users.len() && self@.users[j].id == rec.question.author;
                assert(false);
                0
            },
        };
        let author = self.users[ui].visible();
        let mut tags: Vec<Tag> = Vec::new();
        let mut k: usize = 0;
        while k < row.tags.len()
            invariant
                self.wf(),
                idx < self@.questions.len(),
                rec == self@.questions[idx as int],
                *row == self.questions@[idx as int],
                rec.tags == views_of(row.tags@),
                k <= row.tags@.len(),
                tags@.len() == k,
                forall|j: int|
                    0 <= j < k ==> tags@[j] == tag_with_id(self@, #[trigger] rec.tags[j]),
            decreases row.tags@.len() - k,
        {
            assert(tag_exists(self@, rec.tags[k as int]));
            match self.find_tag(row.tags[k].as_str()) {
                Some(ti) => {
                    tags.push(self.tags[ti].copy());
                },
                None => {
                    assert(false);
                },
            }
            k = k + 1;
        }
        assert(tags@ =~= tags_named(self@, rec.tags));
        let q = &row.question;
        QuestionAuthorWithTags {
            id: q.id,
            title: q.title.clone(),
            slug: q.slug.clone(),
            content: q.content.clone(),
            raw_content: q.raw_content.clone(),
            author,
            created_at: q.created_at,
            updated_at: q.updated_at,
            tags,
        }
    }

    fn find_question(&self, id: u128) -> (r: Option<usize>)
        requires
            self.wf(),
        ensures
            match r {
                Some(i) => i < self@.questions.len() && self@.questions[i as int].question.id == id
                    && question_at(self@, id) == Some(self@.questions[i as int]),
                None => question_at(self@, id) is None,
            },
    {
        let mut i: usize = 0;
        while i < self.questions.len()
            invariant
                self.wf(),
                i <= self.questions@.len(),
                forall|j: int| 0 <= j < i ==> self@.questions[j].question.id != id,
            decreases self.questions@.len() - i,
        {
            if self.questions[i].question.id == id {
                proof {
                    let m = self@;
                    assert(m.questions[i as int].question.id == id);
                    let j = choose|j: int|
                        0 <= j < m.questions.len() && m.questions[j].question.id == id;
                    if j < i {
                        assert(m.questions[j].question.id < m.questions[i as int].question.id);
                    } else if j > i {
                        assert(m.questions[i as int].question.id < m.questions[j].question.id);
                    }
                }
                return Some(i);
            }
            i = i + 1;
        }
        None
    }

    /// The composed view of one question.
    pub fn get_question_from_db(&self, question_id: u128) -> (r: Result<
        QuestionAuthorWithTags,
        CustomAppError,
    >)
        requires
            self.wf(),
        ensures
            match question_at(self@, question_id) {
                Some(q) => r matches Ok(v) && composes(self@, q, v),
                None => r == Err::<QuestionAuthorWithTags, CustomAppError>(
                    CustomAppError::UnauthorizedOrNotFound,
                ),
            },
    {
        match self.find_question(question_id) {
            Some(i) => Ok(self.compose_question(i)),
            None => Err(CustomAppError::UnauthorizedOrNotFound),
        }
    }

    /// Writes a question with its tag associations and returns its composed
    /// view; on any failure nothing is written.
    pub fn create_question_in_db(&mut self, create_question: CreateQuestion, now: u64) -> (r:
        Result<QuestionAuthorWithTags, CustomAppError>)
        requires
            old(self).wf(),
        ensures
            final(self).wf(),
            match question_input_error(
                old(self)@,
                create_question.author,
                views_of(create_question.tags@),
            ) {
                Some(e) => r == Err::<QuestionAuthorWithTags, CustomAppError>(e) && final(self)@
                    == old(self)@,
                None => if old(self)@.next_id == u128::MAX {
                    r == Err::<QuestionAuthorWithTags, CustomAppError>(
                        CustomAppError::InternalError,
                    ) && final(self)@ == old(self)@
                } else {
                    let q = new_question_record(old(self)@.next_id, create_question, now);
                    &&& final(self)@ == with_question(old(self)@, q)
                    &&& r matches Ok(v) && composes(final(self)@, q, v)
                },
            },
    {
        let n = create_question.tags.len();
        if n < 1 || n > 4 || Self::has_duplicate(&create_question.tags) {
            return Err(CustomAppError::InvalidInput);
        }
        match self.validate_tags(&create_question.tags) {
            Ok(()) => {},
            Err(e) => {
                return Err(e);
            },
        }
        if self.find_user(create_question.author).is_none() {
            return Err(CustomAppError::UnauthorizedOrNotFound);
        }
        if self.next_id == u128::MAX {
            return Err(CustomAppError::InternalError);
        }
        let ghost q = new_question_record(self@.next_id, create_question, now);
        let question = Question {
            id: self.next_id,
            title: create_question.title,
            slug: create_question.slug,
            content: create_question.content,
            raw_content: create_question.raw_content,
            author: create_question.author,
            created_at: now,
            updated_at: now,
        };
        proof {
            lemma_wf_push_question(self@, q);
        }
        self.questions.push(QuestionRow { question, tags: create_question.tags });
        self.next_id = self.next_id + 1;
        assert(self@.questions =~= old(self)@.questions.push(q));
        assert(self@ =~= with_question(old(self)@, q));
        let idx = self.questions.len() - 1;
        Ok(self.compose_question(idx))
    }
}

impl Store {
    /// Rewrites a question and its tags, in one step with the check that
    /// `update.author` wrote it. A missing question and someone else's are
    /// refused alike, and leave everything as it was.
    pub fn update_question_in_db(
        &mut self,
        question_id: u128,
        update: CreateQuestion,
        now: u64,
    ) -> (r: Result<QuestionAuthorWithTags, CustomAppError>)
        requires
            old(self).wf(),
        ensures
            final(self).wf(),
            !owns_question(old(self)@, question_id, update.author) ==> r == Err::<
                QuestionAuthorWithTags,
                CustomAppError,
            >(CustomAppError::UnauthorizedOrNotFound) && final(self)@ == old(self)@,
            owns_question(old(self)@, question_id, update.author) ==> match question_input_error(
                old(self)@,
                update.author,
                views_of(update.tags@),
            ) {
                Some(e) => r == Err::<QuestionAuthorWithTags, CustomAppError>(e) && final(self)@
                    == old(self)@,
                None => {
                    let q = updated_question_record(
                        question_at(old(self)@, question_id)->Some_0,
                        update,
                        now,
                    );
                    &&& exists|i: int|
                        0 <= i < old(self)@.questions.len() && #[trigger] old(self)@.questions[i]
                            == question_at(old(self)@, question_id)->Some_0 && final(self)@
                            == with_question_at(old(self)@, i, q)
                    &&& r matches Ok(v) && composes(final(self)@, q, v)
                },
            },
    {
        let i = match self.find_question(question_id) {
            Some(i) => i,
            None => {
                return Err(CustomAppError::UnauthorizedOrNotFound);
            },
        };
        if self.questions[i].question.author != update.author {
            return Err(CustomAppError::UnauthorizedOrNotFound);
        }
        let n = update.tags.len();
        if n < 1 || n > 4 || Self::has_duplicate(&update.tags) {
            return Err(CustomAppError::InvalidInput);
        }
        match self.validate_tags(&update.tags) {
            Ok(()) => {},
            Err(e) => {
                return Err(e);
            },
        }
        if self.find_user(update.author).is_none() {
            return Err(CustomAppError::UnauthorizedOrNotFound);
        }
        let ghost old_rec = self@.questions[i as int];
        let ghost q = updated_question_record(old_rec, update, now);
        let created_at = self.questions[i].question.created_at;
        let question = Question {
            id: question_id,
            title: update.title,
            slug: update.slug,
            content: update.content,
            raw_content: update.raw_content,
            author: update.author,
            created_at,
            updated_at: now,
        };
        proof {
            lemma_wf_update_question(self@, i as int, q);
        }
        self.questions.set(i, QuestionRow { question, tags: update.tags });
        assert(self@.questions =~= old(self)@.questions.update(i as int, q));
        assert(self@ =~= with_question_at(old(self)@, i as int, q));
        Ok(self.compose_question(i))
    }

    /// Deletes a question, with its tag associations and its answers, in one
    /// step with the check that `author_id` wrote it.
    pub fn delete_question_from_db(&mut self, author_id: u128, question_id: u128) -> (r: Result<
        (),
        CustomAppError,
    >)
        requires
            old(self).wf(),
        ensures
            final(self).wf(),
            !owns_question(old(self)@, question_id, author_id) ==> r == Err::<(), CustomAppError>(
                CustomAppError::UnauthorizedOrNotFound,
            ) && final(self)@ == old(self)@,
            owns_question(old(self)@, question_id, author_id) ==> r is Ok && exists|i: int|
                0 <= i < old(self)@.questions.len() && old(self)@.questions[i].question.id
                    == question_id && final(self)@ == without_question(old(self)@, i),
    {
        let i = match self.find_question(question_id) {
            Some(i) => i,
            None => {
                return Err(CustomAppError::UnauthorizedOrNotFound);
            },
        };
        if self.questions[i].question.author != author_id {
            return Err(CustomAppError::UnauthorizedOrNotFound);
        }
        let ghost s = self@;
        let ghost pred = not_answer_of(question_id);
        proof {
            lemma_wf_remove_question(s, i as int);
        }
        let mut kept: Vec<Answer> = Vec::new();
        let mut k: usize = 0;
        while k < self.answers.len()
            invariant
                s == self@,
                k <= self.answers@.len(),
                kept@ == self.answers@.subrange(0, k as int).filter(pred),
                pred == not_answer_of(question_id),
            decreases self.answers@.len() - k,
        {
            proof {
                reveal(Seq::filter);
                assert(self.answers@.subrange(0, k + 1).drop_last() =~= self.answers@.subrange(
                    0,
                    k as int,
                ));
            }
            if self.answers[k].question != question_id {
                kept.push(self.answers[k].copy());
            }
            k = k + 1;
        }
        assert(self.answers@.subrange(0, self.answers@.len() as int) =~= self.answers@);
        self.questions.remove(i);
        self.answers = kept;
        assert(self@.questions =~= s.questions.remove(i as int));
        assert(self@ =~= without_question(s, i as int));
        Ok(())
    }

    /// The composed view of every question, in the order they were written.
    pub fn get_all_questions_from_db(&self) -> (r: Vec<QuestionAuthorWithTags>)
        requires
            self.wf(),
        ensures
            r@.len() == self@.questions.len(),
            forall|i: int|
                0 <= i < r@.len() ==> composes(self@, self@.questions[i], #[trigger] r@[i]),
    {
        let mut out: Vec<QuestionAuthorWithTags> = Vec::new();
        let mut i: usize = 0;
        while i < self.questions.len()
            invariant
                self.wf(),
                i <= self@.questions.len(),
                out@.len() == i,
                forall|j: int|
                    0 <= j < i ==> composes(self@, self@.questions[j], #[trigger] out@[j]),
            decreases self@.questions.len() - i,
        {
            out.push(self.compose_question(i));
            i = i + 1;
        }
        out
    }
}

impl Store {
    fn find_answer(&self, id: u128) -> (r: Option<usize>)
        requires
            self.wf(),
        ensures
            match r {
                Some(i) => i < self@.answers.len() && self@.answers[i as int].id == id
                    && answer_at(self@, id) == Some(self@.answers[i as int]),
                None => answer_at(self@, id) is None,
            },
    {
        let mut i: usize = 0;
        while i < self.answers.len()
            invariant
                self.wf(),
                i <= self.answers@.len(),
                forall|j: int| 0 <= j < i ==> self@.answers[j].id != id,
            decreases self.answers@.len() - i,
        {
            if self.answers[i].id == id {
                proof {
                    let m = self@;
                    assert(m.answers[i as int].id == id);
                    let j = choose|j: int| 0 <= j < m.answers.len() && m.answers[j].id == id;
                    if j < i {
                        assert(m.answers[j].id < m.answers[i as int].id);
                    } else if j > i {
                        assert(m.answers[i as int].id < m.answers[j].id);
                    }
                }
                return Some(i);
            }
            i = i + 1;
        }
        None
    }

    fn compose_answer(&self, a: &Answer) -> (r: AnswerAuthor)
        requires
            self.wf(),
            user_exists(self@, a.author),
        ensures
            answer_composes(self@, *a, r),
    {
        let ui = match self.find_user(a.author) {
            Some(ui) => ui,
            None => {
                let ghost j = choose|j: int|
                    0 <= j < self@.users.len() && self@.users[j].id == a.author;
                assert(false);
                0
            },
        };
        AnswerAuthor {
            id: a.id,
            content: a.content.clone(),
            raw_content: a.raw_content.clone(),
            author: self.users[ui].visible(),
            created_at: a.created_at,
            updated_at: a.updated_at,
        }
    }

    /// The composed view of one answer.
    pub fn get_an_answer_from_db(&self, answer_id: u128) -> (r: Result<
        AnswerAuthor,
        CustomAppError,
    >)
        requires
            self.wf(),
        ensures
            match answer_at(self@, answer_id) {
                Some(a) => r matches Ok(v) && answer_composes(self@, a, v),
                None => r == Err::<AnswerAuthor, CustomAppError>(
                    CustomAppError::UnauthorizedOrNotFound,
                ),
            },
    {
        match self.find_answer(answer_id) {
            Some(i) => Ok(self.compose_answer(&self.answers[i])),
            None => Err(CustomAppError::UnauthorizedOrNotFound),
        }
    }

    /// The composed views of the answers to a question, oldest first.
    pub fn get_answers_from_db(&self, question_id: u128) -> (r: Vec<AnswerAuthor>)
        requires
            self.wf(),
        ensures
            r@.len() == self@.answers.filter(answer_of(question_id)).len(),
            forall|i: int|
                0 <= i < r@.len() ==> answer_composes(
                    self@,
                    self@.answers.filter(answer_of(question_id))[i],
                    #[trigger] r@[i],
                ),
    {
        let ghost pred = answer_of(question_id);
        let mut out: Vec<AnswerAuthor> = Vec::new();
        let mut k: usize = 0;
        while k < self.answers.len()
            invariant
                self.wf(),
                pred == answer_of(question_id),
                k <= self.answers@.len(),
                out@.len() == self.answers@.subrange(0, k as int).filter(pred).len(),
                forall|i: int|
                    0 <= i < out@.len() ==> answer_composes(
                        self@,
                        self.answers@.subrange(0, k as int).filter(pred)[i],
                        #[trigger] out@[i],
                    ),
            decreases self.answers@.len() - k,
        {
            proof {
                reveal(Seq::filter);
                assert(self.answers@.subrange(0, k + 1).drop_last() =~= self.answers@.subrange(
                    0,
                    k as int,
                ));
            }
            if self.answers[k].question == question_id {
                assert(user_exists(self@, self@.answers[k as int].author));
                out.push(self.compose_answer(&self.answers[k]));
            }
            k = k + 1;
        }
        assert(self.answers@.subrange(0, self.answers@.len() as int) =~= self.answers@);
        out
    }

    /// Writes an answer to an existing question and returns its composed
    /// view.
    pub fn create_answer_in_db(&mut self, create_answer: CreateAnswer, now: u64) -> (r: Result<
        AnswerAuthor,
        CustomAppError,
    >)
        requires
            old(self).wf(),
        ensures
            final(self).wf(),
            !question_exists(old(self)@, create_answer.question) || !user_exists(
                old(self)@,
                create_answer.author,
            ) ==> r == Err::<AnswerAuthor, CustomAppError>(CustomAppError::UnauthorizedOrNotFound)
                && final(self)@ == old(self)@,
            question_exists(old(self)@, create_answer.question) && user_exists(
                old(self)@,
                create_answer.author,
            ) && old(self)@.next_id == u128::MAX ==> r == Err::<AnswerAuthor, CustomAppError>(
                CustomAppError::InternalError,
            ) && final(self)@ == old(self)@,
            question_exists(old(self)@, create_answer.question) && user_exists(
                old(self)@,
                create_answer.author,
            ) && old(self)@.next_id < u128::MAX ==> {
                let a = new_answer_row(old(self)@.next_id, create_answer, now);
                &&& final(self)@ == with_answer(old(self)@, a)
                &&& r matches Ok(v) && answer_composes(final(self)@, a, v)
            },
    {
        if self.find_question(create_answer.question).is_none() {
            return Err(CustomAppError::UnauthorizedOrNotFound);
        }
        if self.find_user(create_answer.author).is_none() {
            return Err(CustomAppError::UnauthorizedOrNotFound);
        }
        if self.next_id == u128::MAX {
            return Err(CustomAppError::InternalError);
        }
        let a = Answer {
            id: self.next_id,
            content: create_answer.content,
            raw_content: create_answer.raw_content,
            author: create_answer.author,
            question: create_answer.question,
            created_at: now,
            updated_at: now,
        };
        let ghost s = self@;
        let ghost t = with_answer(s, a);
        proof {
            assert forall|i: int| 0 <= i < t.answers.len() implies user_exists(
                s,
                #[trigger] t.answers[i].author,
            ) && question_exists(s, t.answers[i].question) by {
                if i < s.answers.len() {
                    assert(t.answers[i] == s.answers[i]);
                }
            }
            lemma_wf_answers_changed(s, t);
        }
        let view = self.compose_answer(&a);
        self.answers.push(a);
        self.next_id = self.next_id + 1;
        assert(self@.questions =~= s.questions);
        assert(self@ =~= t);
        proof {
            assert forall|id: u128| user_exists(s, id) implies user_exists(t, id) by {
                let j = choose|j: int| 0 <= j < s.users.len() && s.users[j].id == id;
                assert(t.users[j].id == id);
            }
            assert(user_at(t, a.author) == user_at(s, a.author));
        }
        Ok(view)
    }

    /// Rewrites an answer's content, in one step with the check that
    /// `update.author` wrote it.
    pub fn update_answer_in_db(&mut self, update: UpdateAnswer, now: u64) -> (r: Result<
        AnswerAuthor,
        CustomAppError,
    >)
        requires
            old(self).wf(),
        ensures
            final(self).wf(),
            !owns_answer(old(self)@, update.answer_id, update.author) ==> r == Err::<
                AnswerAuthor,
                CustomAppError,
            >(CustomAppError::UnauthorizedOrNotFound) && final(self)@ == old(self)@,
            owns_answer(old(self)@, update.answer_id, update.author) ==> {
                let old_a = answer_at(old(self)@, update.answer_id)->Some_0;
                let a = Answer {
                    content: update.content,
                    raw_content: update.raw_content,
                    updated_at: now,
                    ..old_a
                };
                &&& exists|i: int|
                    0 <= i < old(self)@.answers.len() && old(self)@.answers[i].id
                        == update.answer_id && final(self)@ == with_answer_at(old(self)@, i, a)
                &&& r matches Ok(v) && answer_composes(final(self)@, a, v)
            },
    {
        let i = match self.find_answer(update.answer_id) {
            Some(i) => i,
            None => {
                return Err(CustomAppError::UnauthorizedOrNotFound);
            },
        };
        if self.answers[i].author != update.author {
            return Err(CustomAppError::UnauthorizedOrNotFound);
        }
        let ghost s = self@;
        let old_a = self.answers[i].copy();
        let a = Answer {
            id: old_a.id,
            content: update.content,
            raw_content: update.raw_content,
            author: old_a.author,
            question: old_a.question,
            created_at: old_a.created_at,
            updated_at: now,
        };
        let ghost t = with_answer_at(s, i as int, a);
        proof {
            assert forall|x: int, y: int|
                0 <= x < y < t.answers.len() implies #[trigger] t.answers[x].id
                < #[trigger] t.answers[y].id by {
                assert(s.answers[x].id < s.answers[y].id);
            }
            assert forall|x: int| 0 <= x < t.answers.len() implies #[trigger] t.answers[x].id
                < t.next_id && user_exists(s, t.answers[x].author) && question_exists(
                s,
                t.answers[x].question,
            ) by {
                assert(s.answers[x].id < s.next_id);
            }
            lemma_wf_answers_changed(s, t);
            assert forall|id: u128| user_exists(s, id) implies user_exists(t, id) by {
                let j = choose|j: int| 0 <= j < s.users.len() && s.users[j].id == id;
                assert(t.users[j].id == id);
            }
        }
        let view = self.compose_answer(&a);
        self.answers.set(i, a);
        assert(self@.questions =~= s.questions);
        assert(self@ =~= t);
        Ok(view)
    }

    /// Deletes an answer, in one step with the check that `author_id` wrote
    /// it.
    pub fn delete_answer_from_db(&mut self, author_id: u128, answer_id: u128) -> (r: Result<
        (),
        CustomAppError,
    >)
        requires
            old(self).wf(),
        ensures
            final(self).wf(),
            !owns_answer(old(self)@, answer_id, author_id) ==> r == Err::<(), CustomAppError>(
                CustomAppError::UnauthorizedOrNotFound,
            ) && final(self)@ == old(self)@,
            owns_answer(old(self)@, answer_id, author_id) ==> r is Ok && exists|i: int|
                0 <= i < old(self)@.answers.len() && old(self)@.answers[i].id == answer_id
                    && final(self)@ == without_answer(old(self)@, i),
    {
        let i = match self.find_answer(answer_id) {
            Some(i) => i,
            None => {
                return Err(CustomAppError::UnauthorizedOrNotFound);
            },
        };
        if self.answers[i].author != author_id {
            return Err(CustomAppError::UnauthorizedOrNotFound);
        }
        let ghost s = self@;
        let ghost t = without_answer(s, i as int);
        proof {
            assert forall|x: int| 0 <= x < t.answers.len() implies t.answers[x] == (if x < i {
                s.answers[x]
            } else {
                s.answers[x + 1]
            }) by {}
            assert forall|x: int, y: int|
                0 <= x < y < t.answers.len() implies #[trigger] t.answers[x].id
                < #[trigger] t.answers[y].id by {
                if x < i && y >= i {
                    assert(s.answers[x].id < s.answers[y + 1].id);
                } else if x >= i {
                    assert(s.answers[x + 1].id < s.answers[y + 1].id);
                }
            }
            assert forall|x: int| 0 <= x < t.answers.len() implies #[trigger] t.answers[x].id
                < t.next_id && user_exists(s, t.answers[x].author) && question_exists(
                s,
                t.answers[x].question,
            ) by {
                if x >= i {
                    assert(s.answers[x + 1].id < s.next_id);
                }
            }
            lemma_wf_answers_changed(s, t);
        }
        self.answers.remove(i);
        assert(self@.questions =~= s.questions);
        assert(self@ =~= t);
        Ok(())
    }
}

impl Store {
    /// Seeds the administrator account: an active staff superuser. Where the
    /// email is registered already, only the names are brought up to date.
    pub fn create_super_user_in_db(
        &mut self,
        email: String,
        password: String,
        first_name: String,
        last_name: String,
        now: u64,
    ) -> (r: Result<u128, CustomAppError>)
        requires
            old(self).wf(),
        ensures
            final(self).wf(),
            superuser_upsert(
                old(self)@,
                final(self)@,
                email,
                password,
                first_name,
                last_name,
                now,
                r,
            ),
    {
        match self.find_email(email.as_str()) {
            Some(i) => {
                let ghost u = self@.users[i as int];
                let ghost nu = User { first_name, last_name, ..u };
                proof {
                    lemma_wf_update_user(self@, i as int, nu);
                }
                let mut row = self.users[i].copy();
                row.first_name = first_name;
                row.last_name = last_name;
                let id = row.id;
                self.users.set(i, row);
                assert(self@ =~= with_user_at(old(self)@, i as int, nu));
                Ok(id)
            },
            None => {
                if self.next_id == u128::MAX {
                    return Err(CustomAppError::InternalError);
                }
                let id = self.next_id;
                let u = User {
                    id,
                    email,
                    password,
                    first_name,
                    last_name,
                    is_active: true,
                    is_staff: true,
                    is_superuser: true,
                    thumbnail: None,
                    date_joined: now,
                };
                proof {
                    lemma_wf_push_user(self@, u);
                }
                self.users.push(u);
                self.next_id = self.next_id + 1;
                assert(self@.questions =~= old(self)@.questions);
                assert(self@ =~= with_user(old(self)@, u));
                Ok(id)
            },
        }
    }
}

impl Store {
    /// Whether `author` wrote the question `question_id`.
    pub fn question_owned_by(&self, question_id: u128, author: u128) -> (r: bool)
        requires
            self.wf(),
        ensures
            r == owns_question(self@, question_id, author),
    {
        match self.find_question(question_id) {
            Some(i) => self.questions[i].question.author == author,
            None => false,
        }
    }
}

impl Store {
    /// The ids of the tags whose display name is one of `tag_names`.
    pub fn get_tag_ids_from_db(&self, tag_names: &Vec<String>) -> (r: Vec<String>)
        ensures
            views_of(r@) == tag_ids_named(self@, views_of(tag_names@)),
    {
        let ghost pred = name_among(views_of(tag_names@));
        let mut out: Vec<String> = Vec::new();
        let mut k: usize = 0;
        while k < self.tags.len()
            invariant
                pred == name_among(views_of(tag_names@)),
                k <= self.tags@.len(),
                views_of(out@) == self.tags@.subrange(0, k as int).filter(pred).map_values(
                    |t: Tag| t.id@,
                ),
            decreases self.tags@.len() - k,
        {
            proof {
                reveal(Seq::filter);
                assert(self.tags@.subrange(0, k + 1).drop_last() =~= self.tags@.subrange(
                    0,
                    k as int,
                ));
            }
            let ghost before = self.tags@.subrange(0, k as int).filter(pred);
            if contains_string(tag_names, &self.tags[k].name) {
                let ghost prev = out@;
                let id = self.tags[k].id.clone();
                out.push(id);
                assert(views_of(out@) =~= views_of(prev).push(id@));
                let ghost t = self.tags@[k as int];
                assert(before.push(t).map_values(|t: Tag| t.id@) =~= before.map_values(
                    |t: Tag| t.id@,
                ).push(t.id@));
            }
            k = k + 1;
        }
        assert(self.tags@.subrange(0, self.tags@.len() as int) =~= self.tags@);
        out
    }
}

} // verus!
