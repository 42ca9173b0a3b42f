//! Subscriptions and birthday events.
//!
//! The repository is the in-memory image of the two persisted tables:
//! subscribed chats and birthday events. Every rule of the domain lives
//! here — at most one subscription per chat, no duplicate birthday triple,
//! a birthday only for a subscribed chat, and the cascade that removes a
//! chat's birthdays when it unsubscribes. The application around the
//! library mirrors each successful change into durable storage.

use vstd::prelude::*;

use crate::date::Date;

verus! {

/// The addressable target of delivered content: a chat handle.
#[derive(Debug, Clone, Copy, PartialEq, Eq, Structural)]
pub struct ChatId(pub i64);

/// A store operation that was refused, surfaced to the user as text.
#[derive(Debug, Clone, Copy, PartialEq, Eq, Structural)]
pub enum RepositoryError {
    /// The chat already holds a subscription.
    AlreadySubscribed,
    /// The chat holds no subscription.
    NotSubscribed,
    /// The same (chat, name, date) triple is already registered.
    DuplicateBirthday,
    /// A stored date failed to parse.
    BadDateTimeSyntax,
}

impl RepositoryError {
    pub open spec fn message_spec(self) -> Seq<char> {
        match self {
            RepositoryError::AlreadySubscribed => "Sei gia iscritto ai messaggi automatici."@,
            RepositoryError::NotSubscribed => "devi prima sottoscriverti ai messaggi automatici, prima di configurare un compleanno. Iscriviti con /caffeee"@,
            RepositoryError::DuplicateBirthday => "Questo compleanno e gia presente registrato"@,
            RepositoryError::BadDateTimeSyntax => "datetime has an invalid syntax"@,
        }
    }

    /// The user-readable text of the error.
    pub fn message(&self) -> (r: &'static str)
        ensures
            r@ == self.message_spec(),
    {
        match self {
            RepositoryError::AlreadySubscribed => "Sei gia iscritto ai messaggi automatici.",
            RepositoryError::NotSubscribed => "devi prima sottoscriverti ai messaggi automatici, prima di configurare un compleanno. Iscriviti con /caffeee",
            RepositoryError::DuplicateBirthday => "Questo compleanno e gia presente registrato",
            RepositoryError::BadDateTimeSyntax => "datetime has an invalid syntax",
        }
    }
}

/// Relies on chrono's `Utc::now` and `DateTime::to_rfc3339` for creation
/// timestamps; nothing is assumed of the clock's value.
#[verifier::external_body]
fn now_rfc3339() -> String {
    chrono::Utc::now().to_rfc3339()
}

/// One subscription row: a chat and when it subscribed.
#[derive(Debug)]
pub struct Chat {
    pub id: i64,
    pub created_at: String,
}

impl Chat {
    pub fn new(id: ChatId) -> (r: Chat)
        ensures
            r.id == id.0,
    {
        Chat { id: id.0, created_at: now_rfc3339() }
    }

    pub fn id(&self) -> (r: ChatId)
        ensures
            r.0 == self.id,
    {
        ChatId(self.id)
    }

    pub fn created_at(&self) -> (r: &str)
        ensures
            r@ == self.created_at@,
    {
        self.created_at.as_str()
    }

    /// Rebuild a row read back from durable storage, keeping its stored
    /// creation time.
    pub fn from_row(id: ChatId, created_at: String) -> (r: Chat)
        ensures
            r.id == id.0,
            r.created_at@ == created_at@,
    {
        Chat { id: id.0, created_at }
    }
}

/// One birthday row: the owning chat, a display name and the date.
#[derive(Debug)]
pub struct Birthday {
    pub chat: i64,
    pub name: String,
    pub date: Date,
    pub created_at: String,
}

impl Birthday {
    /// The identity of the row: duplicate detection works on this triple.
    pub open spec fn key(self) -> (i64, Seq<char>, Date) {
        (self.chat, self.name@, self.date)
    }

    pub fn new(chat_id: ChatId, name: String, date: Date) -> (r: Birthday)
        ensures
            r.chat == chat_id.0,
            r.name@ == name@,
            r.date == date,
    {
        Birthday { chat: chat_id.0, name, date, created_at: now_rfc3339() }
    }

    /// Return the owning `ChatId`.
    pub fn chat(&self) -> (r: ChatId)
        ensures
            r.0 == self.chat,
    {
        ChatId(self.chat)
    }

    pub fn name(&self) -> (r: &str)
        ensures
            r@ == self.name@,
    {
        self.name.as_str()
    }

    /// Return the birthdate.
    pub fn date(&self) -> (r: Date)
        ensures
            r == self.date,
    {
        self.date
    }

    pub fn created_at(&self) -> (r: &str)
        ensures
            r@ == self.created_at@,
    {
        self.created_at.as_str()
    }

    /// Rebuild a row read back from durable storage, keeping its stored
    /// creation time.
    pub fn from_row(chat_id: ChatId, name: String, date: Date, created_at: String) -> (r: Birthday)
        ensures
            r.chat == chat_id.0,
            r.name@ == name@,
            r.date == date,
            r.created_at@ == created_at@,
    {
        Birthday { chat: chat_id.0, name, date, created_at }
    }
}

impl Clone for Chat {
    fn clone(&self) -> (r: Self)
        ensures
            chat_row(r) == chat_row(*self),
    {
        Chat { id: self.id, created_at: self.created_at.clone() }
    }
}

impl Clone for Birthday {
    fn clone(&self) -> (r: Self)
        ensures
            birthday_row(r) == birthday_row(*self),
    {
        Birthday {
            chat: self.chat,
            name: self.name.clone(),
            date: self.date,
            created_at: self.created_at.clone(),
        }
    }
}

/// The mathematical content of a subscription row: id and creation time.
pub open spec fn chat_row(c: Chat) -> (i64, Seq<char>) {
    (c.id, c.created_at@)
}

/// The mathematical content of a birthday row: chat, name, date, creation
/// time.
pub open spec fn birthday_row(b: Birthday) -> (i64, Seq<char>, Date, Seq<char>) {
    (b.chat, b.name@, b.date, b.created_at@)
}

pub open spec fn chat_rows_of(s: Seq<Chat>) -> Seq<(i64, Seq<char>)> {
    s.map_values(|c: Chat| chat_row(c))
}

pub open spec fn birthday_rows_of(s: Seq<Birthday>) -> Seq<(i64, Seq<char>, Date, Seq<char>)> {
    s.map_values(|b: Birthday| birthday_row(b))
}

/// The subscribed ids of a subscription table.
pub open spec fn ids_of(rows: Seq<(i64, Seq<char>)>) -> Seq<i64> {
    rows.map_values(|t: (i64, Seq<char>)| t.0)
}

/// The identity triples of a birthday table.
pub open spec fn keys_of(rows: Seq<(i64, Seq<char>, Date, Seq<char>)>) -> Seq<
    (i64, Seq<char>, Date),
> {
    rows.map_values(|t: (i64, Seq<char>, Date, Seq<char>)| (t.0, t.1, t.2))
}

/// The store's invariant over its two tables: one subscription per chat,
/// no duplicate birthday triple, every birthday owned by a subscribed chat,
/// every stored date well-formed.
pub open spec fn tables_wf(
    chat_rows: Seq<(i64, Seq<char>)>,
    birthday_rows: Seq<(i64, Seq<char>, Date, Seq<char>)>,
) -> bool {
    &&& forall|i: int, j: int|
        #![trigger ids_of(chat_rows)[i], ids_of(chat_rows)[j]]
        0 <= i < j < chat_rows.len() ==> ids_of(chat_rows)[i] != ids_of(chat_rows)[j]
    &&& forall|i: int, j: int|
        #![trigger keys_of(birthday_rows)[i], keys_of(birthday_rows)[j]]
        0 <= i < j < birthday_rows.len() ==> keys_of(birthday_rows)[i] != keys_of(birthday_rows)[j]
    &&& forall|i: int|
        0 <= i < birthday_rows.len() ==> ids_of(chat_rows).contains(
            (#[trigger] birthday_rows[i]).0,
        ) && birthday_rows[i].2.wf()
}

/// The in-memory image of the persisted store. The application loads it at
/// startup and mirrors each successful change back into durable storage.
pub struct Repository {
    chats: Vec<Chat>,
    birthdays: Vec<Birthday>,
}

impl Repository {
    /// The subscription table, as a sequence of rows.
    pub closed spec fn chat_rows(self) -> Seq<(i64, Seq<char>)> {
        chat_rows_of(self.chats@)
    }

    /// The birthday table, as a sequence of rows.
    pub closed spec fn birthday_rows(self) -> Seq<(i64, Seq<char>, Date, Seq<char>)> {
        birthday_rows_of(self.birthdays@)
    }

    /// The subscribed chat ids, in subscription order.
    pub open spec fn chat_ids(self) -> Seq<i64> {
        ids_of(self.chat_rows())
    }

    pub open spec fn subscribed(self, id: i64) -> bool {
        self.chat_ids().contains(id)
    }

    /// The identity triples of the birthday table, in insertion order.
    pub open spec fn birthday_keys(self) -> Seq<(i64, Seq<char>, Date)> {
        keys_of(self.birthday_rows())
    }

    pub open spec fn has_birthday(self, k: (i64, Seq<char>, Date)) -> bool {
        self.birthday_keys().contains(k)
    }

    pub open spec fn wf(self) -> bool {
        tables_wf(self.chat_rows(), self.birthday_rows())
    }

    /// An empty store.
    pub fn new() -> (r: Repository)
        ensures
            r.wf(),
            r.chat_rows().len() == 0,
            r.birthday_rows().len() == 0,
    {
        Repository { chats: Vec::new(), birthdays: Vec::new() }
    }

    /// Rebuild a store from rows read back from durable storage. Refused if
    /// the rows break the store's invariant.
    pub fn from_rows(chats: Vec<Chat>, birthdays: Vec<Birthday>) -> (r: Option<Repository>)
        ensures
            match r {
                Some(repo) => repo.wf() && repo.chat_rows() == chat_rows_of(chats@)
                    && repo.birthday_rows() == birthday_rows_of(birthdays@),
                None => !tables_wf(chat_rows_of(chats@), birthday_rows_of(birthdays@)),
            },
    {
        let repo = Repository { chats, birthdays };
        if repo.check_wf() {
            Some(repo)
        } else {
            None
        }
    }

    /// Check whether `chat_id` is subscribed.
    pub fn is_subscribed(&self, chat_id: &ChatId) -> (r: bool)
        ensures
            r == self.subscribed(chat_id.0),
    {
        let mut i: usize = 0;
        while i < self.chats.len()
            invariant
                i <= self.chats@.len(),
                forall|j: int| 0 <= j < i ==> (#[trigger] self.chats@[j]).id != chat_id.0,
            decreases self.chats@.len() - i,
        {
            if self.chats[i].id == chat_id.0 {
                proof {
                    assert(self.chat_ids()[i as int] == chat_id.0);
                }
                return true;
            }
            i += 1;
        }
        proof {
            assert forall|k: int| 0 <= k < self.chat_ids().len() implies self.chat_ids()[k]
                != chat_id.0 by {
                assert(self.chat_ids()[k] == self.chats@[k].id);
            }
        }
        false
    }

    /// Subscribe a chat. Fails when the chat is already subscribed, and
    /// succeeds exactly otherwise.
    pub fn insert_chat(&mut self, chat: ChatId) -> (r: Result<(), RepositoryError>)
        requires
            old(self).wf(),
        ensures
            final(self).wf(),
            match r {
                Ok(()) => {
                    &&& !old(self).subscribed(chat.0)
                    &&& final(self).chat_rows().len() == old(self).chat_rows().len() + 1
                    &&& forall|i: int|
                        0 <= i < old(self).chat_rows().len() ==> final(self).chat_rows()[i]
                            == old(self).chat_rows()[i]
                    &&& final(self).chat_rows().last().0 == chat.0
                    &&& final(self).birthday_rows() == old(self).birthday_rows()
                },
                Err(e) => {
                    &&& e == RepositoryError::AlreadySubscribed
                    &&& old(self).subscribed(chat.0)
                    &&& final(self).chat_rows() == old(self).chat_rows()
                    &&& final(self).birthday_rows() == old(self).birthday_rows()
                },
            },
    {
        if self.is_subscribed(&chat) {
            return Err(RepositoryError::AlreadySubscribed);
        }
        let row = Chat::new(chat);
        self.chats.push(row);
        proof {
            let pre = *old(self);
            let crows = self.chat_rows();
            let prows = pre.chat_rows();
            assert forall|i: int| 0 <= i < prows.len() implies crows[i] == prows[i] by {
                assert(self.chats@[i] == pre.chats@[i]);
            }
            assert forall|k: int| 0 <= k < prows.len() implies ids_of(prows)[k] != chat.0 by {
                if ids_of(prows)[k] == chat.0 {
                    assert(pre.chat_ids()[k] == chat.0);
                    assert(pre.subscribed(chat.0));
                }
            }
            assert forall|i: int, j: int|
                #![trigger ids_of(crows)[i], ids_of(crows)[j]]
                0 <= i < j < crows.len() implies ids_of(crows)[i] != ids_of(crows)[j] by {
                assert(ids_of(crows)[i] == crows[i].0);
                assert(ids_of(crows)[j] == crows[j].0);
                if j < prows.len() {
                    assert(ids_of(prows)[i] != ids_of(prows)[j]);
                } else {
                    assert(crows[j].0 == chat.0);
                    assert(crows[i].0 == ids_of(prows)[i]);
                }
            }
            assert(self.birthday_rows() =~= pre.birthday_rows());
            let brows = self.birthday_rows();
            assert forall|i: int| 0 <= i < brows.len() implies ids_of(crows).contains(
                (#[trigger] brows[i]).0,
            ) && brows[i].2.wf() by {
                assert(ids_of(pre.chat_rows()).contains(pre.birthday_rows()[i].0));
                let k = choose|k: int|
                    0 <= k < ids_of(prows).len() && ids_of(prows)[k] == pre.birthday_rows()[i].0;
                assert(ids_of(crows)[k] == crows[k].0);
                assert(crows[k] == prows[k]);
            }
        }
        Ok(())
    }

    /// Delete a chat's subscription row. The caller must already have
    /// removed the chat's birthdays (as `unsubscribe` in the automatizer
    /// does), or the store would be left with orphaned events.
    pub fn delete_chat(&mut self, chat: ChatId)
        requires
            old(self).wf(),
            forall|i: int|
                0 <= i < old(self).birthday_rows().len() ==> (#[trigger] old(
                    self,
                ).birthday_rows()[i]).0 != chat.0,
        ensures
            final(self).wf(),
            final(self).chat_rows() == old(self).chat_rows().filter(chat_row_kept(chat.0)),
            final(self).birthday_rows() == old(self).birthday_rows(),
    {
        let kept = filtered_chats(&self.chats, chat.0);
        self.chats = kept;
        proof {
            let pre = *old(self);
            let prows = pre.chat_rows();
            let crows = self.chat_rows();
            let pred = chat_row_kept(chat.0);
            let key = |t: (i64, Seq<char>)| t.0;
            assert forall|i: int, j: int|
                #![trigger key(prows[i]), key(prows[j])]
                0 <= i < j < prows.len() implies key(prows[i]) != key(prows[j]) by {
                assert(ids_of(prows)[i] == prows[i].0);
                assert(ids_of(prows)[j] == prows[j].0);
            }
            lemma_filter_distinct_keys(prows, pred, key);
            assert forall|i: int, j: int|
                #![trigger ids_of(crows)[i], ids_of(crows)[j]]
                0 <= i < j < crows.len() implies ids_of(crows)[i] != ids_of(crows)[j] by {
                assert(key(crows[i]) != key(crows[j]));
            }
            lemma_filter_membership(prows, pred);
            assert forall|i: int| 0 <= i < self.birthday_rows().len() implies ids_of(
                crows,
            ).contains((#[trigger] self.birthday_rows()[i]).0)
                && self.birthday_rows()[i].2.wf() by {
                let b = self.birthday_rows()[i];
                assert(pre.birthday_rows()[i] == b);
                assert(ids_of(prows).contains(b.0));
                let k = choose|k: int| 0 <= k < ids_of(prows).len() && ids_of(prows)[k] == b.0;
                assert(prows[k].0 == b.0);
                assert(pred(prows[k]));
                prows.lemma_filter_contains(pred, k);
                assert(crows.contains(prows[k]));
                let m = choose|m: int| 0 <= m < crows.len() && crows[m] == prows[k];
                assert(ids_of(crows)[m] == b.0);
            }
        }
    }

    /// Delete every birthday owned by `chat`.
    pub fn delete_birthday_by_chat(&mut self, chat: ChatId)
        requires
            old(self).wf(),
        ensures
            final(self).wf(),
            final(self).birthday_rows() == old(self).birthday_rows().filter(
                birthday_row_kept(chat.0),
            ),
            final(self).chat_rows() == old(self).chat_rows(),
    {
        let kept = filtered_birthdays(&self.birthdays, chat.0);
        self.birthdays = kept;
        proof {
            let pre = *old(self);
            let prows = pre.birthday_rows();
            let brows = self.birthday_rows();
            let pred = birthday_row_kept(chat.0);
            let key = |t: (i64, Seq<char>, Date, Seq<char>)| (t.0, t.1, t.2);
            assert forall|i: int, j: int|
                #![trigger key(prows[i]), key(prows[j])]
                0 <= i < j < prows.len() implies key(prows[i]) != key(prows[j]) by {
                assert(keys_of(prows)[i] == (prows[i].0, prows[i].1, prows[i].2));
                assert(keys_of(prows)[j] == (prows[j].0, prows[j].1, prows[j].2));
            }
            lemma_filter_distinct_keys(prows, pred, key);
            assert forall|i: int, j: int|
                #![trigger keys_of(brows)[i], keys_of(brows)[j]]
                0 <= i < j < brows.len() implies keys_of(brows)[i] != keys_of(brows)[j] by {
                assert(key(brows[i]) != key(brows[j]));
                assert(keys_of(brows)[i] == (brows[i].0, brows[i].1, brows[i].2));
                assert(keys_of(brows)[j] == (brows[j].0, brows[j].1, brows[j].2));
            }
            lemma_filter_membership(prows, pred);
            assert forall|i: int| 0 <= i < brows.len() implies ids_of(self.chat_rows()).contains(
                (#[trigger] brows[i]).0,
            ) && brows[i].2.wf() by {
                assert(brows.contains(brows[i]));
                let k = choose|k: int| 0 <= k < prows.len() && prows[k] == brows[i];
                assert(ids_of(pre.chat_rows()).contains(prows[k].0));
            }
        }
    }

    /// Register a birthday. Fails with `NotSubscribed` when the chat holds
    /// no subscription, with `DuplicateBirthday` when the same (chat, name,
    /// date) triple is already present, and succeeds exactly otherwise.
    pub fn insert_birthday(&mut self, chat: ChatId, name: String, date: Date) -> (r: Result<
        (),
        RepositoryError,
    >)
        requires
            old(self).wf(),
            date.wf(),
        ensures
            final(self).wf(),
            match r {
                Ok(()) => {
                    &&& old(self).subscribed(chat.0)
                    &&& !old(self).has_birthday((chat.0, name@, date))
                    &&& final(self).birthday_rows().len() == old(self).birthday_rows().len() + 1
                    &&& forall|i: int|
                        0 <= i < old(self).birthday_rows().len() ==> final(self).birthday_rows()[i]
                            == old(self).birthday_rows()[i]
                    &&& final(self).birthday_rows().last().0 == chat.0
                    &&& final(self).birthday_rows().last().1 == name@
                    &&& final(self).birthday_rows().last().2 == date
                    &&& final(self).chat_rows() == old(self).chat_rows()
                },
                Err(e) => {
                    &&& final(self).birthday_rows() == old(self).birthday_rows()
                    &&& final(self).chat_rows() == old(self).chat_rows()
                    &&& match e {
                        RepositoryError::NotSubscribed => !old(self).subscribed(chat.0),
                        RepositoryError::DuplicateBirthday => old(self).subscribed(chat.0) && old(
                            self,
                        ).has_birthday((chat.0, name@, date)),
                        _ => false,
                    }
                },
            },
    {
        if !self.is_subscribed(&chat) {
            return Err(RepositoryError::NotSubscribed);
        }
        if self.birthday_exists(&chat, &name, date) {
            return Err(RepositoryError::DuplicateBirthday);
        }
        let row = Birthday::new(chat, name, date);
        self.birthdays.push(row);
        proof {
            let pre = *old(self);
            let brows = self.birthday_rows();
            let prows = pre.birthday_rows();
            assert forall|i: int| 0 <= i < prows.len() implies brows[i] == prows[i] by {
                assert(self.birthdays@[i] == pre.birthdays@[i]);
            }
            assert(brows.last() == birthday_row(self.birthdays@.last()));
            assert forall|k: int| 0 <= k < prows.len() implies keys_of(prows)[k] != (
            chat.0,
            name@,
            date,
            ) by {
                if keys_of(prows)[k] == (chat.0, name@, date) {
                    assert(pre.has_birthday((chat.0, name@, date)));
                }
            }
            assert forall|i: int, j: int|
                #![trigger keys_of(brows)[i], keys_of(brows)[j]]
                0 <= i < j < brows.len() implies keys_of(brows)[i] != keys_of(brows)[j] by {
                assert(keys_of(brows)[i] == (brows[i].0, brows[i].1, brows[i].2));
                assert(keys_of(brows)[j] == (brows[j].0, brows[j].1, brows[j].2));
                if j < prows.len() {
                    assert(keys_of(prows)[i] != keys_of(prows)[j]);
                    assert(keys_of(prows)[i] == (prows[i].0, prows[i].1, prows[i].2));
                    assert(keys_of(prows)[j] == (prows[j].0, prows[j].1, prows[j].2));
                } else {
                    assert(keys_of(brows)[j] == (chat.0, name@, date));
                    assert(keys_of(prows)[i] == (prows[i].0, prows[i].1, prows[i].2));
                    assert(keys_of(prows)[i] != (chat.0, name@, date));
                }
            }
            assert(self.chat_rows() =~= pre.chat_rows());
            assert forall|i: int| 0 <= i < brows.len() implies ids_of(self.chat_rows()).contains(
                (#[trigger] brows[i]).0,
            ) && brows[i].2.wf() by {
                if i < prows.len() {
                    assert(ids_of(pre.chat_rows()).contains(prows[i].0));
                } else {
                    assert(brows[i].0 == chat.0);
                    assert(pre.subscribed(chat.0));
                }
            }
        }
        Ok(())
    }

    /// Whether the exact (chat, name, date) triple is registered.
    fn birthday_exists(&self, chat_id: &ChatId, name: &String, date: Date) -> (r: bool)
        ensures
            r == self.has_birthday((chat_id.0, name@, date)),
    {
        let brows = Ghost(self.birthday_rows());
        let mut i: usize = 0;
        while i < self.birthdays.len()
            invariant
                i <= self.birthdays@.len(),
                brows@ == self.birthday_rows(),
                forall|j: int| 0 <= j < i ==> #[trigger] keys_of(brows@)[j] != (
                    chat_id.0,
                    name@,
                    date,
                ),
            decreases self.birthdays@.len() - i,
        {
            let b = &self.birthdays[i];
            if b.chat == chat_id.0 && b.name == *name && b.date == date {
                proof {
                    assert(keys_of(brows@)[i as int] == (chat_id.0, name@, date));
                }
                return true;
            }
            proof {
                assert(keys_of(brows@)[i as int] == (
                    self.birthdays@[i as int].chat,
                    self.birthdays@[i as int].name@,
                    self.birthdays@[i as int].date,
                ));
            }
            i += 1;
        }
        proof {
            if self.has_birthday((chat_id.0, name@, date)) {
                let k = choose|k: int|
                    0 <= k < keys_of(brows@).len() && keys_of(brows@)[k] == (
                        chat_id.0,
                        name@,
                        date,
                    );
            }
        }
        false
    }

    /// The subscribed chats, in subscription order.
    pub fn get_subscribed_chats(&self) -> (r: Vec<ChatId>)
        ensures
            r@.len() == self.chat_rows().len(),
            forall|i: int| 0 <= i < r@.len() ==> (#[trigger] r@[i]).0 == self.chat_ids()[i],
    {
        let mut out: Vec<ChatId> = Vec::new();
        let mut i: usize = 0;
        while i < self.chats.len()
            invariant
                i <= self.chats@.len(),
                out@.len() == i,
                forall|j: int| 0 <= j < i ==> (#[trigger] out@[j]).0 == self.chat_ids()[j],
            decreases self.chats@.len() - i,
        {
            out.push(ChatId(self.chats[i].id));
            proof {
                assert(self.chat_ids()[i as int] == self.chats@[i as int].id);
            }
            i += 1;
        }
        out
    }

    /// Every registered birthday, as (chat, name, date) triples in
    /// insertion order.
    pub fn get_birthdays(&self) -> (r: Vec<(ChatId, String, Date)>)
        ensures
            r@.len() == self.birthday_rows().len(),
            forall|i: int|
                0 <= i < r@.len() ==> (#[trigger] r@[i]).0.0 == self.birthday_rows()[i].0
                    && r@[i].1@ == self.birthday_rows()[i].1 && r@[i].2
                    == self.birthday_rows()[i].2,
    {
        let mut out: Vec<(ChatId, String, Date)> = Vec::new();
        let mut i: usize = 0;
        while i < self.birthdays.len()
            invariant
                i <= self.birthdays@.len(),
                out@.len() == i,
                forall|j: int|
                    0 <= j < i ==> (#[trigger] out@[j]).0.0 == self.birthday_rows()[j].0
                        && out@[j].1@ == self.birthday_rows()[j].1 && out@[j].2
                        == self.birthday_rows()[j].2,
            decreases self.birthdays@.len() - i,
        {
            let b = &self.birthdays[i];
            out.push((ChatId(b.chat), b.name.clone(), b.date));
            proof {
                assert(self.birthday_rows()[i as int] == birthday_row(self.birthdays@[i as int]));
            }
            i += 1;
        }
        out
    }

    /// The birthdays falling on the same month and day as `today`, in
    /// insertion order.
    pub fn birthdays_on(&self, today: Date) -> (r: Vec<(ChatId, String, Date)>)
        ensures
            ({
                let m = self.birthday_rows().filter(birthday_row_on(today));
                r@.len() == m.len() && forall|i: int|
                    0 <= i < r@.len() ==> (#[trigger] r@[i]).0.0 == m[i].0 && r@[i].1@ == m[i].1
                        && r@[i].2 == m[i].2
            }),
    {
        let rows = Ghost(self.birthday_rows());
        let pred = Ghost(birthday_row_on(today));
        let m = Ghost(self.birthday_rows().filter(birthday_row_on(today)));
        let mut out: Vec<(ChatId, String, Date)> = Vec::new();
        let mut i: usize = 0;
        while i < self.birthdays.len()
            invariant
                i <= self.birthdays@.len(),
                rows@ == self.birthday_rows(),
                out@.len() == rows@.take(i as int).filter(pred@).len(),
                pred@ == birthday_row_on(today),
                forall|j: int|
                    0 <= j < out@.len() ==> (#[trigger] out@[j]).0.0 == rows@.take(
                        i as int,
                    ).filter(pred@)[j].0 && out@[j].1@ == rows@.take(i as int).filter(pred@)[j].1
                        && out@[j].2 == rows@.take(i as int).filter(pred@)[j].2,
            decreases self.birthdays@.len() - i,
        {
            proof {
                reveal(Seq::filter);
                assert(rows@.take(i + 1).drop_last() =~= rows@.take(i as int));
                assert(rows@.take(i + 1).last() == rows@[i as int]);
                assert(rows@[i as int] == birthday_row(self.birthdays@[i as int]));
            }
            let b = &self.birthdays[i];
            if b.date.same_month_day(today) {
                out.push((ChatId(b.chat), b.name.clone(), b.date));
                proof {
                    assert(rows@.take(i + 1).filter(pred@) =~= rows@.take(i as int).filter(
                        pred@,
                    ).push(rows@[i as int]));
                }
            } else {
                proof {
                    assert(rows@.take(i + 1).filter(pred@) =~= rows@.take(i as int).filter(pred@));
                }
            }
            i += 1;
        }
        proof {
            assert(rows@.take(self.birthdays@.len() as int) =~= rows@);
        }
        out
    }

    fn check_wf(&self) -> (r: bool)
        ensures
            r == self.wf(),
    {
        let crows = Ghost(self.chat_rows());
        let brows = Ghost(self.birthday_rows());
        let mut i: usize = 0;
        while i < self.chats.len()
            invariant
                i <= self.chats@.len(),
                crows@ == self.chat_rows(),
                forall|p: int, q: int|
                    #![trigger ids_of(crows@)[p], ids_of(crows@)[q]]
                    0 <= p < q < i ==> ids_of(crows@)[p] != ids_of(crows@)[q],
            decreases self.chats@.len() - i,
        {
            let mut j: usize = 0;
            while j < i
                invariant
                    j <= i < self.chats@.len(),
                    crows@ == self.chat_rows(),
                    forall|q: int| 0 <= q < j ==> (#[trigger] self.chats@[q]).id
                        != self.chats@[i as int].id,
                decreases i - j,
            {
                if self.chats[j].id == self.chats[i].id {
                    proof {
                        assert(ids_of(crows@)[j as int] == ids_of(crows@)[i as int]);
                    }
                    return false;
                }
                j += 1;
            }
            proof {
                assert forall|p: int, q: int|
                    #![trigger ids_of(crows@)[p], ids_of(crows@)[q]]
                    0 <= p < q < i + 1 implies ids_of(crows@)[p] != ids_of(crows@)[q] by {
                    if q == i as int {
                        assert(self.chats@[p].id != self.chats@[i as int].id);
                        assert(ids_of(crows@)[p] == self.chats@[p].id);
                        assert(ids_of(crows@)[q] == self.chats@[q].id);
                    }
                }
            }
            i += 1;
        }
        let mut i: usize = 0;
        while i < self.birthdays.len()
            invariant
                i <= self.birthdays@.len(),
                crows@ == self.chat_rows(),
                brows@ == self.birthday_rows(),
                forall|p: int, q: int|
                    #![trigger ids_of(crows@)[p], ids_of(crows@)[q]]
                    0 <= p < q < crows@.len() ==> ids_of(crows@)[p] != ids_of(crows@)[q],
                forall|p: int, q: int|
                    #![trigger keys_of(brows@)[p], keys_of(brows@)[q]]
                    0 <= p < q < i ==> keys_of(brows@)[p] != keys_of(brows@)[q],
                forall|p: int|
                    0 <= p < i ==> ids_of(crows@).contains((#[trigger] brows@[p]).0)
                        && brows@[p].2.wf(),
            decreases self.birthdays@.len() - i,
        {
            let subscribed = self.is_subscribed(&ChatId(self.birthdays[i].chat));
            if !subscribed {
                proof {
                    assert(brows@[i as int].0 == self.birthdays@[i as int].chat);
                    assert(!ids_of(crows@).contains(brows@[i as int].0));
                }
                return false;
            }
            if !self.birthdays[i].date.valid() {
                proof {
                    assert(brows@[i as int].2 == self.birthdays@[i as int].date);
                }
                return false;
            }
            let mut j: usize = 0;
            while j < i
                invariant
                    j <= i < self.birthdays@.len(),
                    brows@ == self.birthday_rows(),
                    forall|q: int| 0 <= q < j ==> keys_of(brows@)[q] != keys_of(brows@)[i as int],
                decreases i - j,
            {
                if birthdays_key_eq(&self.birthdays[j], &self.birthdays[i]) {
                    proof {
                        assert(keys_of(brows@)[j as int] == keys_of(brows@)[i as int]);
                    }
                    return false;
                }
                proof {
                    assert(keys_of(brows@)[j as int] != keys_of(brows@)[i as int]);
                }
                j += 1;
            }
            proof {
                assert forall|p: int, q: int|
                    #![trigger keys_of(brows@)[p], keys_of(brows@)[q]]
                    0 <= p < q < i + 1 implies keys_of(brows@)[p] != keys_of(brows@)[q] by {}
                assert(brows@[i as int].0 == self.birthdays@[i as int].chat);
                assert(ids_of(crows@).contains(brows@[i as int].0));
                assert(brows@[i as int].2.wf());
            }
            i += 1;
        }
        true
    }
}

/// Every element of a filtered sequence is an element of the original and
/// satisfies the predicate.
proof fn lemma_filter_membership<A>(s: Seq<A>, pred: spec_fn(A) -> bool)
    ensures
        forall|x: A| #[trigger] s.filter(pred).contains(x) ==> s.contains(x) && pred(x),
    decreases s.len(),
{
    reveal(Seq::filter);
    if s.len() == 0 {
    } else {
        let dl = s.drop_last();
        lemma_filter_membership(dl, pred);
        assert forall|x: A| #[trigger] s.filter(pred).contains(x) implies s.contains(x) && pred(
            x,
        ) by {
            if dl.filter(pred).contains(x) {
                let k = choose|k: int| 0 <= k < dl.len() && dl[k] == x;
                assert(s[k] == x);
            } else {
                assert(x == s.last());
                assert(s[s.len() - 1] == x);
            }
        }
    }
}

/// Filtering keeps pairwise-distinct keys pairwise distinct.
proof fn lemma_filter_distinct_keys<A, K>(s: Seq<A>, pred: spec_fn(A) -> bool, key: spec_fn(A) -> K)
    requires
        forall|i: int, j: int|
            #![trigger key(s[i]), key(s[j])]
            0 <= i < j < s.len() ==> key(s[i]) != key(s[j]),
    ensures
        forall|i: int, j: int|
            #![trigger key(s.filter(pred)[i]), key(s.filter(pred)[j])]
            0 <= i < j < s.filter(pred).len() ==> key(s.filter(pred)[i]) != key(s.filter(pred)[j]),
    decreases s.len(),
{
    reveal(Seq::filter);
    if s.len() == 0 {
    } else {
        let dl = s.drop_last();
        assert forall|i: int, j: int|
            #![trigger key(dl[i]), key(dl[j])]
            0 <= i < j < dl.len() implies key(dl[i]) != key(dl[j]) by {
            assert(key(s[i]) != key(s[j]));
        }
        lemma_filter_distinct_keys(dl, pred, key);
        if pred(s.last()) {
            let f = dl.filter(pred);
            assert forall|i: int| 0 <= i < f.len() implies key(f[i]) != key(s.last()) by {
                lemma_filter_membership(dl, pred);
                assert(f.contains(f[i]));
                let k = choose|k: int| 0 <= k < dl.len() && dl[k] == f[i];
                assert(key(s[k]) != key(s[s.len() - 1]));
            }
            assert(s.filter(pred) == f.push(s.last()));
        }
    }
}

/// The predicate that keeps the rows not owned by `id`.
pub open spec fn chat_row_kept(id: i64) -> spec_fn((i64, Seq<char>)) -> bool {
    |t: (i64, Seq<char>)| t.0 != id
}

/// The predicate that keeps the birthday rows not owned by `id`.
pub open spec fn birthday_row_kept(id: i64) -> spec_fn((i64, Seq<char>, Date, Seq<char>)) -> bool {
    |t: (i64, Seq<char>, Date, Seq<char>)| t.0 != id
}

/// The birthday rows whose date falls on the same month and day as `today`.
pub open spec fn birthday_row_on(today: Date) -> spec_fn(
    (i64, Seq<char>, Date, Seq<char>),
) -> bool {
    |t: (i64, Seq<char>, Date, Seq<char>)| t.2.month == today.month && t.2.day == today.day
}

fn filtered_chats(v: &Vec<Chat>, id: i64) -> (r: Vec<Chat>)
    ensures
        chat_rows_of(r@) == chat_rows_of(v@).filter(chat_row_kept(id)),
{
    let rows = Ghost(chat_rows_of(v@));
    let mut out: Vec<Chat> = Vec::new();
    let mut i: usize = 0;
    while i < v.len()
        invariant
            i <= v@.len(),
            rows@ == chat_rows_of(v@),
            chat_rows_of(out@) == rows@.take(i as int).filter(chat_row_kept(id)),
        decreases v@.len() - i,
    {
        proof {
            reveal(Seq::filter);
            assert(rows@.take(i + 1).drop_last() =~= rows@.take(i as int));
            assert(rows@.take(i + 1).last() == rows@[i as int]);
            assert(rows@[i as int] == chat_row(v@[i as int]));
        }
        if v[i].id != id {
            let kept = v[i].clone();
            out.push(kept);
            proof {
                assert(chat_rows_of(out@) =~= chat_rows_of(out@.drop_last()).push(
                    chat_row(out@.last()),
                ));
                assert(chat_rows_of(out@) =~= rows@.take(i + 1).filter(chat_row_kept(id)));
            }
        } else {
            proof {
                assert(chat_rows_of(out@) =~= rows@.take(i + 1).filter(chat_row_kept(id)));
            }
        }
        i += 1;
    }
    proof {
        assert(rows@.take(v@.len() as int) =~= rows@);
    }
    out
}

fn filtered_birthdays(v: &Vec<Birthday>, id: i64) -> (r: Vec<Birthday>)
    ensures
        birthday_rows_of(r@) == birthday_rows_of(v@).filter(birthday_row_kept(id)),
{
    let rows = Ghost(birthday_rows_of(v@));
    let mut out: Vec<Birthday> = Vec::new();
    let mut i: usize = 0;
    while i < v.len()
        invariant
            i <= v@.len(),
            rows@ == birthday_rows_of(v@),
            birthday_rows_of(out@) == rows@.take(i as int).filter(birthday_row_kept(id)),
        decreases v@.len() - i,
    {
        proof {
            reveal(Seq::filter);
            assert(rows@.take(i + 1).drop_last() =~= rows@.take(i as int));
            assert(rows@.take(i + 1).last() == rows@[i as int]);
            assert(rows@[i as int] == birthday_row(v@[i as int]));
        }
        if v[i].chat != id {
            let kept = v[i].clone();
            out.push(kept);
            proof {
                assert(birthday_rows_of(out@) =~= birthday_rows_of(out@.drop_last()).push(
                    birthday_row(out@.last()),
                ));
                assert(birthday_rows_of(out@) =~= rows@.take(i + 1).filter(birthday_row_kept(id)));
            }
        } else {
            proof {
                assert(birthday_rows_of(out@) =~= rows@.take(i + 1).filter(birthday_row_kept(id)));
            }
        }
        i += 1;
    }
    proof {
        assert(rows@.take(v@.len() as int) =~= rows@);
    }
    out
}

/// Uniqueness, first half: a successful subscribe leaves the chat
/// subscribed, so by the contract of `insert_chat` a second subscribe of
/// the same chat returns `AlreadySubscribed` and changes nothing.
pub proof fn lemma_second_subscribe_conflicts(post: Repository, id: i64)
    requires
        post.chat_rows().len() > 0,
        post.chat_rows().last().0 == id,
    ensures
        post.subscribed(id),
{
    assert(post.chat_ids()[post.chat_rows().len() - 1] == id);
}

/// Uniqueness, second half: once the chat's subscription row is filtered
/// out (the state `unsubscribe` leaves behind), the chat is not
/// subscribed, so by the contract of `insert_chat` a new subscribe
/// succeeds.
pub proof fn lemma_resubscribe_after_unsubscribe(pre: Repository, post: Repository, id: i64)
    requires
        post.chat_rows() == pre.chat_rows().filter(chat_row_kept(id)),
    ensures
        !post.subscribed(id),
{
    if post.subscribed(id) {
        let rows = post.chat_rows();
        let k = choose|k: int| 0 <= k < ids_of(rows).len() && ids_of(rows)[k] == id;
        assert(rows[k].0 == id);
        lemma_filter_membership(pre.chat_rows(), chat_row_kept(id));
        assert(rows.contains(rows[k]));
        assert(chat_row_kept(id)(rows[k]));
    }
}

/// Cascade: the state `unsubscribe` leaves behind holds no birthday row
/// owned by the unsubscribed chat, however many were registered.
pub proof fn lemma_unsubscribe_cascade(pre: Repository, post: Repository, id: i64)
    requires
        post.birthday_rows() == pre.birthday_rows().filter(birthday_row_kept(id)),
    ensures
        forall|i: int|
            0 <= i < post.birthday_rows().len() ==> (#[trigger] post.birthday_rows()[i]).0 != id,
{
    lemma_filter_membership(pre.birthday_rows(), birthday_row_kept(id));
    assert forall|i: int| 0 <= i < post.birthday_rows().len() implies (#[trigger] post
        .birthday_rows()[i]).0 != id by {
        assert(post.birthday_rows().contains(post.birthday_rows()[i]));
        assert(birthday_row_kept(id)(post.birthday_rows()[i]));
    }
}

/// Idempotent read: the subscriber list is a function of the store alone,
/// so two calls of `get_subscribed_chats` with no intervening write (their
/// results both meet its contract against the same store) return the same
/// list.
pub proof fn lemma_list_subscribers_deterministic(
    repo: Repository,
    r1: Seq<ChatId>,
    r2: Seq<ChatId>,
)
    requires
        r1.len() == repo.chat_rows().len(),
        forall|i: int| 0 <= i < r1.len() ==> (#[trigger] r1[i]).0 == repo.chat_ids()[i],
        r2.len() == repo.chat_rows().len(),
        forall|i: int| 0 <= i < r2.len() ==> (#[trigger] r2[i]).0 == repo.chat_ids()[i],
    ensures
        r1 == r2,
{
    assert forall|i: int| 0 <= i < r1.len() implies r1[i] == r2[i] by {
        assert(r1[i].0 == r2[i].0);
        assert(r1[i] == ChatId(r1[i].0));
        assert(r2[i] == ChatId(r2[i].0));
    }
    assert(r1 =~= r2);
}

/// The birthday audience of a day: a stored birthday is in it exactly when
/// its date falls on the day's month and day.
pub proof fn lemma_birthday_audience(repo: Repository, today: Date)
    ensures
        forall|i: int|
            0 <= i < repo.birthday_rows().len() && (#[trigger] repo.birthday_rows()[i]).2.month
                == today.month && repo.birthday_rows()[i].2.day == today.day
                ==> repo.birthday_rows().filter(birthday_row_on(today)).contains(
                repo.birthday_rows()[i],
            ),
        forall|j: int|
            0 <= j < repo.birthday_rows().filter(birthday_row_on(today)).len() ==> (
            #[trigger] repo.birthday_rows().filter(birthday_row_on(today))[j]).2.month
                == today.month && repo.birthday_rows().filter(birthday_row_on(today))[j].2.day
                == today.day,
{
    let rows = repo.birthday_rows();
    let pred = birthday_row_on(today);
    assert forall|i: int|
        0 <= i < rows.len() && (#[trigger] rows[i]).2.month == today.month && rows[i].2.day
            == today.day implies rows.filter(pred).contains(rows[i]) by {
        assert(pred(rows[i]));
        rows.lemma_filter_contains(pred, i);
    }
    lemma_filter_membership(rows, pred);
    assert forall|j: int| 0 <= j < rows.filter(pred).len() implies (#[trigger] rows.filter(
        pred,
    )[j]).2.month == today.month && rows.filter(pred)[j].2.day == today.day by {
        assert(rows.filter(pred).contains(rows.filter(pred)[j]));
        assert(pred(rows.filter(pred)[j]));
    }
}

/// Whether two birthday rows carry the same (chat, name, date) triple.
fn birthdays_key_eq(a: &Birthday, b: &Birthday) -> (r: bool)
    ensures
        r == ((birthday_row(*a).0, birthday_row(*a).1, birthday_row(*a).2) == (
            birthday_row(*b).0,
            birthday_row(*b).1,
            birthday_row(*b).2,
        )),
{
    a.chat == b.chat && a.name == b.name && a.date == b.date
}

} // verus!
