//! The record types and the in-memory store they live in.
//!
//! The store mirrors the relational tables of the application: users,
//! sessions, categories and words, each a growing list of records with an
//! id column allocated from a per-table counter. `Store::wf` is the
//! well-formedness invariant every operation preserves: ids are unique and
//! below the table's counter, user names and session secrets are unique,
//! and every word hangs off an existing category.

use vstd::prelude::*;

verus! {

/// A registered user. `password_hash` absent means password login is
/// disabled for this account.
pub struct User {
    pub id: i64,
    pub name: String,
    pub password_hash: Option<String>,
    pub created_at: i64,
    pub updated_at: i64,
}

/// A login session, looked up by its opaque `secret`.
pub struct Session {
    pub secret: String,
    pub user_id: i64,
    pub created_user_agent: String,
    pub created_at: i64,
    pub last_used_at: i64,
}

/// A word list, owned by the user that created it.
pub struct CategoryRecord {
    pub id: i64,
    pub user_id: i64,
    pub name: Option<String>,
    pub created_at: i64,
    pub updated_at: i64,
}

/// A single word, owned transitively through its category.
pub struct WordRecord {
    pub id: i64,
    pub category_id: i64,
    pub word: String,
    pub created_at: i64,
    pub updated_at: i64,
}

/// The table set. Each `next_*_id` counter is the id the next inserted
/// record of that table will get.
pub struct Store {
    pub users: Vec<User>,
    pub sessions: Vec<Session>,
    pub categories: Vec<CategoryRecord>,
    pub words: Vec<WordRecord>,
    pub next_user_id: i64,
    pub next_category_id: i64,
    pub next_word_id: i64,
}

pub open spec fn user_ids_unique(users: Seq<User>) -> bool {
    forall|i: int, j: int|
        0 <= i < j < users.len() ==> users[i].id != users[j].id
}

pub open spec fn user_names_unique(users: Seq<User>) -> bool {
    forall|i: int, j: int|
        0 <= i < j < users.len() ==> users[i].name@ != users[j].name@
}

pub open spec fn secrets_unique(sessions: Seq<Session>) -> bool {
    forall|i: int, j: int|
        0 <= i < j < sessions.len() ==> sessions[i].secret@ != sessions[j].secret@
}

pub open spec fn category_ids_unique(categories: Seq<CategoryRecord>) -> bool {
    forall|i: int, j: int|
        0 <= i < j < categories.len() ==> categories[i].id != categories[j].id
}

pub open spec fn word_ids_unique(words: Seq<WordRecord>) -> bool {
    forall|i: int, j: int|
        0 <= i < j < words.len() ==> words[i].id != words[j].id
}

pub open spec fn has_category_id(categories: Seq<CategoryRecord>, id: i64) -> bool {
    exists|j: int| 0 <= j < categories.len() && (#[trigger] categories[j]).id == id
}

/// Every word hangs off an existing category. Creation only inserts under
/// a category the caller owns and a category is only deleted once it owns
/// no words, so the operations keep this.
pub open spec fn words_linked(words: Seq<WordRecord>, categories: Seq<CategoryRecord>) -> bool {
    forall|i: int|
        0 <= i < words.len() ==> has_category_id(categories, (#[trigger] words[i]).category_id)
}

/// The user registered under a name: the first record carrying it.
pub open spec fn find_user_by_name(users: Seq<User>, name: Seq<char>) -> Option<User>
    decreases users.len(),
{
    if users.len() == 0 {
        None
    } else if users[0].name@ == name {
        Some(users[0])
    } else {
        find_user_by_name(users.drop_first(), name)
    }
}

/// A name is free exactly when no record carries it.
pub proof fn lemma_find_user_none_iff(users: Seq<User>, name: Seq<char>)
    ensures
        (find_user_by_name(users, name) is None) <==> (forall|i: int|
            0 <= i < users.len() ==> (#[trigger] users[i]).name@ != name),
    decreases users.len(),
{
    if users.len() > 0 {
        lemma_find_user_none_iff(users.drop_first(), name);
        assert forall|i: int|
            0 <= i < users.len() && (find_user_by_name(users, name) is None)
                implies (#[trigger] users[i]).name@ != name by {
            if i > 0 {
                assert(users.drop_first()[i - 1] == users[i]);
            }
        }
        if forall|i: int| 0 <= i < users.len() ==> (#[trigger] users[i]).name@ != name {
            assert forall|i: int|
                0 <= i < users.drop_first().len()
                    implies (#[trigger] users.drop_first()[i]).name@ != name by {
                assert(users.drop_first()[i] == users[i + 1]);
            }
        }
    }
}

impl Store {
    /// Well-formedness: ids unique and below their counter, names and
    /// secrets unique, and every word under an existing category.
    pub open spec fn wf(self) -> bool {
        &&& user_ids_unique(self.users@)
        &&& user_names_unique(self.users@)
        &&& secrets_unique(self.sessions@)
        &&& category_ids_unique(self.categories@)
        &&& word_ids_unique(self.words@)
        &&& words_linked(self.words@, self.categories@)
        &&& 1 <= self.next_user_id
        &&& 1 <= self.next_category_id
        &&& 1 <= self.next_word_id
        &&& forall|i: int| 0 <= i < self.users@.len() ==> 1 <= (#[trigger] self.users@[i]).id < self.next_user_id
        &&& forall|i: int| 0 <= i < self.categories@.len() ==> 1 <= (#[trigger] self.categories@[i]).id < self.next_category_id
        &&& forall|i: int| 0 <= i < self.words@.len() ==> 1 <= (#[trigger] self.words@[i]).id < self.next_word_id
    }

    /// An empty store, the state a freshly installed schema leaves behind.
    pub fn new() -> (s: Store)
        ensures
            s.wf(),
            s.users@.len() == 0,
            s.sessions@.len() == 0,
            s.categories@.len() == 0,
            s.words@.len() == 0,
            s.next_user_id == 1,
            s.next_category_id == 1,
            s.next_word_id == 1,
    {
        Store {
            users: Vec::new(),
            sessions: Vec::new(),
            categories: Vec::new(),
            words: Vec::new(),
            next_user_id: 1,
            next_category_id: 1,
            next_word_id: 1,
        }
    }
}

/// Character-for-character string comparison, proved against the string
/// views rather than trusted.
pub fn str_eq(a: &str, b: &str) -> (r: bool)
    ensures
        r == (a@ == b@),
{
    let a_len = a.unicode_len();
    let b_len = b.unicode_len();
    if a_len != b_len {
        return false;
    }
    let mut i: usize = 0;
    while i < a_len
        invariant
            i <= a_len,
            a_len == a@.len(),
            a_len == b@.len(),
            forall|j: int| 0 <= j < i ==> a@[j] == b@[j],
        decreases a_len - i,
    {
        if a.get_char(i) != b.get_char(i) {
            return false;
        }
        i = i + 1;
    }
    proof {
        assert(a@ =~= b@);
    }
    true
}

} // verus!
