//! Development seeds: two demo users, three categories for the first of
//! them, and six words spread at random over the first two categories.

use vstd::prelude::*;

use crate::api_data::{CategoryCreateRequest, WordCreateRequest};
use crate::categories::{category_owned_by, create_category};
use crate::credentials::password_verifies;
use crate::store::Store;
use crate::users::{add_user, UsersError};
use crate::words::create_word;

verus! {

/// Relies on rand's `random`, drawing a value from the thread-local
/// generator. The result is random; nothing can be said of it.
#[verifier::external_body]
fn random_usize() -> usize {
    rand::random()
}

/// Seed one category for a user, returning its id.
fn seed_category(store: &mut Store, user_id: i64, text: &str, now: i64) -> (r: Result<
    i64,
    UsersError,
>)
    requires
        old(store).wf(),
    ensures
        final(store).wf(),
        final(store).users == old(store).users,
        final(store).sessions == old(store).sessions,
        final(store).words == old(store).words,
        final(store).next_user_id == old(store).next_user_id,
        final(store).next_word_id == old(store).next_word_id,
        match r {
            Ok(id) => {
                &&& final(store).categories@.len() == old(store).categories@.len() + 1
                &&& final(store).categories@.drop_last() == old(store).categories@
                &&& final(store).categories@.last().id == id
                &&& final(store).categories@.last().user_id == user_id
                &&& final(store).categories@.last().name matches Some(nm) && nm@ == text@
            },
            Err(e) => {
                &&& e is StoreError
                &&& *final(store) == *old(store)
            },
        },
{
    let request = CategoryCreateRequest { name: Some(text.to_owned()) };
    match create_category(store, user_id, request, now) {
        Ok(c) => Ok(c.id),
        Err(_) => Err(UsersError::StoreError),
    }
}

/// Seed one word under one of two categories the user owns, picked at
/// random.
fn seed_word(
    store: &mut Store,
    cid0: i64,
    cid1: i64,
    user_id: i64,
    text: &str,
    now: i64,
) -> (r: Result<(), UsersError>)
    requires
        old(store).wf(),
        category_owned_by(old(store).categories@, cid0, user_id),
        category_owned_by(old(store).categories@, cid1, user_id),
    ensures
        final(store).wf(),
        final(store).users == old(store).users,
        final(store).sessions == old(store).sessions,
        final(store).categories == old(store).categories,
        final(store).next_user_id == old(store).next_user_id,
        final(store).next_category_id == old(store).next_category_id,
        match r {
            Ok(()) => {
                &&& final(store).words@.len() == old(store).words@.len() + 1
                &&& final(store).words@.drop_last() == old(store).words@
                &&& (final(store).words@.last().category_id == cid0
                    || final(store).words@.last().category_id == cid1)
                &&& final(store).words@.last().word@ == text@
            },
            Err(e) => {
                &&& e is StoreError
                &&& *final(store) == *old(store)
            },
        },
{
    let rnum: usize = random_usize();
    let pick: usize = rnum % 2;
    let cid = if pick == 0 {
        cid0
    } else {
        cid1
    };
    let request = WordCreateRequest { word: text.to_owned() };
    match create_word(store, cid, user_id, request, now) {
        Ok(_) => Ok(()),
        Err(_) => Err(UsersError::StoreError),
    }
}

/// Install the development seeds: users `user` and `user1`, both with
/// password `123`; three categories for `user`; and six words, each filed
/// under one of the first two categories at random.
pub fn install(store: &mut Store, now: i64) -> (r: Result<(), UsersError>)
    requires
        old(store).wf(),
    ensures
        final(store).wf(),
        final(store).sessions == old(store).sessions,
        match r {
            Ok(()) => {
                let u0 = old(store).users@.len() as int;
                let c0 = old(store).categories@.len() as int;
                let w0 = old(store).words@.len() as int;
                {
                    &&& final(store).users@.len() == u0 + 2
                    &&& final(store).users@[u0].name@ == "user"@
                    &&& final(store).users@[u0 + 1].name@ == "user1"@
                    &&& final(store).users@[u0].password_hash matches Some(h) && (forall|
                        p: Seq<char>,
                    |
                        #[trigger] password_verifies(h@, p) <==> p == "123"@)
                    &&& final(store).users@[u0 + 1].password_hash matches Some(h2) && (forall|
                        p: Seq<char>,
                    |
                        #[trigger] password_verifies(h2@, p) <==> p == "123"@)
                    &&& final(store).categories@.len() == c0 + 3
                    &&& forall|k: int|
                        c0 <= k < c0 + 3 ==> (#[trigger] final(store).categories@[k]).user_id
                            == final(store).users@[u0].id
                    &&& final(store).categories@[c0].name matches Some(n0) && n0@
                        == "орнитология"@
                    &&& final(store).categories@[c0 + 1].name matches Some(n1) && n1@
                        == "медицина"@
                    &&& final(store).categories@[c0 + 2].name matches Some(n2) && n2@
                        == "кулинария"@
                    &&& final(store).words@.len() == w0 + 6
                    &&& forall|k: int|
                        w0 <= k < w0 + 6 ==> ((#[trigger] final(store).words@[k]).category_id
                            == final(store).categories@[c0].id || final(store).words@[k].category_id
                            == final(store).categories@[c0 + 1].id)
                    &&& final(store).words@[w0].word@ == "снегирь"@
                    &&& final(store).words@[w0 + 1].word@ == "спазм"@
                    &&& final(store).words@[w0 + 2].word@ == "расстегай"@
                    &&& final(store).words@[w0 + 3].word@ == "дефлегматор"@
                    &&& final(store).words@[w0 + 4].word@ == "сипуха"@
                    &&& final(store).words@[w0 + 5].word@ == "пентаграмма"@
                }
            },
            Err(e) => e is HashingFailure || e is StoreError,
        },
{
    let user = match add_user(store, "user", "123", now) {
        Ok(id) => id,
        Err(e) => {
            return Err(e);
        },
    };
    let ghost users1 = store.users@;
    match add_user(store, "user1", "123", now) {
        Ok(_) => (),
        Err(e) => {
            return Err(e);
        },
    };
    let ghost users2 = store.users@;
    let c_a = match seed_category(store, user, "орнитология", now) {
        Ok(id) => id,
        Err(e) => {
            return Err(e);
        },
    };
    let ghost cats1 = store.categories@;
    let c_b = match seed_category(store, user, "медицина", now) {
        Ok(id) => id,
        Err(e) => {
            return Err(e);
        },
    };
    let ghost cats2 = store.categories@;
    match seed_category(store, user, "кулинария", now) {
        Ok(_) => (),
        Err(e) => {
            return Err(e);
        },
    };
    let ghost cats3 = store.categories@;
    proof {
        let ia = cats1.len() as int - 1;
        let ib = cats2.len() as int - 1;
        assert(cats2[ia] == cats1[ia]);
        assert(cats3[ia] == cats2[ia]);
        assert(cats3[ib] == cats2[ib]);
        assert((cats3[ia]).id == c_a && cats3[ia].user_id == user);
        assert((cats3[ib]).id == c_b && cats3[ib].user_id == user);
        assert(category_owned_by(cats3, c_a, user));
        assert(category_owned_by(cats3, c_b, user));
    }
    match seed_word(store, c_a, c_b, user, "снегирь", now) {
        Ok(()) => (),
        Err(e) => {
            return Err(e);
        },
    };
    let ghost words1 = store.words@;
    match seed_word(store, c_a, c_b, user, "спазм", now) {
        Ok(()) => (),
        Err(e) => {
            return Err(e);
        },
    };
    let ghost words2 = store.words@;
    match seed_word(store, c_a, c_b, user, "расстегай", now) {
        Ok(()) => (),
        Err(e) => {
            return Err(e);
        },
    };
    let ghost words3 = store.words@;
    match seed_word(store, c_a, c_b, user, "дефлегматор", now) {
        Ok(()) => (),
        Err(e) => {
            return Err(e);
        },
    };
    let ghost words4 = store.words@;
    match seed_word(store, c_a, c_b, user, "сипуха", now) {
        Ok(()) => (),
        Err(e) => {
            return Err(e);
        },
    };
    let ghost words5 = store.words@;
    match seed_word(store, c_a, c_b, user, "пентаграмма", now) {
        Ok(()) => (),
        Err(e) => {
            return Err(e);
        },
    };
    proof {
        let u0 = old(store).users@.len() as int;
        let c0 = old(store).categories@.len() as int;
        let w0 = old(store).words@.len() as int;
        assert(users2[u0] == users1[u0]);
        assert(store.users@ == users2);
        assert(store.categories@ == cats3);
        assert(cats3[c0] == cats1[c0] && cats3[c0 + 1] == cats2[c0 + 1]);
        let words6 = store.words@;
        assert(words2[w0] == words1[w0]);
        assert(words3[w0] == words2[w0] && words3[w0 + 1] == words2[w0 + 1]);
        assert(words4[w0] == words3[w0] && words4[w0 + 1] == words3[w0 + 1] && words4[w0 + 2]
            == words3[w0 + 2]);
        assert(words5[w0] == words4[w0] && words5[w0 + 1] == words4[w0 + 1] && words5[w0 + 2]
            == words4[w0 + 2] && words5[w0 + 3] == words4[w0 + 3]);
        assert(words6[w0] == words5[w0] && words6[w0 + 1] == words5[w0 + 1] && words6[w0 + 2]
            == words5[w0 + 2] && words6[w0 + 3] == words5[w0 + 3] && words6[w0 + 4] == words5[w0
            + 4]);
        assert(cats3[c0].id == c_a && cats3[c0 + 1].id == c_b);
        assert forall|k: int|
            w0 <= k < w0 + 6 implies ((#[trigger] words6[k]).category_id == cats3[c0].id
            || words6[k].category_id == cats3[c0 + 1].id) by {
        }
    }
    Ok(())
}

} // verus!
