//! Category handlers.
//!
//! Listing categories is deliberately unscoped: every authenticated caller
//! sees every category, with word counts and a few sample words. Mutation
//! is owner-scoped: creating a category files it under the caller, and
//! updating or deleting one requires the caller to own it, an ownership
//! miss being answered `NotFound` so that other users' categories are not
//! confirmed to exist.

use vstd::prelude::*;

use crate::api_data::{
    ApiError, Categories, Category, CategoryCreateRequest, CategoryUpdateRequest,
};
use crate::store::{
    category_ids_unique, has_category_id, CategoryRecord, Store, WordRecord,
};
use crate::words::{lemma_words_of_category_empty_iff, words_of_category};
use vstd::math::min;

verus! {

/// How many sample words a category listing carries per category.
pub const SAMPLE_WORDS_COUNT: usize = 5;

/// Whether the category with this id exists and belongs to this user.
pub open spec fn category_owned_by(
    categories: Seq<CategoryRecord>,
    category_id: i64,
    user_id: i64,
) -> bool {
    exists|i: int|
        0 <= i < categories.len() && (#[trigger] categories[i]).id == category_id
            && categories[i].user_id == user_id
}

/// A category owned by one user is owned by nobody else: listing its words
/// as any other user therefore falls into the empty-result branch of
/// `list_words`, a success carrying no words rather than an error.
pub proof fn lemma_category_not_owned_by_other(
    categories: Seq<CategoryRecord>,
    category_id: i64,
    user_id: i64,
    i: int,
)
    requires
        category_ids_unique(categories),
        0 <= i < categories.len(),
        categories[i].id == category_id,
        categories[i].user_id != user_id,
    ensures
        !category_owned_by(categories, category_id, user_id),
{
    if category_owned_by(categories, category_id, user_id) {
        let j = choose|j: int|
            0 <= j < categories.len() && (#[trigger] categories[j]).id == category_id
                && categories[j].user_id == user_id;
        if j < i {
            assert(categories[j].id != categories[i].id);
        }
        if i < j {
            assert(categories[i].id != categories[j].id);
        }
    }
}

/// Whether the category exists, belongs to the user, and owns no words,
/// which is what deleting it requires.
pub open spec fn category_deletable_by(
    categories: Seq<CategoryRecord>,
    words: Seq<WordRecord>,
    category_id: i64,
    user_id: i64,
) -> bool {
    category_owned_by(categories, category_id, user_id) && words_of_category(
        words,
        category_id,
    ).len() == 0
}

/// What a reported `Category` value says about a category record: the
/// record's id and name, the count of the words under it, and the first
/// words under it as samples, at most `SAMPLE_WORDS_COUNT` of them.
pub open spec fn category_reports(c: Category, rec: CategoryRecord, words: Seq<WordRecord>) -> bool {
    &&& c.id == rec.id
    &&& c.name == rec.name
    &&& c.num_words == words_of_category(words, rec.id).len()
    &&& c.sample_words@.len() == min(
        SAMPLE_WORDS_COUNT as int,
        words_of_category(words, rec.id).len() as int,
    )
    &&& forall|j: int|
        0 <= j < c.sample_words@.len() ==> c.sample_words@[j] == words_of_category(
            words,
            rec.id,
        )[j].word
}

/// Looks a category's position up by id.
pub(crate) fn find_category_index(categories: &Vec<CategoryRecord>, category_id: i64) -> (r: Option<
    usize,
>)
    ensures
        match r {
            Option::Some(i) => i < categories@.len() && categories@[i as int].id == category_id,
            Option::None => forall|j: int|
                0 <= j < categories@.len() ==> (#[trigger] categories@[j]).id != category_id,
        },
{
    let n = categories.len();
    let mut i: usize = 0;
    while i < n
        invariant
            i <= n,
            n == categories@.len(),
            forall|j: int| 0 <= j < i ==> (#[trigger] categories@[j]).id != category_id,
        decreases n - i,
    {
        if categories[i].id == category_id {
            return Some(i);
        }
        i = i + 1;
    }
    None
}

/// An owned copy of an optional name.
pub(crate) fn clone_opt_name(name: &Option<String>) -> (r: Option<String>)
    ensures
        r == *name,
{
    match name.as_ref() {
        Some(s) => Some(s.clone()),
        None => None,
    }
}

/// Counts the words under a category, the way `count(words.id)` grouped by
/// category would.
pub(crate) fn count_category_words(words: &Vec<WordRecord>, category_id: i64) -> (n: i64)
    requires
        words@.len() <= i64::MAX,
    ensures
        n == words_of_category(words@, category_id).len(),
{
    let len = words.len();
    let mut count: i64 = 0;
    let mut i: usize = 0;
    proof {
        assert(words@.take(0) =~= Seq::<WordRecord>::empty());
    }
    while i < len
        invariant
            i <= len,
            len == words@.len(),
            words@.len() <= i64::MAX,
            count == words_of_category(words@.take(i as int), category_id).len(),
            count <= i,
        decreases len - i,
    {
        proof {
            assert(words@.take(i as int + 1).drop_last() =~= words@.take(i as int));
            assert(words@.take(i as int + 1).last() == words@[i as int]);
        }
        if words[i].category_id == category_id {
            count = count + 1;
        }
        i = i + 1;
    }
    proof {
        assert(words@.take(len as int) =~= words@);
    }
    count
}

/// Whether any word hangs off the category.
pub(crate) fn has_words_in(words: &Vec<WordRecord>, category_id: i64) -> (b: bool)
    ensures
        b == (words_of_category(words@, category_id).len() != 0),
{
    let n = words.len();
    let mut i: usize = 0;
    while i < n
        invariant
            i <= n,
            n == words@.len(),
            forall|j: int| 0 <= j < i ==> (#[trigger] words@[j]).category_id != category_id,
        decreases n - i,
    {
        if words[i].category_id == category_id {
            proof {
                lemma_words_of_category_empty_iff(words@, category_id);
            }
            return true;
        }
        i = i + 1;
    }
    proof {
        lemma_words_of_category_empty_iff(words@, category_id);
    }
    false
}

/// The first words under a category, at most `SAMPLE_WORDS_COUNT` of them.
pub(crate) fn sample_category_words(words: &Vec<WordRecord>, category_id: i64) -> (r: Vec<String>)
    ensures
        r@.len() == min(
            SAMPLE_WORDS_COUNT as int,
            words_of_category(words@, category_id).len() as int,
        ),
        forall|j: int|
            0 <= j < r@.len() ==> r@[j] == words_of_category(words@, category_id)[j].word,
{
    let len = words.len();
    let mut out: Vec<String> = Vec::new();
    let mut i: usize = 0;
    proof {
        assert(words@.take(0) =~= Seq::<WordRecord>::empty());
    }
    while i < len
        invariant
            i <= len,
            len == words@.len(),
            out@.len() == min(
                SAMPLE_WORDS_COUNT as int,
                words_of_category(words@.take(i as int), category_id).len() as int,
            ),
            forall|j: int|
                0 <= j < out@.len() ==> out@[j] == words_of_category(
                    words@.take(i as int),
                    category_id,
                )[j].word,
        decreases len - i,
    {
        proof {
            assert(words@.take(i as int + 1).drop_last() =~= words@.take(i as int));
            assert(words@.take(i as int + 1).last() == words@[i as int]);
        }
        if words[i].category_id == category_id && out.len() < SAMPLE_WORDS_COUNT {
            out.push(words[i].word.clone());
        }
        i = i + 1;
    }
    proof {
        assert(words@.take(len as int) =~= words@);
    }
    out
}

/// Basic information about a category, before samples are attached.
pub(crate) struct CategoryBasic {
    pub id: i64,
    pub name: Option<String>,
    pub num_words: i64,
}

/// Attach the sample words to a category's basic information.
pub(crate) fn build_category(words: &Vec<WordRecord>, category: CategoryBasic) -> (c: Category)
    ensures
        c.id == category.id,
        c.name == category.name,
        c.num_words == category.num_words,
        c.sample_words@.len() == min(
            SAMPLE_WORDS_COUNT as int,
            words_of_category(words@, category.id).len() as int,
        ),
        forall|j: int|
            0 <= j < c.sample_words@.len() ==> c.sample_words@[j] == words_of_category(
                words@,
                category.id,
            )[j].word,
{
    let sample_words = sample_category_words(words, category.id);
    Category { id: category.id, name: category.name, num_words: category.num_words, sample_words }
}

/// List every category — deliberately unscoped, so any authenticated
/// caller sees them all — each with its word count and sample words.
pub fn list_categories(store: &Store) -> (r: Categories)
    requires
        store.words@.len() <= i64::MAX,
    ensures
        r.categories@.len() == store.categories@.len(),
        forall|i: int|
            0 <= i < store.categories@.len() ==> category_reports(
                #[trigger] r.categories@[i],
                store.categories@[i],
                store.words@,
            ),
{
    let n = store.categories.len();
    let mut out: Vec<Category> = Vec::new();
    let mut i: usize = 0;
    while i < n
        invariant
            i <= n,
            n == store.categories@.len(),
            store.words@.len() <= i64::MAX,
            out@.len() == i,
            forall|j: int|
                0 <= j < i ==> category_reports(
                    #[trigger] out@[j],
                    store.categories@[j],
                    store.words@,
                ),
        decreases n - i,
    {
        let rec_id = store.categories[i].id;
        let name = clone_opt_name(&store.categories[i].name);
        let num_words = count_category_words(&store.words, rec_id);
        let basic = CategoryBasic { id: rec_id, name, num_words };
        let cat = build_category(&store.words, basic);
        out.push(cat);
        i = i + 1;
    }
    Categories { categories: out }
}

/// Create a category owned by the authenticated caller. The fresh id is
/// below no existing word's category id, so the new category owns no words
/// and is reported with a zero count.
pub fn create_category(
    store: &mut Store,
    user_id: i64,
    category_create: CategoryCreateRequest,
    now: i64,
) -> (r: Result<Category, ApiError>)
    requires
        old(store).wf(),
    ensures
        final(store).wf(),
        final(store).users == old(store).users,
        final(store).sessions == old(store).sessions,
        final(store).words == old(store).words,
        final(store).next_user_id == old(store).next_user_id,
        final(store).next_word_id == old(store).next_word_id,
        match r {
            Ok(c) => {
                &&& old(store).next_category_id < i64::MAX
                &&& final(store).next_category_id == old(store).next_category_id + 1
                &&& final(store).categories@.len() == old(store).categories@.len() + 1
                &&& final(store).categories@.drop_last() == old(store).categories@
                &&& final(store).categories@.last().id == old(store).next_category_id
                &&& final(store).categories@.last().user_id == user_id
                &&& final(store).categories@.last().name == category_create.name
                &&& final(store).categories@.last().created_at == now
                &&& final(store).categories@.last().updated_at == now
                &&& c.id == old(store).next_category_id
                &&& c.name == category_create.name
                &&& c.num_words == 0
                &&& c.sample_words@.len() == 0
                &&& category_reports(c, final(store).categories@.last(), final(store).words@)
            },
            Err(e) => {
                &&& e is StoreError
                &&& *final(store) == *old(store)
                &&& old(store).next_category_id == i64::MAX
            },
        },
{
    if store.next_category_id == i64::MAX {
        return Err(ApiError::StoreError);
    }
    let id = store.next_category_id;
    let name_out = clone_opt_name(&category_create.name);
    let rec = CategoryRecord {
        id,
        user_id,
        name: category_create.name,
        created_at: now,
        updated_at: now,
    };
    store.categories.push(rec);
    store.next_category_id = id + 1;
    proof {
        assert(store.categories@.drop_last() =~= old(store).categories@);
        assert forall|a: int, b: int|
            0 <= a < b < store.categories@.len() implies (#[trigger] store.categories@[a]).id
            != (#[trigger] store.categories@[b]).id by {
            assert(store.categories@[a] == old(store).categories@[a]);
            if b < store.categories@.len() - 1 {
                assert(store.categories@[b] == old(store).categories@[b]);
            }
        }
        assert forall|k: int|
            0 <= k < store.words@.len() implies has_category_id(
            store.categories@,
            (#[trigger] store.words@[k]).category_id,
        ) by {
            assert(has_category_id(old(store).categories@, store.words@[k].category_id));
            let j = choose|j: int|
                0 <= j < old(store).categories@.len() && (#[trigger] old(store).categories@[j]).id
                    == store.words@[k].category_id;
            assert(store.categories@[j] == old(store).categories@[j]);
        }
        assert forall|k: int|
            0 <= k < store.words@.len() implies (#[trigger] store.words@[k]).category_id != id by {
            assert(has_category_id(old(store).categories@, store.words@[k].category_id));
            let j = choose|j: int|
                0 <= j < old(store).categories@.len() && (#[trigger] old(store).categories@[j]).id
                    == store.words@[k].category_id;
            assert(old(store).categories@[j].id < id);
        }
        lemma_words_of_category_empty_iff(store.words@, id);
    }
    Ok(Category { id, name: name_out, num_words: 0, sample_words: Vec::new() })
}

/// Rename a category. The caller must own it; a category that does not
/// exist or belongs to someone else is answered `NotFound`. The renamed
/// category is reported back with its word count and samples.
pub fn update_category(
    store: &mut Store,
    category_id: i64,
    user_id: i64,
    category_update: CategoryUpdateRequest,
) -> (r: Result<Category, ApiError>)
    requires
        old(store).wf(),
        old(store).words@.len() <= i64::MAX,
    ensures
        final(store).wf(),
        final(store).users == old(store).users,
        final(store).sessions == old(store).sessions,
        final(store).words == old(store).words,
        final(store).next_user_id == old(store).next_user_id,
        final(store).next_category_id == old(store).next_category_id,
        final(store).next_word_id == old(store).next_word_id,
        match r {
            Ok(c) => exists|i: int|
                {
                    &&& 0 <= i < old(store).categories@.len()
                    &&& (#[trigger] old(store).categories@[i]).id == category_id
                    &&& old(store).categories@[i].user_id == user_id
                    &&& final(store).categories@ == old(store).categories@.update(
                        i,
                        CategoryRecord {
                            id: old(store).categories@[i].id,
                            user_id: old(store).categories@[i].user_id,
                            name: category_update.name,
                            created_at: old(store).categories@[i].created_at,
                            updated_at: old(store).categories@[i].updated_at,
                        },
                    )
                    &&& category_reports(c, final(store).categories@[i], final(store).words@)
                },
            Err(e) => {
                &&& e is NotFound
                &&& *final(store) == *old(store)
                &&& !category_owned_by(old(store).categories@, category_id, user_id)
            },
        },
{
    match find_category_index(&store.categories, category_id) {
        None => Err(ApiError::NotFound),
        Some(i) => {
            if store.categories[i].user_id != user_id {
                proof {
                    lemma_category_not_owned_by_other(
                        store.categories@,
                        category_id,
                        user_id,
                        i as int,
                    );
                }
                return Err(ApiError::NotFound);
            }
            let name_out = clone_opt_name(&category_update.name);
            let rec = CategoryRecord {
                id: store.categories[i].id,
                user_id: store.categories[i].user_id,
                name: category_update.name,
                created_at: store.categories[i].created_at,
                updated_at: store.categories[i].updated_at,
            };
            store.categories[i] = rec;
            proof {
                let k = i as int;
                let before = old(store).categories@;
                let after = store.categories@;
                assert forall|j: int| 0 <= j < after.len() implies (#[trigger] after[j]).id
                    == before[j].id && after[j].user_id == before[j].user_id by {
                    if j != k {
                        assert(after[j] == before[j]);
                    }
                }
                assert forall|w: int|
                    0 <= w < store.words@.len() implies has_category_id(
                    after,
                    (#[trigger] store.words@[w]).category_id,
                ) by {
                    assert(has_category_id(before, store.words@[w].category_id));
                    let j = choose|j: int|
                        0 <= j < before.len() && (#[trigger] before[j]).id
                            == store.words@[w].category_id;
                    assert(after[j].id == before[j].id);
                }
                assert(after =~= before.update(
                    k,
                    CategoryRecord {
                        id: before[k].id,
                        user_id: before[k].user_id,
                        name: category_update.name,
                        created_at: before[k].created_at,
                        updated_at: before[k].updated_at,
                    },
                ));
            }
            let rec_id = store.categories[i].id;
            let num_words = count_category_words(&store.words, rec_id);
            let basic = CategoryBasic { id: rec_id, name: name_out, num_words };
            let cat = build_category(&store.words, basic);
            Ok(cat)
        },
    }
}

/// Delete a category. The caller must own it and it must own no words;
/// anything else — a missing category, someone else's category, a category
/// still holding words — is the same `NotFound`.
pub fn delete_category(store: &mut Store, category_id: i64, user_id: i64) -> (r: Result<
    (),
    ApiError,
>)
    requires
        old(store).wf(),
    ensures
        final(store).wf(),
        final(store).users == old(store).users,
        final(store).sessions == old(store).sessions,
        final(store).words == old(store).words,
        final(store).next_user_id == old(store).next_user_id,
        final(store).next_category_id == old(store).next_category_id,
        final(store).next_word_id == old(store).next_word_id,
        match r {
            Ok(()) => {
                &&& category_deletable_by(
                    old(store).categories@,
                    old(store).words@,
                    category_id,
                    user_id,
                )
                &&& exists|i: int|
                    0 <= i < old(store).categories@.len() && (#[trigger] old(
                        store,
                    ).categories@[i]).id == category_id
                        && final(store).categories@ == old(store).categories@.remove(i)
            },
            Err(e) => {
                &&& e is NotFound
                &&& *final(store) == *old(store)
                &&& !category_deletable_by(
                    old(store).categories@,
                    old(store).words@,
                    category_id,
                    user_id,
                )
            },
        },
{
    match find_category_index(&store.categories, category_id) {
        None => Err(ApiError::NotFound),
        Some(ci) => {
            if store.categories[ci].user_id != user_id {
                proof {
                    lemma_category_not_owned_by_other(
                        store.categories@,
                        category_id,
                        user_id,
                        ci as int,
                    );
                }
                return Err(ApiError::NotFound);
            }
            if has_words_in(&store.words, category_id) {
                return Err(ApiError::NotFound);
            }
            proof {
                assert((store.categories@[ci as int]).id == category_id);
                lemma_words_of_category_empty_iff(store.words@, category_id);
            }
            store.categories.remove(ci);
            proof {
                let bc = old(store).categories@;
                let ac = store.categories@;
                let k0 = ci as int;
                bc.remove_ensures(k0);
                assert(ac == bc.remove(k0));
                assert forall|a: int, b: int|
                    0 <= a < b < ac.len() implies (#[trigger] ac[a]).id
                    != (#[trigger] ac[b]).id by {
                    let a0 = if a < k0 {
                        a
                    } else {
                        a + 1
                    };
                    let b0 = if b < k0 {
                        b
                    } else {
                        b + 1
                    };
                    assert(ac[a] == bc[a0]);
                    assert(ac[b] == bc[b0]);
                }
                assert forall|k: int|
                    0 <= k < ac.len() implies 1 <= (#[trigger] ac[k]).id
                    < store.next_category_id by {
                    let j0 = if k < k0 {
                        k
                    } else {
                        k + 1
                    };
                    assert(ac[k] == bc[j0]);
                }
                assert forall|w: int|
                    0 <= w < store.words@.len() implies has_category_id(
                    ac,
                    (#[trigger] store.words@[w]).category_id,
                ) by {
                    assert(has_category_id(bc, store.words@[w].category_id));
                    let j = choose|j: int|
                        0 <= j < bc.len() && (#[trigger] bc[j]).id == store.words@[w].category_id;
                    assert(store.words@[w].category_id != category_id);
                    assert(j != k0);
                    let j1 = if j < k0 {
                        j
                    } else {
                        j - 1
                    };
                    assert(ac[j1] == bc[j]);
                }
                assert(0 <= k0 < bc.len() && bc[k0].id == category_id && ac == bc.remove(k0));
            }
            Ok(())
        },
    }
}

} // verus!
