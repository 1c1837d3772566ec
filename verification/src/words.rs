//! Word handlers, all owner-scoped.
//!
//! Listing the words of a category yields exactly the words under it when
//! the caller owns the category and the empty list otherwise — an empty
//! success, not an error. Creating a word requires the caller to own the
//! target category itself. Deleting a word requires the word to sit in the
//! named category and that category to belong to the caller; any miss is
//! answered `NotFound`, never a distinct "forbidden".

use vstd::prelude::*;

use crate::api_data::{ApiError, Word, WordCreateRequest, Words};
use crate::categories::{
    category_owned_by, find_category_index, lemma_category_not_owned_by_other,
};
use crate::store::{
    category_ids_unique, has_category_id, CategoryRecord, Store, WordRecord,
};

verus! {

/// The words under a category, in table order.
pub open spec fn words_of_category(words: Seq<WordRecord>, category_id: i64) -> Seq<WordRecord>
    decreases words.len(),
{
    if words.len() == 0 {
        Seq::empty()
    } else {
        let rest = words_of_category(words.drop_last(), category_id);
        if words.last().category_id == category_id {
            rest.push(words.last())
        } else {
            rest
        }
    }
}

/// No word is under a category exactly when no word record names it.
pub proof fn lemma_words_of_category_empty_iff(words: Seq<WordRecord>, category_id: i64)
    ensures
        (words_of_category(words, category_id).len() == 0) <==> (forall|i: int|
            0 <= i < words.len() ==> (#[trigger] words[i]).category_id != category_id),
    decreases words.len(),
{
    if words.len() > 0 {
        lemma_words_of_category_empty_iff(words.drop_last(), category_id);
        assert forall|i: int|
            0 <= i < words.len() && (words_of_category(words, category_id).len() == 0)
                implies (#[trigger] words[i]).category_id != category_id by {
            if i < words.len() - 1 {
                assert(words.drop_last()[i] == words[i]);
            }
        }
        if forall|i: int| 0 <= i < words.len() ==> (#[trigger] words[i]).category_id != category_id {
            assert forall|i: int|
                0 <= i < words.drop_last().len()
                    implies (#[trigger] words.drop_last()[i]).category_id != category_id by {
                assert(words.drop_last()[i] == words[i]);
            }
        }
    }
}

/// The reported form of a word record.
pub open spec fn word_of_record(w: WordRecord) -> Word {
    Word { id: w.id, word: w.word }
}

/// The report lists exactly these records, in order.
pub open spec fn words_report(out: Seq<Word>, recs: Seq<WordRecord>) -> bool {
    &&& out.len() == recs.len()
    &&& forall|j: int| 0 <= j < recs.len() ==> out[j] == word_of_record(#[trigger] recs[j])
}

/// Whether the word exists under the named category and that category
/// belongs to the user, which is what deleting the word requires.
pub open spec fn word_deletable_by(
    words: Seq<WordRecord>,
    categories: Seq<CategoryRecord>,
    category_id: i64,
    word_id: i64,
    user_id: i64,
) -> bool {
    exists|i: int|
        0 <= i < words.len() && (#[trigger] words[i]).id == word_id && words[i].category_id
            == category_id && category_owned_by(categories, category_id, user_id)
}

/// A word under a category owned by one user cannot be deleted by another:
/// the delete contract then answers `NotFound` and leaves the store — the
/// word included — unchanged.
pub proof fn lemma_delete_word_other_user_not_found(
    words: Seq<WordRecord>,
    categories: Seq<CategoryRecord>,
    category_id: i64,
    word_id: i64,
    user_id: i64,
    i: int,
)
    requires
        category_ids_unique(categories),
        0 <= i < categories.len(),
        categories[i].id == category_id,
        categories[i].user_id != user_id,
    ensures
        !word_deletable_by(words, categories, category_id, word_id, user_id),
{
    lemma_category_not_owned_by_other(categories, category_id, user_id, i);
}

/// Looks a word's position up by id.
pub(crate) fn find_word_index(words: &Vec<WordRecord>, word_id: i64) -> (r: Option<usize>)
    ensures
        match r {
            Option::Some(i) => i < words@.len() && words@[i as int].id == word_id,
            Option::None => forall|j: int|
                0 <= j < words@.len() ==> (#[trigger] words@[j]).id != word_id,
        },
{
    let n = words.len();
    let mut i: usize = 0;
    while i < n
        invariant
            i <= n,
            n == words@.len(),
            forall|j: int| 0 <= j < i ==> (#[trigger] words@[j]).id != word_id,
        decreases n - i,
    {
        if words[i].id == word_id {
            return Some(i);
        }
        i = i + 1;
    }
    None
}

/// The words under a category, converted to their reported form.
pub(crate) fn collect_category_words(words: &Vec<WordRecord>, category_id: i64) -> (r: Vec<Word>)
    ensures
        words_report(r@, words_of_category(words@, category_id)),
{
    let len = words.len();
    let mut out: Vec<Word> = Vec::new();
    let mut i: usize = 0;
    proof {
        assert(words@.take(0) =~= Seq::<WordRecord>::empty());
    }
    while i < len
        invariant
            i <= len,
            len == words@.len(),
            words_report(out@, words_of_category(words@.take(i as int), category_id)),
        decreases len - i,
    {
        proof {
            assert(words@.take(i as int + 1).drop_last() =~= words@.take(i as int));
            assert(words@.take(i as int + 1).last() == words@[i as int]);
        }
        if words[i].category_id == category_id {
            out.push(Word { id: words[i].id, word: words[i].word.clone() });
        }
        i = i + 1;
    }
    proof {
        assert(words@.take(len as int) =~= words@);
    }
    out
}

/// List the words of a category for a caller: the words under it when the
/// caller owns the category, and the empty list — a success, not an error
/// — otherwise.
pub fn list_words(store: &Store, category_id: i64, user_id: i64) -> (r: Words)
    requires
        store.wf(),
    ensures
        category_owned_by(store.categories@, category_id, user_id) ==> words_report(
            r.words@,
            words_of_category(store.words@, category_id),
        ),
        !category_owned_by(store.categories@, category_id, user_id) ==> r.words@.len() == 0,
{
    match find_category_index(&store.categories, category_id) {
        None => Words { words: Vec::new() },
        Some(i) => {
            if store.categories[i].user_id == user_id {
                let words = collect_category_words(&store.words, category_id);
                Words { words }
            } else {
                proof {
                    lemma_category_not_owned_by_other(
                        store.categories@,
                        category_id,
                        user_id,
                        i as int,
                    );
                }
                Words { words: Vec::new() }
            }
        },
    }
}

/// Create a word under a category. The caller must own that category
/// itself — the check is on the target category, so a category belonging
/// to someone else (or no category at all) is answered `NotFound`.
pub fn create_word(
    store: &mut Store,
    category_id: i64,
    user_id: i64,
    word_create: WordCreateRequest,
    now: i64,
) -> (r: Result<Word, ApiError>)
    requires
        old(store).wf(),
    ensures
        final(store).wf(),
        final(store).users == old(store).users,
        final(store).sessions == old(store).sessions,
        final(store).categories == old(store).categories,
        final(store).next_user_id == old(store).next_user_id,
        final(store).next_category_id == old(store).next_category_id,
        match r {
            Ok(w) => {
                &&& category_owned_by(old(store).categories@, category_id, user_id)
                &&& old(store).next_word_id < i64::MAX
                &&& final(store).next_word_id == old(store).next_word_id + 1
                &&& final(store).words@.len() == old(store).words@.len() + 1
                &&& final(store).words@.drop_last() == old(store).words@
                &&& final(store).words@.last().id == old(store).next_word_id
                &&& final(store).words@.last().category_id == category_id
                &&& final(store).words@.last().word == word_create.word
                &&& final(store).words@.last().created_at == now
                &&& final(store).words@.last().updated_at == now
                &&& w.id == old(store).next_word_id
                &&& w.word == word_create.word
            },
            Err(e) => {
                &&& *final(store) == *old(store)
                &&& match e {
                    ApiError::NotFound => !category_owned_by(
                        old(store).categories@,
                        category_id,
                        user_id,
                    ),
                    ApiError::StoreError => category_owned_by(
                        old(store).categories@,
                        category_id,
                        user_id,
                    ) && old(store).next_word_id == i64::MAX,
                }
            },
        },
{
    match find_category_index(&store.categories, category_id) {
        None => Err(ApiError::NotFound),
        Some(ci) => {
            if store.categories[ci].user_id != user_id {
                proof {
                    lemma_category_not_owned_by_other(
                        store.categories@,
                        category_id,
                        user_id,
                        ci as int,
                    );
                }
                return Err(ApiError::NotFound);
            }
            if store.next_word_id == i64::MAX {
                return Err(ApiError::StoreError);
            }
            let id = store.next_word_id;
            let out_text = word_create.word.clone();
            let rec = WordRecord {
                id,
                category_id,
                word: word_create.word,
                created_at: now,
                updated_at: now,
            };
            store.words.push(rec);
            store.next_word_id = id + 1;
            proof {
                assert(store.words@.drop_last() =~= old(store).words@);
                assert forall|a: int, b: int|
                    0 <= a < b < store.words@.len() implies (#[trigger] store.words@[a]).id
                    != (#[trigger] store.words@[b]).id by {
                    assert(store.words@[a] == old(store).words@[a]);
                    if b < store.words@.len() - 1 {
                        assert(store.words@[b] == old(store).words@[b]);
                    }
                }
                assert forall|k: int|
                    0 <= k < store.words@.len() implies has_category_id(
                    store.categories@,
                    (#[trigger] store.words@[k]).category_id,
                ) by {
                    if k < store.words@.len() - 1 {
                        assert(store.words@[k] == old(store).words@[k]);
                        assert(has_category_id(
                            old(store).categories@,
                            old(store).words@[k].category_id,
                        ));
                    } else {
                        assert((store.categories@[ci as int]).id == category_id);
                    }
                }
            }
            Ok(Word { id, word: out_text })
        },
    }
}

/// Delete a word named by its id and the id of the category it is reached
/// through. Succeeds exactly when the word sits in that category and the
/// category belongs to the caller; everything else — a missing word, a
/// category mismatch, someone else's category — is the same `NotFound`.
pub fn delete_word(store: &mut Store, category_id: i64, word_id: i64, user_id: i64) -> (r: Result<
    (),
    ApiError,
>)
    requires
        old(store).wf(),
    ensures
        final(store).wf(),
        final(store).users == old(store).users,
        final(store).sessions == old(store).sessions,
        final(store).categories == old(store).categories,
        final(store).next_user_id == old(store).next_user_id,
        final(store).next_category_id == old(store).next_category_id,
        final(store).next_word_id == old(store).next_word_id,
        match r {
            Ok(()) => {
                &&& category_owned_by(old(store).categories@, category_id, user_id)
                &&& exists|i: int|
                    0 <= i < old(store).words@.len() && (#[trigger] old(store).words@[i]).id
                        == word_id && old(store).words@[i].category_id == category_id
                        && final(store).words@ == old(store).words@.remove(i)
            },
            Err(e) => {
                &&& e is NotFound
                &&& *final(store) == *old(store)
                &&& !word_deletable_by(
                    old(store).words@,
                    old(store).categories@,
                    category_id,
                    word_id,
                    user_id,
                )
            },
        },
{
    match find_word_index(&store.words, word_id) {
        None => Err(ApiError::NotFound),
        Some(wi) => {
            if store.words[wi].category_id != category_id {
                proof {
                    if word_deletable_by(
                        store.words@,
                        store.categories@,
                        category_id,
                        word_id,
                        user_id,
                    ) {
                        let i = choose|i: int|
                            0 <= i < store.words@.len() && (#[trigger] store.words@[i]).id
                                == word_id && store.words@[i].category_id == category_id
                                && category_owned_by(store.categories@, category_id, user_id);
                        if i < wi as int {
                            assert(store.words@[i].id != store.words@[wi as int].id);
                        }
                        if (wi as int) < i {
                            assert(store.words@[wi as int].id != store.words@[i].id);
                        }
                    }
                }
                return Err(ApiError::NotFound);
            }
            match find_category_index(&store.categories, category_id) {
                None => Err(ApiError::NotFound),
                Some(ci) => {
                    if store.categories[ci].user_id != user_id {
                        proof {
                            lemma_category_not_owned_by_other(
                                store.categories@,
                                category_id,
                                user_id,
                                ci as int,
                            );
                        }
                        return Err(ApiError::NotFound);
                    }
                    proof {
                        assert((store.categories@[ci as int]).id == category_id);
                    }
                    store.words.remove(wi);
                    proof {
                        let bw = old(store).words@;
                        let aw = store.words@;
                        let k0 = wi as int;
                        bw.remove_ensures(k0);
                        assert(aw == bw.remove(k0));
                        assert forall|a: int, b: int|
                            0 <= a < b < aw.len() implies (#[trigger] aw[a]).id
                            != (#[trigger] aw[b]).id by {
                            let a0 = if a < k0 {
                                a
                            } else {
                                a + 1
                            };
                            let b0 = if b < k0 {
                                b
                            } else {
                                b + 1
                            };
                            assert(aw[a] == bw[a0]);
                            assert(aw[b] == bw[b0]);
                        }
                        assert forall|k: int|
                            0 <= k < aw.len() implies 1 <= (#[trigger] aw[k]).id < store.next_word_id
                            && has_category_id(store.categories@, aw[k].category_id) by {
                            let j0 = if k < k0 {
                                k
                            } else {
                                k + 1
                            };
                            assert(aw[k] == bw[j0]);
                            assert(has_category_id(store.categories@, bw[j0].category_id));
                        }
                        assert(0 <= k0 < bw.len() && bw[k0].id == word_id && bw[k0].category_id
                            == category_id && aw == bw.remove(k0));
                    }
                    Ok(())
                },
            }
        },
    }
}

} // verus!
