//! What holds of every storage and every index, whatever was done to it.

use vstd::prelude::*;
use crate::bitmap::lemma_count_set_bound;
use crate::full_text_index::mutable_inverted_index::{distinct, registered_all, InvertedIndexView};
use crate::vector_storage::files::StorageFilesView;
use crate::vector_storage::model::StorageModel;
use crate::vector_storage::traits::VectorStorage;
use crate::vector_storage::vectors::VectorView;

verus! {

/// The storage after the first `count` of `writes` were made in order, each
/// a vector written at an offset.
pub open spec fn written_all(
    model: StorageModel,
    writes: Seq<(nat, VectorView)>,
    count: nat,
) -> StorageModel
    decreases count,
{
    if count == 0 {
        model
    } else {
        written_all(model, writes, (count - 1) as nat).inserted(
            writes[count - 1].0,
            writes[count - 1].1,
        )
    }
}

/// The number of offsets in use after the first `count` of `writes`: the
/// number there was, or one more than the highest offset written, whichever
/// is more.
pub open spec fn high_water(total: nat, writes: Seq<(nat, VectorView)>, count: nat) -> nat
    decreases count,
{
    if count == 0 {
        total
    } else if writes[count - 1].0 + 1 > high_water(total, writes, (count - 1) as nat) {
        writes[count - 1].0 + 1
    } else {
        high_water(total, writes, (count - 1) as nat)
    }
}

/// After any run of writes the number of vectors is the high-water mark of
/// the offsets written, every offset holds the vector that was written to
/// it last, and no deletion flag has changed.
pub proof fn lemma_writes(model: StorageModel, writes: Seq<(nat, VectorView)>, count: nat)
    requires
        model.deleted.len() == model.vectors.len(),
        count <= writes.len(),
    ensures
        written_all(model, writes, count).total() == high_water(model.total(), writes, count),
        written_all(model, writes, count).deleted.len() == written_all(
            model,
            writes,
            count,
        ).vectors.len(),
        forall|i: int|
            0 <= i < count && (forall|j: int| i < j < count ==> writes[j].0 != writes[i].0)
                ==> written_all(model, writes, count).vectors[#[trigger] writes[i].0 as int]
                == writes[i].1,
        forall|key: int|
            written_all(model, writes, count).is_deleted(key) == model.is_deleted(key),
    decreases count,
{
    if count > 0 {
        let before = written_all(model, writes, (count - 1) as nat);
        let after = written_all(model, writes, count);
        let key = writes[count - 1].0;
        lemma_writes(model, writes, (count - 1) as nat);
        assert forall|i: int|
            0 <= i < count && (forall|j: int|
                i < j < count ==> writes[j].0 != writes[i].0) implies after.vectors[
        #[trigger] writes[i].0 as int] == writes[i].1 by {
            if i < count - 1 {
                assert(writes[count - 1].0 != writes[i].0);
                assert forall|j: int| i < j < count - 1 implies writes[j].0 != writes[i].0 by {}
                assert(before.vectors[writes[i].0 as int] == writes[i].1);
                // an offset that was written before lies below the mark
                lemma_written_below(model.total(), writes, (count - 1) as nat, i);
            }
        }
    }
}

/// An offset that was written lies below the high-water mark.
pub proof fn lemma_written_below(total: nat, writes: Seq<(nat, VectorView)>, count: nat, i: int)
    requires
        0 <= i < count <= writes.len(),
    ensures
        writes[i].0 < high_water(total, writes, count),
    decreases count,
{
    if i < count - 1 {
        lemma_written_below(total, writes, (count - 1) as nat, i);
    }
}

/// Deleting is idempotent: a vector that was deleted is flagged, and
/// deleting it once more changes nothing and finds nothing left to flag.
pub proof fn lemma_delete_twice(model: StorageModel, key: nat)
    requires
        model.wf(),
        key < model.total(),
    ensures
        model.removed(key).wf(),
        model.removed(key).is_deleted(key as int),
        model.removed(key).removed(key) == model.removed(key),
        model.removed(key).total() == model.total(),
        model.removed(key).deleted_count() == model.deleted_count() + if model.is_deleted(
            key as int,
        ) {
            0nat
        } else {
            1nat
        },
{
    assert(model.removed(key).removed(key).deleted =~= model.removed(key).deleted);
    crate::bitmap::lemma_count_set_update(model.deleted, key as int);
}

/// The vectors that are available and those that are deleted make up all.
pub proof fn lemma_available(model: StorageModel)
    requires
        model.wf(),
    ensures
        model.deleted_count() <= model.total(),
        model.available_count() + model.deleted_count() == model.total(),
{
    lemma_count_set_bound(model.deleted);
}

/// A storage read back from the files of a flush holds what the flushed
/// storage held: the same vectors at the same offsets, and the same
/// deletion flags, hence as many deleted vectors.
pub proof fn lemma_reopened<S: VectorStorage>(flushed: &S, reopened: &S, files: StorageFilesView)
    requires
        flushed.wf(),
        reopened.wf(),
        flushed.spec_held_by(files),
        reopened.spec_held_by(files),
    ensures
        reopened.model() == flushed.model(),
        reopened.model().deleted_count() == flushed.model().deleted_count(),
        forall|key: int|
            0 <= key < flushed.model().total() ==> reopened.model().vectors[key]
                == flushed.model().vectors[key],
{
    flushed.lemma_held_by(reopened, files);
}

/// In a sound and consistent index a point stands in the postings of a
/// token exactly where the token is among the tokens of the point.
pub proof fn lemma_postings_are_tokens(index: InvertedIndexView, token: u32, point: u32)
    requires
        index.wf(),
        index.consistent(),
    ensures
        index.posted(token as int, point) <==> index.point_has_token(point as int, token),
{
}

/// Identifiers are stable: tokens that the vocabulary holds are found at
/// their places when they are registered again, the vocabulary stays as it
/// is, and no token has two identifiers.
pub proof fn lemma_token_ids_stable(vocab: Seq<Seq<char>>, tokens: Seq<Seq<char>>)
    requires
        distinct(vocab),
        forall|k: int| 0 <= k < tokens.len() ==> vocab.contains(#[trigger] tokens[k]),
    ensures
        registered_all(vocab, tokens, tokens.len()) == vocab,
        forall|a: int, b: int|
            0 <= a < vocab.len() && 0 <= b < vocab.len() && vocab[a] == vocab[b] ==> a == b,
{
    crate::full_text_index::mutable_inverted_index::lemma_registered_again(vocab, tokens,
        tokens.len());
}

} // verus!
