//! Category collections and the drawing of a card.

use crate::error::GameError;
use crate::random::pick;
use vstd::prelude::*;

verus! {

/// A card of `num` categories can be drawn from `collection`: there is
/// something to draw from, and it holds at least `num` different names.
pub open spec fn can_draw(collection: Seq<Seq<char>>, num: nat) -> bool {
    collection.len() > 0 && num <= collection.to_set().len()
}

/// `card` is a draw of `num` categories from `collection`: `num` names, no
/// name twice, each of them an entry of the collection.
pub open spec fn is_draw_of(card: Seq<Seq<char>>, collection: Seq<Seq<char>>, num: nat) -> bool {
    &&& card.len() == num
    &&& card.no_duplicates()
    &&& forall|i: int| 0 <= i < card.len() ==> collection.contains(#[trigger] card[i])
}

/// Why no card of `num` categories can be drawn from `collection`.
pub open spec fn draw_failure(collection: Seq<Seq<char>>, num: nat) -> GameError {
    if collection.len() == 0 {
        GameError::EmptyCollection
    } else {
        GameError::InsufficientCategories
    }
}

/// `pool` lists, in rising order, exactly the positions of `collection` whose
/// name is not on `card`.
pub open spec fn is_pool(pool: Seq<usize>, collection: Seq<Seq<char>>, card: Seq<Seq<char>>) -> bool {
    &&& forall|j: int, k: int| 0 <= j < k < pool.len() ==> pool[j] < pool[k]
    &&& forall|k: int|
        0 <= k < pool.len() ==> #[trigger] pool[k] < collection.len() && !card.contains(
            collection[pool[k] as int],
        )
    &&& forall|p: usize|
        p < collection.len() && !card.contains(collection[p as int]) ==> #[trigger] pool.contains(p)
}

/// A copy of a list of names.
pub fn copy_names(names: &Vec<String>) -> (copy: Vec<String>)
    ensures
        copy@ == names@,
{
    names.clone()
}

/// Where `name` first stands in `names`, if it is among them.
pub fn position_of(names: &Vec<String>, name: &String) -> (found: Option<usize>)
    ensures
        match found {
            Some(position) => {
                &&& position < names@.len()
                &&& names.deep_view()[position as int] == name@
                &&& forall|k: int| 0 <= k < position ==> names.deep_view()[k] != name@
            },
            None => !names.deep_view().contains(name@),
        },
{
    let mut at: usize = 0;
    while at < names.len()
        invariant
            at <= names@.len(),
            forall|k: int| 0 <= k < at ==> names.deep_view()[k] != name@,
        decreases names@.len() - at,
    {
        if names[at] == *name {
            return Some(at);
        }
        at += 1;
    }
    None
}

/// Whether some name stands twice in `names`.
pub fn has_repeats(names: &Vec<String>) -> (repeated: bool)
    ensures
        repeated == !names.deep_view().no_duplicates(),
{
    let mut at: usize = 0;
    while at < names.len()
        invariant
            at <= names@.len(),
            forall|j: int, k: int|
                0 <= j < k < at ==> names.deep_view()[j] != names.deep_view()[k],
        decreases names@.len() - at,
    {
        if let Some(first) = position_of(names, &names[at]) {
            if first < at {
                assert(names.deep_view()[first as int] == names.deep_view()[at as int]);
                return true;
            }
        }
        at += 1;
    }
    false
}

/// All positions of a collection of `total` entries: the pool before
/// anything is drawn.
pub fn all_positions(total: usize) -> (pool: Vec<usize>)
    ensures
        pool@.len() == total,
        forall|k: int| 0 <= k < total ==> pool@[k] == k,
{
    let mut pool: Vec<usize> = Vec::new();
    let mut next: usize = 0;
    while next < total
        invariant
            next <= total,
            pool@.len() == next,
            forall|k: int| 0 <= k < next ==> pool@[k] == k,
        decreases total - next,
    {
        pool.push(next);
        next += 1;
    }
    pool
}

/// The positions of `pool` whose name in `collection` differs from `name`.
fn positions_without(collection: &Vec<String>, pool: &Vec<usize>, name: &String) -> (kept: Vec<usize>)
    requires
        forall|k: int| 0 <= k < pool@.len() ==> pool@[k] < collection@.len(),
        forall|j: int, k: int| 0 <= j < k < pool@.len() ==> pool@[j] < pool@[k],
    ensures
        forall|j: int, k: int| 0 <= j < k < kept@.len() ==> kept@[j] < kept@[k],
        forall|k: int| 0 <= k < kept@.len() ==> pool@.contains(#[trigger] kept@[k]),
        forall|k: int| 0 <= k < kept@.len() ==> collection@[(#[trigger] kept@[k]) as int]@ != name@,
        forall|k: int|
            0 <= k < pool@.len() && collection@[pool@[k] as int]@ != name@ ==> kept@.contains(
                #[trigger] pool@[k],
            ),
{
    let mut kept: Vec<usize> = Vec::new();
    let mut at: usize = 0;
    while at < pool.len()
        invariant
            at <= pool@.len(),
            forall|k: int| 0 <= k < pool@.len() ==> pool@[k] < collection@.len(),
            forall|j: int, k: int| 0 <= j < k < pool@.len() ==> pool@[j] < pool@[k],
            forall|j: int, k: int| 0 <= j < k < kept@.len() ==> kept@[j] < kept@[k],
            forall|k: int|
                0 <= k < kept@.len() ==> exists|j: int| 0 <= j < at && pool@[j] == #[trigger] kept@[k],
            forall|k: int| 0 <= k < kept@.len() ==> collection@[(#[trigger] kept@[k]) as int]@ != name@,
            forall|k: int|
                0 <= k < at && collection@[pool@[k] as int]@ != name@ ==> kept@.contains(
                    #[trigger] pool@[k],
                ),
        decreases pool@.len() - at,
    {
        let position = pool[at];
        if collection[position] != *name {
            let ghost before = kept@;
            kept.push(position);
            assert forall|k: int|
                0 <= k < at + 1 && collection@[pool@[k] as int]@ != name@ implies kept@.contains(
                #[trigger] pool@[k],
            ) by {
                if k < at {
                    let w = choose|w: int| 0 <= w < before.len() && before[w] == pool@[k];
                    assert(kept@[w] == pool@[k]);
                } else {
                    assert(kept@[kept@.len() - 1] == pool@[k]);
                }
            }
        }
        at += 1;
    }
    kept
}

/// Puts the name at `position` on the card and strikes from the pool every
/// position that holds this name.
pub fn take_position(
    collection: &Vec<String>,
    pool: &mut Vec<usize>,
    card: &mut Vec<String>,
    position: usize,
)
    requires
        is_pool(old(pool)@, collection.deep_view(), old(card).deep_view()),
        old(pool)@.contains(position),
    ensures
        final(card).deep_view() == old(card).deep_view().push(
            collection.deep_view()[position as int],
        ),
        is_pool(final(pool)@, collection.deep_view(), final(card).deep_view()),
{
    let ghost names = collection.deep_view();
    let ghost drawn = card.deep_view();
    let name = collection[position].clone();
    let rest = positions_without(collection, pool, &name);
    card.push(name);
    proof {
        let grown = card.deep_view();
        assert(grown =~= drawn.push(names[position as int]));
        assert(is_pool(rest@, names, grown)) by {
            assert forall|p: usize|
                p < names.len() && !grown.contains(names[p as int]) implies #[trigger] rest@.contains(
                p,
            ) by {
                assert(grown[grown.len() - 1] == name@);
                assert(!drawn.contains(names[p as int])) by {
                    if drawn.contains(names[p as int]) {
                        let w = choose|w: int| 0 <= w < drawn.len() && drawn[w] == names[p as int];
                        assert(grown[w] == names[p as int]);
                    }
                }
                assert(pool@.contains(p));
            }
        }
    }
    *pool = rest;
}

/// Draws a card with `num` categories from `category_collection`.
///
/// Every pick is uniform over the entries whose name is not on the card yet,
/// which is what picking from the whole collection until a new name comes up
/// amounts to. The card lists the names in the order drawn. A collection
/// that cannot give `num` different names yields no card at all.
pub fn draw_card(category_collection: &Vec<String>, num: u32) -> (card: Result<Vec<String>, GameError>)
    ensures
        match card {
            Ok(drawn) => {
                &&& can_draw(category_collection.deep_view(), num as nat)
                &&& is_draw_of(drawn.deep_view(), category_collection.deep_view(), num as nat)
            },
            Err(error) => {
                &&& !can_draw(category_collection.deep_view(), num as nat)
                &&& error == draw_failure(category_collection.deep_view(), num as nat)
            },
        },
        category_collection@.len() == 0 ==> card == Err::<Vec<String>, GameError>(
            GameError::EmptyCollection,
        ),
        0 < category_collection@.len() < num ==> card == Err::<Vec<String>, GameError>(
            GameError::InsufficientCategories,
        ),
{
    let ghost collection = category_collection.deep_view();
    let total = category_collection.len();
    if total == 0 {
        return Err(GameError::EmptyCollection);
    }
    if num as usize > total {
        proof {
            collection.lemma_cardinality_of_set();
        }
        return Err(GameError::InsufficientCategories);
    }
    let mut rng = rand::thread_rng();
    let mut pool = all_positions(total);
    let mut card: Vec<String> = Vec::new();
    assert(is_pool(pool@, collection, card.deep_view())) by {
        assert forall|p: usize| p < collection.len() implies #[trigger] pool@.contains(p) by {
            assert(pool@[p as int] == p);
        }
    }
    while card.len() < num as usize
        invariant
            collection == category_collection.deep_view(),
            collection.len() == total,
            total > 0,
            card@.len() <= num,
            is_pool(pool@, collection, card.deep_view()),
            card.deep_view().no_duplicates(),
            forall|i: int|
                0 <= i < card@.len() ==> collection.contains(#[trigger] card.deep_view()[i]),
        decreases num - card@.len(),
    {
        let ghost drawn = card.deep_view();
        match pick(pool.as_slice(), &mut rng) {
            None => {
                proof {
                    assert(pool@ =~= Seq::<usize>::empty());
                    lemma_exhausted_pool(collection, drawn);
                }
                return Err(GameError::InsufficientCategories);
            },
            Some(position) => {
                let position: usize = *position;
                take_position(category_collection, &mut pool, &mut card, position);
                assert(card.deep_view().len() == drawn.len() + 1);
            },
        }
    }
    proof {
        lemma_draw_fits(card.deep_view(), collection);
    }
    Ok(card)
}

/// Once no position is left to pick from, every name of the collection is on
/// the card, so the collection holds no more different names than the card.
proof fn lemma_exhausted_pool(collection: Seq<Seq<char>>, card: Seq<Seq<char>>)
    requires
        collection.len() <= usize::MAX,
        is_pool(Seq::<usize>::empty(), collection, card),
    ensures
        collection.to_set().len() <= card.len(),
{
    broadcast use vstd::seq_lib::seq_to_set_is_finite;

    assert forall|name: Seq<char>| collection.to_set().contains(name) implies card.to_set().contains(
        name,
    ) by {
        let i = choose|i: int| 0 <= i < collection.len() && collection[i] == name;
        if !card.contains(collection[i]) {
            assert(Seq::<usize>::empty().contains(i as usize));
        }
    }
    vstd::set_lib::lemma_len_subset(collection.to_set(), card.to_set());
    card.lemma_cardinality_of_set();
}

/// A card without repeated names, all taken from the collection, holds no more
/// names than the collection has different ones.
proof fn lemma_draw_fits(card: Seq<Seq<char>>, collection: Seq<Seq<char>>)
    requires
        card.no_duplicates(),
        forall|i: int| 0 <= i < card.len() ==> collection.contains(#[trigger] card[i]),
    ensures
        card.len() <= collection.to_set().len(),
{
    broadcast use vstd::seq_lib::seq_to_set_is_finite;

    vstd::set_lib::lemma_len_subset(card.to_set(), collection.to_set());
    card.unique_seq_to_set();
}

} // verus!
