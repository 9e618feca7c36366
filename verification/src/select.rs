//! Choosing which train to show.
//!
//! A built-in train is chosen by its number, or by chance where no
//! number is given. A train from a directory of the user's is always
//! chosen by chance.

use rand::Rng;
use vstd::prelude::*;
use vstd::string::StrSliceExecFns;
use crate::error::Error;
use crate::text::{ends_with, views};
use crate::trains::{
    TrainDefinition, TrainDefinitionView, builtin_trains, c51_train_view, default_train_view,
    definition_views, logo_train_view,
};

verus! {

/// The number of built-in trains.
pub const BUILTIN_TRAINS: usize = 3;

/// The built-in trains, in the order of their numbers.
pub open spec fn builtin_views() -> Seq<TrainDefinitionView> {
    seq![default_train_view(), logo_train_view(), c51_train_view()]
}

/// The built-in train with the given number, or the error that says
/// that there is none.
pub open spec fn builtin_of(number: usize) -> Result<TrainDefinitionView, Error> {
    if number < builtin_views().len() {
        Ok(builtin_views()[number as int])
    } else {
        Err(Error::InvalidTrainIndex(number))
    }
}

/// What the name of a file that holds a train ends with.
pub open spec fn train_extension() -> Seq<char> {
    seq!['.', 't', 'r', 'a', 'i', 'n']
}

/// Whether a file of this name holds a train: the name ends with
/// `.train`, and there is more to it than that.
pub open spec fn is_train_name(name: Seq<char>) -> bool {
    name.len() > train_extension().len() && train_extension().is_suffix_of(name)
}

/// The handle to the random number generator of the running thread,
/// `rand::rngs::ThreadRng`. Nothing is known of what is inside.
#[verifier::external_type_specification]
#[verifier::external_body]
pub struct ExThreadRng(rand::rngs::ThreadRng);

/// `rand::thread_rng` hands out the generator of the running thread,
/// which the system has seeded. Nothing is claimed of it.
pub assume_specification[ rand::thread_rng ]() -> (rng: rand::rngs::ThreadRng)
;

/// Draws a number below `bound` by chance.
///
/// This calls `rand::Rng::gen_range` with the range from 0 up to, but
/// not including, `bound`. The contract claims what `gen_range`
/// documents: the number drawn lies in the range. An empty range makes
/// `gen_range` panic, so `bound` has to be positive. Nothing is
/// claimed about which number is drawn.
#[verifier::external_body]
fn random_below(rng: &mut rand::rngs::ThreadRng, bound: usize) -> (drawn: usize)
    requires
        bound > 0,
    ensures
        drawn < bound,
{
    rng.gen_range(0..bound)
}

/// Picks one of `count` candidates by chance, by its index. Without
/// candidates there is nothing to pick.
pub fn random_index(count: usize) -> (index: Option<usize>)
    ensures
        match index {
            Some(i) => i < count,
            None => count == 0,
        },
{
    if count == 0 {
        None
    } else {
        let mut rng = rand::thread_rng();
        Some(random_below(&mut rng, count))
    }
}

/// The built-in train with the given number.
pub fn builtin_train(number: usize) -> (res: Result<TrainDefinition, Error>)
    ensures
        match res {
            Ok(definition) => builtin_of(number) == Ok::<TrainDefinitionView, Error>(definition@),
            Err(error) => builtin_of(number) == Err::<TrainDefinitionView, Error>(error),
        },
{
    let mut trains = builtin_trains();
    if number >= trains.len() {
        return Err(Error::InvalidTrainIndex(number));
    }
    Ok(trains.remove(number))
}

/// The built-in train that the user asked for by its number or, where
/// the user gave no number, one of the built-in trains picked by
/// chance.
pub fn choose_builtin(requested: Option<usize>) -> (res: Result<TrainDefinition, Error>)
    ensures
        match requested {
            Some(number) => match res {
                Ok(definition) => builtin_of(number) == Ok::<TrainDefinitionView, Error>(
                    definition@,
                ),
                Err(error) => builtin_of(number) == Err::<TrainDefinitionView, Error>(error),
            },
            None => res matches Ok(definition) && exists|number: int|
                0 <= number < builtin_views().len() && definition@
                    == #[trigger] builtin_views()[number],
        },
{
    let number = match requested {
        Some(number) => number,
        None => {
            let mut rng = rand::thread_rng();
            random_below(&mut rng, BUILTIN_TRAINS)
        },
    };
    builtin_train(number)
}

/// Whether a file of this name holds a train.
pub fn is_train_file(name: &str) -> (yes: bool)
    ensures
        yes == is_train_name(name@),
{
    proof {
        reveal_strlit(".train");
    }
    name.unicode_len() > 6 && ends_with(name, ".train")
}

/// The indices of the names that are names of train files, in
/// ascending order.
pub open spec fn train_file_indices(names: Seq<Seq<char>>) -> Seq<int>
    decreases names.len(),
{
    if names.len() == 0 {
        Seq::empty()
    } else if is_train_name(names.last()) {
        train_file_indices(names.drop_last()).push(names.len() - 1)
    } else {
        train_file_indices(names.drop_last())
    }
}

/// `train_file_indices` lists the index of every name of a train file
/// and nothing else.
pub proof fn lemma_train_file_indices(names: Seq<Seq<char>>)
    ensures
        forall|k: int|
            0 <= k < train_file_indices(names).len() ==> {
                &&& 0 <= (#[trigger] train_file_indices(names)[k]) < names.len()
                &&& is_train_name(names[train_file_indices(names)[k]])
            },
        forall|i: int|
            0 <= i < names.len() && is_train_name(#[trigger] names[i]) ==> train_file_indices(
                names,
            ).contains(i),
    decreases names.len(),
{
    let found = train_file_indices(names);
    if names.len() > 0 {
        let before = names.drop_last();
        let earlier = train_file_indices(before);
        let last = names.len() - 1;
        lemma_train_file_indices(before);
        assert forall|k: int| 0 <= k < found.len() implies {
            &&& 0 <= (#[trigger] found[k]) < names.len()
            &&& is_train_name(names[found[k]])
        } by {
            if k < earlier.len() {
                assert(found[k] == earlier[k]);
                assert(before[earlier[k]] == names[earlier[k]]);
            }
        }
        assert forall|i: int| 0 <= i < names.len() && is_train_name(
            #[trigger] names[i],
        ) implies found.contains(i) by {
            if i == last {
                assert(found[found.len() - 1] == i);
            } else {
                assert(before[i] == names[i]);
                assert(earlier.contains(i));
                let k = choose|k: int| 0 <= k < earlier.len() && earlier[k] == i;
                assert(found[k] == i);
            }
        }
    }
}

/// Lists the files that hold a train, out of the files of a directory,
/// by their indices in `names`.
pub fn train_files(names: &Vec<String>) -> (indices: Vec<usize>)
    ensures
        indices@.map_values(|i: usize| i as int) == train_file_indices(views(names@)),
{
    let mut indices: Vec<usize> = Vec::new();
    let mut i: usize = 0;
    let ghost all = views(names@);
    while i < names.len()
        invariant
            i <= names.len(),
            all == views(names@),
            indices@.map_values(|i: usize| i as int) == train_file_indices(all.take(i as int)),
        decreases names.len() - i,
    {
        proof {
            let upto = all.take(i + 1);
            assert(upto.drop_last() =~= all.take(i as int));
        }
        if is_train_file(names[i].as_str()) {
            indices.push(i);
        }
        i += 1;
    }
    assert(all.take(i as int) =~= all);
    indices
}

/// Picks by chance one of the files that hold a train, out of the
/// files of a directory, and returns its index in `names`. Where no
/// file holds a train there is nothing to pick.
pub fn pick_train_file(names: &Vec<String>) -> (picked: Option<usize>)
    ensures
        match picked {
            Some(index) => index < names@.len() && is_train_name(names@[index as int]@),
            None => forall|i: int| 0 <= i < names@.len() ==> !is_train_name(#[trigger] names@[i]@),
        },
{
    let candidates = train_files(names);
    proof {
        let all = views(names@);
        let found = train_file_indices(all);
        lemma_train_file_indices(all);
        assert forall|k: int| 0 <= k < candidates@.len() implies {
            &&& 0 <= (#[trigger] candidates@[k]) < names@.len()
            &&& is_train_name(names@[candidates@[k] as int]@)
        } by {
            assert(candidates@.map_values(|i: usize| i as int)[k] == candidates@[k]);
            assert(found[k] == candidates@[k]);
            assert(all[found[k]] == names@[found[k]]@);
        }
        if candidates@.len() == 0 {
            assert(found.len() == 0);
            assert forall|i: int| 0 <= i < names@.len() implies !is_train_name(
                #[trigger] names@[i]@,
            ) by {
                assert(all[i] == names@[i]@);
                if is_train_name(all[i]) {
                    assert(found.contains(i));
                }
            }
        }
    }
    match random_index(candidates.len()) {
        Some(choice) => Some(candidates[choice]),
        None => None,
    }
}

} // verus!
