//! Labelled examples and the shuffled collection that training walks.

use crate::features::failure_of;
use crate::features::is_features_of;
use crate::features::jpg_to_chw;
use crate::features::FeatureError;
use crate::features::FeatureVector;
use crate::features::INPUT_DIM;
use crate::kind::Kind;
use rand::seq::SliceRandom;
use rand::SeedableRng;
use vstd::prelude::*;
use vstd::seq_lib::group_to_multiset_ensures;
use vstd::seq_lib::lemma_multiset_commutative;

verus! {

/// What an example is to a contract: its class and its levels.
pub type Example = (Kind, Seq<u8>);

/// A feature vector with the class of its picture.
pub struct Data {
    kind: Kind,
    data: FeatureVector,
}

impl View for Data {
    type V = Example;

    closed spec fn view(&self) -> Example {
        (self.kind, self.data@)
    }
}

impl Data {
    #[verifier::type_invariant]
    spec fn full(self) -> bool {
        self.data.full()
    }

    pub fn new(kind: Kind, data: FeatureVector) -> (d: Data)
        ensures
            d@ == (kind, data@),
    {
        proof {
            use_type_invariant(&data);
        }
        Data { kind, data }
    }

    pub fn get_kind(&self) -> (k: Kind)
        ensures
            k == self@.0,
    {
        self.kind
    }

    /// The features, which are always [`INPUT_DIM`] levels.
    pub fn get_data(&self) -> (f: &FeatureVector)
        ensures
            f@ == self@.1,
            f@.len() == INPUT_DIM,
    {
        proof {
            use_type_invariant(self);
            self.data.lemma_full_length();
        }
        &self.data
    }
}

/// Whether each of `examples` has as many levels as the classifier has inputs.
pub open spec fn well_formed(examples: Seq<Example>) -> bool {
    forall|i: int| 0 <= i < examples.len() ==> (#[trigger] examples[i]).1.len() == INPUT_DIM
}

/// The examples that a sequence of data stands for, in its order.
pub open spec fn examples(values: Seq<Data>) -> Seq<Example> {
    values.map_values(|d: Data| d@)
}

/// The examples made of `features`, each with the class `kind`.
pub open spec fn labeled(kind: Kind, features: Seq<FeatureVector>) -> Seq<Example> {
    features.map_values(|f: FeatureVector| (kind, f@))
}

/// The classes of `examples`, in their order.
pub open spec fn labels(examples: Seq<Example>) -> Seq<Kind> {
    examples.map_values(|e: Example| e.0)
}

/// How many of `examples` have the class `kind`.
pub open spec fn count_of(examples: Seq<Example>, kind: Kind) -> nat {
    labels(examples).to_multiset().count(kind)
}

/// Two sequences with the same items, whatever their order, still have the
/// same items after one function is applied to each item.
pub proof fn lemma_map_values_keeps_items<A, B>(a: Seq<A>, b: Seq<A>, f: spec_fn(A) -> B)
    requires
        a.to_multiset() == b.to_multiset(),
    ensures
        a.map_values(f).to_multiset() == b.map_values(f).to_multiset(),
    decreases a.len(),
{
    broadcast use group_to_multiset_ensures;

    assert(a.len() == b.len()) by {
        assert(a.len() == a.to_multiset().len());
        assert(b.len() == b.to_multiset().len());
    }
    if a.len() == 0 {
        assert(a.map_values(f) =~= b.map_values(f));
    } else {
        let x = a.last();
        let a_rest = a.drop_last();
        assert(a =~= a_rest.push(x));
        assert(b.to_multiset().count(x) > 0);
        assert(b.contains(x));
        let j = choose|j: int| 0 <= j < b.len() && b[j] == x;
        let b_rest = b.remove(j);
        assert(a_rest.to_multiset() =~= b_rest.to_multiset());
        lemma_map_values_keeps_items(a_rest, b_rest, f);
        assert(a.map_values(f) =~= a_rest.map_values(f).push(f(x)));
        assert(b.map_values(f) =~= b_rest.map_values(f).insert(j, f(x)));
    }
}

/// Examples of one class count fully for that class and not at all for the
/// other one.
pub proof fn lemma_count_of_labeled(kind: Kind, features: Seq<FeatureVector>, other: Kind)
    ensures
        count_of(labeled(kind, features), other) == if other == kind {
            features.len()
        } else {
            0
        },
    decreases features.len(),
{
    broadcast use group_to_multiset_ensures;

    if features.len() == 0 {
        assert(labels(labeled(kind, features)) =~= Seq::<Kind>::empty());
    } else {
        let rest = features.drop_last();
        lemma_count_of_labeled(kind, rest, other);
        assert(labels(labeled(kind, features)) =~= labels(labeled(kind, rest)).push(kind));
    }
}

/// The count of a class in two runs of examples, one after the other, is the
/// sum of its counts in each.
pub proof fn lemma_count_of_concat(first: Seq<Example>, second: Seq<Example>, kind: Kind)
    ensures
        count_of(first + second, kind) == count_of(first, kind) + count_of(second, kind),
{
    assert(labels(first + second) =~= labels(first) + labels(second));
    lemma_multiset_commutative(labels(first), labels(second));
}

/// The order of the examples does not change how many there are of a class.
pub proof fn lemma_count_of_ignores_order(a: Seq<Example>, b: Seq<Example>, kind: Kind)
    requires
        a.to_multiset() == b.to_multiset(),
    ensures
        a.len() == b.len(),
        count_of(a, kind) == count_of(b, kind),
{
    broadcast use group_to_multiset_ensures;

    assert(a.len() == a.to_multiset().len());
    assert(b.len() == b.to_multiset().len());
    lemma_map_values_keeps_items(a, b, |e: Example| e.0);
}

/// The generator `rand::rngs::StdRng`, carried through and never looked into.
#[verifier::external_type_specification]
#[verifier::external_body]
pub struct ExStdRng(rand::rngs::StdRng);

/// Calls `StdRng::seed_from_u64`.
///
/// Trusted: nothing but that a generator comes back.
#[verifier::external_body]
fn seeded_rng(seed: u64) -> (rng: rand::rngs::StdRng) {
    rand::rngs::StdRng::seed_from_u64(seed)
}

/// The error `rand::rand_core::OsError`, carried through and never looked
/// into.
#[verifier::external_type_specification]
#[verifier::external_body]
pub struct ExOsError(rand::rand_core::OsError);

/// Calls `StdRng::try_from_rng` on `OsRng`, which seeds a generator from the
/// operating system.
///
/// Trusted: nothing but that a generator or an error comes back.
#[verifier::external_body]
fn os_seeded_rng() -> (rng: Result<rand::rngs::StdRng, rand::rand_core::OsError>) {
    rand::rngs::StdRng::try_from_rng(&mut rand::rngs::OsRng)
}

/// Calls `SliceRandom::shuffle` on the slice of `values` with the generator
/// `rng`.
///
/// Trusted: the shuffle only swaps items of the slice, so the same items are
/// there afterwards, each as often as before. Nothing is said of their order.
#[verifier::external_body]
fn shuffle(values: &mut Vec<Data>, rng: &mut rand::rngs::StdRng)
    ensures
        final(values)@.to_multiset() == old(values)@.to_multiset(),
{
    values.as_mut_slice().shuffle(rng);
}

/// Whether every one of `values` holds a full feature vector.
spec fn all_full(values: Seq<Data>) -> bool {
    forall|i: int| 0 <= i < values.len() ==> (#[trigger] values[i]).full()
}

/// Appends one example of class `kind` for each of `features`, in their order.
fn push_labeled(values: &mut Vec<Data>, kind: Kind, features: Vec<FeatureVector>)
    requires
        all_full(old(values)@),
    ensures
        examples(final(values)@) == examples(old(values)@) + labeled(kind, features@),
        all_full(final(values)@),
{
    let ghost before = values@;
    let ghost all = features@;
    for f in it: features
        invariant
            it.seq() == all,
            examples(values@) == examples(before) + labeled(kind, all.take(it.index() as int)),
            all_full(values@),
    {
        let ghost taken = all.take(it.index() as int);
        let ghost grown = all.take(it.index() + 1);
        let ghost earlier = values@;
        let data = Data::new(kind, f);
        proof {
            use_type_invariant(&data);
        }
        values.push(data);
        assert(examples(values@) =~= examples(earlier).push((kind, f@)));
        assert(labeled(kind, grown) =~= labeled(kind, taken).push((kind, f@)));
    }
    assert(all.take(all.len() as int) =~= all);
}

/// Data that all hold full feature vectors stand for well-formed examples.
proof fn lemma_all_full_is_well_formed(values: Seq<Data>)
    requires
        all_full(values),
    ensures
        well_formed(examples(values)),
{
    assert forall|i: int| 0 <= i < values.len() implies (#[trigger] examples(values)[i]).1.len()
        == INPUT_DIM by {
        assert(values[i].full());
        values[i].data.lemma_full_length();
    }
}

/// What holds of every item of one sequence holds of every item of another
/// that has the same items.
proof fn lemma_all_full_ignores_order(a: Seq<Data>, b: Seq<Data>)
    requires
        a.to_multiset() == b.to_multiset(),
        all_full(b),
    ensures
        all_full(a),
{
    broadcast use group_to_multiset_ensures;

    assert forall|i: int| 0 <= i < a.len() implies (#[trigger] a[i]).full() by {
        assert(a.contains(a[i]));
        assert(b.to_multiset().count(a[i]) > 0);
        assert(b.contains(a[i]));
        let j = choose|j: int| 0 <= j < b.len() && b[j] == a[i];
        assert(b[j].full());
    }
}

/// Why a dataset could not be built.
#[derive(Clone, Copy, Debug, PartialEq, Eq, Structural)]
pub enum DatasetError {
    /// One of the files gave no feature vector.
    Picture(FeatureError),
    /// The operating system gave no seed for the shuffle.
    NoEntropy,
}

/// Why the first of `files` that gives no feature vector gives none, if there
/// is such a file.
pub open spec fn first_failure(files: Seq<Vec<u8>>) -> Option<FeatureError>
    decreases files.len(),
{
    if files.len() == 0 {
        None
    } else {
        match first_failure(files.drop_last()) {
            Some(e) => Some(e),
            None => failure_of(files.last()@),
        }
    }
}

/// Whether `features` can be the feature vectors of the pictures that `files`
/// hold, one for each file and in the order of the files.
pub open spec fn extracted(features: Seq<FeatureVector>, files: Seq<Vec<u8>>) -> bool {
    &&& features.len() == files.len()
    &&& forall|i: int|
        0 <= i < files.len() ==> is_features_of((#[trigger] features[i])@, files[i]@)
}

/// In two runs of files, one after the other, the first file that gives no
/// feature vector is the first such file of the first run or, where that run
/// has none, the first such file of the second run.
pub proof fn lemma_first_failure_concat(first: Seq<Vec<u8>>, second: Seq<Vec<u8>>)
    ensures
        first_failure(first + second) == match first_failure(first) {
            Some(e) => Some(e),
            None => first_failure(second),
        },
    decreases second.len(),
{
    if second.len() == 0 {
        assert(first + second =~= first);
    } else {
        lemma_first_failure_concat(first, second.drop_last());
        assert((first + second).drop_last() =~= first + second.drop_last());
        assert((first + second).last() == second.last());
    }
}

/// The feature vectors of the pictures that `files` hold, in their order, or
/// the error of the first file that gives none.
fn extract_all(files: &Vec<Vec<u8>>) -> (r: Result<Vec<FeatureVector>, FeatureError>)
    ensures
        match r {
            Ok(features) => first_failure(files@) is None && extracted(features@, files@),
            Err(e) => first_failure(files@) == Some(e),
        },
{
    let mut features: Vec<FeatureVector> = Vec::new();
    let mut i: usize = 0;
    while i < files.len()
        invariant
            i <= files@.len(),
            first_failure(files@.take(i as int)) is None,
            extracted(features@, files@.take(i as int)),
        decreases files@.len() - i,
    {
        proof {
            let next = files@.take(i + 1);
            assert(next.drop_last() =~= files@.take(i as int));
            assert(next.last() == files@[i as int]);
        }
        match jpg_to_chw(&files[i]) {
            Ok(found) => features.push(found),
            Err(e) => {
                proof {
                    lemma_first_failure_concat(files@.take(i + 1), files@.skip(i + 1));
                    assert(files@.take(i + 1) + files@.skip(i + 1) =~= files@);
                }
                return Err(e);
            },
        }
        i += 1;
    }
    proof {
        assert(files@.take(i as int) =~= files@);
    }
    Ok(features)
}

/// The examples of both classes in one fixed order, shuffled once when the
/// dataset is built.
pub struct Dataset {
    values: Vec<Data>,
}

impl View for Dataset {
    type V = Seq<Example>;

    /// The examples in their stored order.
    closed spec fn view(&self) -> Seq<Example> {
        examples(self.values@)
    }
}

impl Dataset {
    #[verifier::type_invariant]
    spec fn full(self) -> bool {
        all_full(self.values@)
    }

    /// What every dataset built from `ants` and `bees` is: their examples in
    /// some order, none lost and none added.
    pub open spec fn holds(self, ants: Seq<FeatureVector>, bees: Seq<FeatureVector>) -> bool {
        self@.to_multiset() == (labeled(Kind::Ant, ants) + labeled(Kind::Bee, bees)).to_multiset()
    }

    /// The dataset of `ants` and `bees`, shuffled with the generator `rng`.
    fn shuffled(
        ants: Vec<FeatureVector>,
        bees: Vec<FeatureVector>,
        rng: &mut rand::rngs::StdRng,
    ) -> (d: Dataset)
        ensures
            d.holds(ants@, bees@),
            well_formed(d@),
            d@.len() == ants@.len() + bees@.len(),
            count_of(d@, Kind::Ant) == ants@.len(),
            count_of(d@, Kind::Bee) == bees@.len(),
    {
        let mut values: Vec<Data> = Vec::new();
        push_labeled(&mut values, Kind::Ant, ants);
        push_labeled(&mut values, Kind::Bee, bees);
        let ghost ordered = values@;
        assert(examples(ordered) =~= labeled(Kind::Ant, ants@) + labeled(Kind::Bee, bees@));
        shuffle(&mut values, rng);
        proof {
            lemma_all_full_ignores_order(values@, ordered);
            lemma_all_full_is_well_formed(values@);
        }
        let d = Dataset { values };
        proof {
            lemma_map_values_keeps_items(d.values@, ordered, |x: Data| x@);
            lemma_holds_counts(d, ants@, bees@);
        }
        d
    }

    /// The dataset of `ants` and `bees`, shuffled with a generator that the
    /// operating system seeds, so that no two runs need agree.
    pub fn from_features(ants: Vec<FeatureVector>, bees: Vec<FeatureVector>) -> (r: Result<
        Dataset,
        DatasetError,
    >)
        ensures
            match r {
                Ok(d) => {
                    &&& d.holds(ants@, bees@)
                    &&& well_formed(d@)
                    &&& d@.len() == ants@.len() + bees@.len()
                    &&& count_of(d@, Kind::Ant) == ants@.len()
                    &&& count_of(d@, Kind::Bee) == bees@.len()
                },
                Err(e) => e == DatasetError::NoEntropy,
            },
    {
        match os_seeded_rng() {
            Ok(mut rng) => Ok(Dataset::shuffled(ants, bees, &mut rng)),
            Err(_) => Err(DatasetError::NoEntropy),
        }
    }

    /// What every dataset built from the files of both classes is: the
    /// examples of some feature vectors of the pictures in `ants` and in
    /// `bees`, each with the class of its directory, in some order.
    pub open spec fn holds_files(self, ants: Seq<Vec<u8>>, bees: Seq<Vec<u8>>) -> bool {
        exists|a: Seq<FeatureVector>, b: Seq<FeatureVector>|
            extracted(a, ants) && extracted(b, bees) && #[trigger] self.holds(a, b)
    }

    /// The dataset of the pictures found under a dataset path, given as the
    /// contents of the files in its directory of ants and of those in its
    /// directory of bees (see [`Kind::dir_name`]). Each file is decoded,
    /// resampled and labelled, the ants before the bees, and then all are
    /// shuffled. The first file that gives no feature vector ends the work
    /// with its error, and no dataset is made of the others. Where every file
    /// gives one, only a missing seed for the shuffle keeps the dataset from
    /// being built.
    pub fn from_dataset_path(ants: &Vec<Vec<u8>>, bees: &Vec<Vec<u8>>) -> (r: Result<
        Dataset,
        DatasetError,
    >)
        ensures
            match r {
                Ok(d) => {
                    &&& first_failure(ants@ + bees@) is None
                    &&& d.holds_files(ants@, bees@)
                    &&& well_formed(d@)
                    &&& d@.len() == ants@.len() + bees@.len()
                    &&& count_of(d@, Kind::Ant) == ants@.len()
                    &&& count_of(d@, Kind::Bee) == bees@.len()
                },
                Err(DatasetError::Picture(e)) => first_failure(ants@ + bees@) == Some(e),
                Err(DatasetError::NoEntropy) => first_failure(ants@ + bees@) is None,
            },
    {
        proof {
            lemma_first_failure_concat(ants@, bees@);
        }
        let ant_features = match extract_all(ants) {
            Ok(features) => features,
            Err(e) => {
                return Err(DatasetError::Picture(e));
            },
        };
        let bee_features = match extract_all(bees) {
            Ok(features) => features,
            Err(e) => {
                return Err(DatasetError::Picture(e));
            },
        };
        let ghost a = ant_features@;
        let ghost b = bee_features@;
        match Dataset::from_features(ant_features, bee_features) {
            Ok(d) => {
                assert(extracted(a, ants@) && extracted(b, bees@) && d.holds(a, b));
                Ok(d)
            },
            Err(e) => Err(e),
        }
    }

    /// The dataset of `ants` and `bees`, shuffled with a generator made from
    /// `seed`.
    pub fn from_features_seeded(ants: Vec<FeatureVector>, bees: Vec<FeatureVector>, seed: u64) -> (d:
        Dataset)
        ensures
            d.holds(ants@, bees@),
            well_formed(d@),
            d@.len() == ants@.len() + bees@.len(),
            count_of(d@, Kind::Ant) == ants@.len(),
            count_of(d@, Kind::Bee) == bees@.len(),
    {
        let mut rng = seeded_rng(seed);
        Dataset::shuffled(ants, bees, &mut rng)
    }

    /// The examples in their stored order, each with as many levels as the
    /// classifier has inputs.
    pub fn get_values(&self) -> (v: &Vec<Data>)
        ensures
            examples(v@) == self@,
            well_formed(self@),
    {
        proof {
            use_type_invariant(self);
            lemma_all_full_is_well_formed(self.values@);
        }
        &self.values
    }

    pub fn len(&self) -> (n: usize)
        ensures
            n == self@.len(),
    {
        self.values.len()
    }
}

/// A dataset built from `n_a` pictures of ants and `n_b` pictures of bees has
/// `n_a + n_b` examples, `n_a` of them ants and `n_b` of them bees, whatever
/// order the shuffle gave them.
pub proof fn lemma_holds_counts(d: Dataset, ants: Seq<FeatureVector>, bees: Seq<FeatureVector>)
    requires
        d.holds(ants, bees),
    ensures
        d@.len() == ants.len() + bees.len(),
        count_of(d@, Kind::Ant) == ants.len(),
        count_of(d@, Kind::Bee) == bees.len(),
{
    let ordered = labeled(Kind::Ant, ants) + labeled(Kind::Bee, bees);
    lemma_count_of_ignores_order(d@, ordered, Kind::Ant);
    lemma_count_of_ignores_order(d@, ordered, Kind::Bee);
    lemma_count_of_concat(labeled(Kind::Ant, ants), labeled(Kind::Bee, bees), Kind::Ant);
    lemma_count_of_concat(labeled(Kind::Ant, ants), labeled(Kind::Bee, bees), Kind::Bee);
    lemma_count_of_labeled(Kind::Ant, ants, Kind::Ant);
    lemma_count_of_labeled(Kind::Ant, ants, Kind::Bee);
    lemma_count_of_labeled(Kind::Bee, bees, Kind::Ant);
    lemma_count_of_labeled(Kind::Bee, bees, Kind::Bee);
}

} // verus!
