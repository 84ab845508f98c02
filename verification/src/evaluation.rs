//! Counting how often predictions agree with the true classes.
//!
//! Accuracy is the fraction `correct / total`. It is kept as its two integers:
//! it is exactly 1 where they are equal and exactly 0 where `correct` is 0.
//! The predictions themselves come from the classifier, which computes in
//! floating point and is no part of this library.

use crate::dataset::labels;
use crate::dataset::Dataset;
use crate::kind::Kind;
use vstd::prelude::*;

verus! {

/// In how many places two runs of classes of one length hold the same class.
pub open spec fn agreements(predicted: Seq<Kind>, truth: Seq<Kind>) -> nat
    decreases predicted.len(),
{
    if predicted.len() == 0 || truth.len() != predicted.len() {
        0
    } else {
        agreements(predicted.drop_last(), truth.drop_last()) + if predicted.last()
            == truth.last() {
            1nat
        } else {
            0nat
        }
    }
}

/// Why predictions could not be evaluated.
#[derive(Clone, Copy, Debug, PartialEq, Eq, Structural)]
pub enum EvaluationError {
    /// The dataset has no example, so the fraction would have no denominator.
    EmptyDataset,
    /// There is not one prediction for each example.
    LengthMismatch,
}

/// How many of the examples of a dataset were predicted correctly.
pub struct Accuracy {
    correct: usize,
    total: usize,
}

impl Accuracy {
    #[verifier::type_invariant]
    spec fn sound(self) -> bool {
        self.correct <= self.total && 0 < self.total
    }

    pub closed spec fn spec_correct(self) -> nat {
        self.correct as nat
    }

    pub closed spec fn spec_total(self) -> nat {
        self.total as nat
    }

    /// The number of correct predictions, which is never more than the total.
    pub fn correct(&self) -> (n: usize)
        ensures
            n == self.spec_correct(),
            n <= self.spec_total(),
    {
        proof {
            use_type_invariant(self);
        }
        self.correct
    }

    /// The number of examples, which is never 0.
    pub fn total(&self) -> (n: usize)
        ensures
            n == self.spec_total(),
            n > 0,
    {
        proof {
            use_type_invariant(self);
        }
        self.total
    }
}

/// Two runs of one length agree in no more places than they have. They agree
/// in all of them exactly where the runs are equal place by place, and in none
/// exactly where they differ in every place.
pub proof fn lemma_agreements_extremes(predicted: Seq<Kind>, truth: Seq<Kind>)
    requires
        predicted.len() == truth.len(),
    ensures
        agreements(predicted, truth) <= predicted.len(),
        agreements(predicted, truth) == predicted.len() <==> forall|i: int|
            0 <= i < predicted.len() ==> predicted[i] == truth[i],
        agreements(predicted, truth) == 0 <==> forall|i: int|
            0 <= i < predicted.len() ==> predicted[i] != truth[i],
    decreases predicted.len(),
{
    if predicted.len() > 0 {
        let p = predicted.drop_last();
        let t = truth.drop_last();
        lemma_agreements_extremes(p, t);
        if agreements(predicted, truth) == predicted.len() {
            assert forall|i: int| 0 <= i < predicted.len() implies predicted[i] == truth[i] by {
                if i < p.len() {
                    assert(p[i] == t[i]);
                }
            }
        }
        if agreements(predicted, truth) == 0 {
            assert forall|i: int| 0 <= i < predicted.len() implies predicted[i] != truth[i] by {
                if i < p.len() {
                    assert(p[i] != t[i]);
                }
            }
        }
    }
}

/// Evaluates one prediction per example of `dataset`, in its stored order: the
/// number of examples, and the number of them whose prediction is their class.
/// The two are equal exactly where every prediction is right, and the second is
/// 0 exactly where every prediction is wrong. A dataset without examples has
/// no accuracy, nor has one with more or fewer predictions than examples.
pub fn evaluate(predicted: &Vec<Kind>, dataset: &Dataset) -> (r: Result<Accuracy, EvaluationError>)
    ensures
        match r {
            Ok(accuracy) => {
                &&& dataset@.len() != 0
                &&& predicted@.len() == dataset@.len()
                &&& accuracy.spec_total() == dataset@.len()
                &&& accuracy.spec_correct() == agreements(predicted@, labels(dataset@))
                &&& accuracy.spec_correct() == accuracy.spec_total() <==> predicted@ == labels(
                    dataset@,
                )
                &&& accuracy.spec_correct() == 0 <==> forall|i: int|
                    0 <= i < predicted@.len() ==> predicted@[i] != labels(dataset@)[i]
            },
            Err(EvaluationError::EmptyDataset) => dataset@.len() == 0,
            Err(EvaluationError::LengthMismatch) => dataset@.len() != 0 && predicted@.len()
                != dataset@.len(),
        },
{
    let values = dataset.get_values();
    let total = values.len();
    if total == 0 {
        return Err(EvaluationError::EmptyDataset);
    }
    if predicted.len() != total {
        return Err(EvaluationError::LengthMismatch);
    }
    let ghost truth = labels(dataset@);
    let mut correct: usize = 0;
    let mut i: usize = 0;
    while i < total
        invariant
            i <= total,
            total == values@.len(),
            predicted@.len() == total,
            truth == labels(crate::dataset::examples(values@)),
            correct == agreements(predicted@.take(i as int), truth.take(i as int)),
            correct <= i,
        decreases total - i,
    {
        proof {
            let p = predicted@.take(i + 1);
            let t = truth.take(i + 1);
            assert(p.drop_last() =~= predicted@.take(i as int));
            assert(t.drop_last() =~= truth.take(i as int));
        }
        if predicted[i] == values[i].get_kind() {
            correct += 1;
        }
        i += 1;
    }
    proof {
        assert(predicted@.take(total as int) =~= predicted@);
        assert(truth.take(total as int) =~= truth);
        lemma_agreements_extremes(predicted@, truth);
        if correct == total {
            assert(predicted@ =~= truth);
        }
    }
    Ok(Accuracy { correct, total })
}

} // verus!
