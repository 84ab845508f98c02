//! The verified core of a classifier that tells pictures of ants from
//! pictures of bees.
//!
//! The classifier itself is a logistic regression in floating point and lives
//! with the program that trains it. This library holds what it stands on:
//!
//! - [`kind`]: the two classes, the training target of each, and the rule
//!   that turns a probability into a class;
//! - [`features`]: the way from the bytes of a picture file to a feature
//!   vector of fixed length;
//! - [`dataset`]: labelled examples, and the dataset that holds them in an
//!   order that is shuffled once;
//! - [`evaluation`]: accuracy, as a count of correct predictions;
//! - [`trainer`]: the schedule of epochs and progress reports.

pub mod dataset;
pub mod evaluation;
pub mod features;
pub mod kind;
pub mod trainer;
