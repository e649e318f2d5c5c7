//! A grading engine: weighted pass/fail criteria evaluated against submitted data.
//!
//! A rubric description becomes a set of criteria; a submission is graded by running every
//! criterion's check on the submission's data, in order, adding the worth of each one that
//! passes and recording an entry for each outcome.

pub mod criteria;
pub mod criterion;
pub mod data;
pub mod error;
pub mod predicate;
pub mod rubric;
pub mod submission;
pub mod text;

pub use criteria::Criteria;
pub use criterion::Criterion;
pub use data::TestData;
pub use error::ConfigError;
pub use predicate::{Predicate, Registry};
pub use rubric::{CriterionYaml, RubricYaml};
pub use submission::Submission;
