//! Small exercises with verified contracts: match results, vectors,
//! statistics, pig latin, an employee registry, a guessing game and line search.

pub mod employees;
pub mod football;
pub mod grep;
pub mod guessing;
pub mod pig_latin;
pub mod statistics;
pub mod text;
pub mod vectors;
