pub mod word;
pub mod feedback;
pub mod solver;
pub mod laws;
pub mod controls;
pub mod corpus;
pub mod board;
