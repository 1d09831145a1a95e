pub mod bounds;
pub mod budget;
pub mod notices;
pub mod phases;
pub mod sampling;
pub mod suppress;
