pub mod char_indexing;
pub mod indexed_container;
pub mod performance_counter;
pub mod universe;
