pub mod chat;
pub mod compound;
pub mod endian;
pub mod items;
pub mod numbers;
pub mod primitives;
pub mod recipe;
pub mod sequences;
pub mod text;
pub mod traits;
pub mod twos;
pub mod varint;
