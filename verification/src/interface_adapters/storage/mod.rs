pub mod word_unit;
pub mod word_mapper;
