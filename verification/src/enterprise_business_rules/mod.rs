pub mod word;
