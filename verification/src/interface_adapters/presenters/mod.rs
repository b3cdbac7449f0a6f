pub mod word_presenter;
