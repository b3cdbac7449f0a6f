pub mod word_interactor;
