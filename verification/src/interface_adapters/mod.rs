pub mod controllers;
pub mod presenters;
pub mod storage;
