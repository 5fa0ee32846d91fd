pub mod text;
pub mod layout;
pub mod inset;
pub mod special;
pub mod paragraph;
pub mod document;
pub mod converter;
