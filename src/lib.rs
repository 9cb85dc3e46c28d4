//! Japanese text normalisation and rule-based deinflection for dictionary lookup.

pub mod chars;
pub mod conditions;
pub mod rules;
pub mod deinflect;
pub mod japanese;
pub mod normalize;
pub mod text_processors;
pub mod romaji;
pub mod text_preprocessors;
pub mod processor;
