//! A small wikitext template-expansion engine: rewrites embedded
//! `{{template|arg1|arg2|...}}` markup into human-readable text by repeated
//! innermost-first substitution, with a hand-curated vocabulary of template
//! names and a recursive parser for geographic place markup.

pub mod expand;
pub mod place;
pub mod template;
pub mod text;
