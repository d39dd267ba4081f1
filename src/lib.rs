//! Case conversion for identifier-like strings: a string is split into words
//! at separators and at letter-case transitions, and the words are joined
//! again in a target style (PascalCase, camelCase, kebab-case, snake_case,
//! flatcase, Train-Case, Title Case).

pub mod text;
pub mod classify;
pub mod split;
pub mod convert;
pub mod greeting;

pub use classify::{CaseClass, classify_case, is_uppercase};
pub use convert::{
    camel_case, flat_case, join_words, kebab_case, lower_first, pascal_case, snake_case, title_case,
    train_case, upper_first,
};
pub use greeting::hello;
pub use split::{split_by_case, split_classified};
