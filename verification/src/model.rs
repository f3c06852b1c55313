//! Value types of the Misskey data model.

pub mod text;
pub mod aidx;
pub mod invite_code;
pub mod note;
pub mod file;
