//! The generic flavour of the derives: request methods are generic over
//! `T: diorama::UrlParams`, a request's settings are a method and a parser,
//! and `make_path` implements `diorama::UrlParams`.
pub mod impl_diorama;
pub mod impl_urlparams;

pub use self::impl_diorama::{impl_struct, impl_struct_abort, impl_struct_run};
pub use self::impl_urlparams::{impl_make_path, impl_make_path_abort, impl_make_path_run};
