//! Command-line flag definitions derived from the description of a struct.
//!
//! A struct is described by an [`Item`]: its fields with their types and
//! documentation, and the annotation blocks written on the struct and on
//! its fields. [`gflags_derive`] turns the description into one
//! [`FlagDefinition`] for every field that is not skipped, or into the
//! first fault that the description holds.

use crate::derive::{expansion, impl_gflags_macro};
use crate::error::{Error, ErrorView};
use crate::flag::{flag_views, FlagDefinition, FlagDefinitionView};
use crate::schema::Item;
use vstd::prelude::*;

pub mod attribute;
pub mod derive;
pub mod error;
pub mod flag;
pub mod key;
pub mod merging;
pub mod naming;
pub mod schema;
pub mod text;
pub mod types;

verus! {

/// The flags derived from `input`: one for each field without `skip`, in
/// the order of the fields, or the first fault and no flag.
pub fn gflags_derive(input: &Item) -> (generated: Result<Vec<FlagDefinition>, Error>)
    ensures
        match generated {
            Ok(flags) => expansion(input@) == Ok::<Seq<FlagDefinitionView>, ErrorView>(
                flag_views(flags@),
            ),
            Err(fault) => expansion(input@) == Err::<Seq<FlagDefinitionView>, ErrorView>(fault@),
        },
{
    impl_gflags_macro(input)
}

} // verus!
