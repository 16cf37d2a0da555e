//! The classifier and the assembly of what is emitted.

use vstd::prelude::*;
use crate::config::{ConfigError, ConfigView, HijektArgs, HijektConfig, MetaItem, is_simple, parsed};
use crate::function::{FnDecl, function_emitted, handle_function, hook_names};
use crate::structs::{Field, StructDecl, struct_emitted, handle_struct};
use crate::tree::Stmt;

verus! {

/// The declaration that an attribute stands on.
#[derive(Debug, PartialEq, Eq)]
pub enum Declaration {
    Function(FnDecl),
    Struct(StructDecl),
    /// Any other kind of declaration; the handle is the caller's.
    Other(usize),
}

/// What is emitted for one declaration.
#[derive(Debug, PartialEq, Eq)]
#[allow(inconsistent_fields)]
pub enum Emission {
    /// The declaration as it was given, compiled only while the feature is
    /// active; nothing is compiled while it is not.
    Gated { feature: String, item: Declaration },
    /// Two functions of one signature: one with the transformed `body`,
    /// compiled while the feature is active, and `original`, compiled while
    /// it is not.
    Function { feature: String, body: Vec<Stmt>, original: FnDecl },
    /// Two structs of one name: one with the transformed `fields`, compiled
    /// while the feature is active, and `original`, compiled while it is not.
    Struct { feature: String, fields: Vec<Field>, original: StructDecl },
}

/// The declaration that is compiled while the feature is inactive, if any.
pub open spec fn fallback(e: Emission) -> Option<Declaration> {
    match e {
        Emission::Gated { .. } => None,
        Emission::Function { original, .. } => Some(Declaration::Function(original)),
        Emission::Struct { original, .. } => Some(Declaration::Struct(original)),
    }
}

/// Whether `r` gates `input`, unchanged, by the feature of `c`.
pub open spec fn gated(c: ConfigView, input: Declaration, r: Result<Emission, ConfigError>) -> bool {
    r matches Ok(Emission::Gated { feature, item }) && feature@ == c.feat && item == input
}

/// Whether `r` is what is owed for `input` under `c`, whatever the parser
/// says of the names and types in `c`. A configuration that sets only the
/// feature gates the declaration. Any other one transforms a function or a
/// struct, and gates a declaration of another kind.
pub open spec fn emitted(c: ConfigView, input: Declaration, r: Result<Emission, ConfigError>) -> bool {
    if is_simple(c) {
        gated(c, input, r)
    } else {
        match input {
            Declaration::Function(f) => function_emitted(c, f, r),
            Declaration::Struct(s) => r matches Ok(e) && struct_emitted(c, s, e),
            Declaration::Other(_) => gated(c, input, r),
        }
    }
}

/// Chooses the transformer for a declaration and assembles what is emitted.
/// Under a configuration that sets only the feature, the declaration is
/// emitted as it was given, with no second variant. Under any other one, a
/// function or a struct that is transformed has the declaration as it was
/// given for its second variant; a struct always is.
pub fn transform(config: HijektConfig, input: Declaration) -> (r: Result<Emission, ConfigError>)
    ensures
        emitted(config@, input, r),
        is_simple(config@) ==> (r matches Ok(Emission::Gated { item, .. }) && item == input),
        !is_simple(config@) && !(input is Other) && r is Ok ==> fallback(r->Ok_0) == Some(input),
        !is_simple(config@) && input is Struct ==> r is Ok,
        input is Function && hook_names(config@).len() == 0 ==> r is Ok,
{
    if config.is_simple_feature_only() {
        return Ok(Emission::Gated { feature: config.feature_flag(), item: input });
    }
    match input {
        Declaration::Function(f) => handle_function(config, f),
        Declaration::Struct(s) => Ok(handle_struct(config, s)),
        Declaration::Other(h) => Ok(
            Emission::Gated { feature: config.feature_flag(), item: Declaration::Other(h) },
        ),
    }
}

/// Reads the argument list and transforms the declaration under it.
pub fn hijekt(args: &Vec<MetaItem>, input: Declaration) -> (r: Result<Emission, ConfigError>)
    ensures
        match parsed(args@) {
            Err(e) => r == Err::<Emission, ConfigError>(e),
            Ok(c) => {
                &&& emitted(c, input, r)
                &&& is_simple(c) ==> (r matches Ok(Emission::Gated { item, .. }) && item == input)
                &&& !is_simple(c) && !(input is Other) && r is Ok ==> fallback(r->Ok_0) == Some(
                    input,
                )
                &&& !is_simple(c) && input is Struct ==> r is Ok
                &&& input is Function && hook_names(c).len() == 0 ==> r is Ok
            },
        },
{
    match HijektArgs::parse(args) {
        Err(e) => Err(e),
        Ok(parsed_args) => transform(parsed_args.config, input),
    }
}

} // verus!
