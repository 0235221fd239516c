//! Choosing the type of a flag from the declared type of its field.

use crate::schema::{
    GenericArgument, GenericArgumentView, PathArguments, PathArgumentsView, PathSegment,
    PathSegmentView, Type, TypePath, TypePathView, TypeView,
};
use crate::text::{text_eq, text_of};
use vstd::prelude::*;
use vstd::string::*;

verus! {

/// The names of the segments of a path.
pub open spec fn segment_idents(segments: Seq<PathSegmentView>) -> Seq<Seq<char>> {
    segments.map_values(|segment: PathSegmentView| segment.ident)
}

/// Whether the names of a path are one of the three ways to write the
/// optional wrapper: `Option`, `std::option::Option`, `core::option::Option`.
pub open spec fn names_option(idents: Seq<Seq<char>>) -> bool {
    ||| idents == seq!["Option"@]
    ||| idents == seq!["std"@, "option"@, "Option"@]
    ||| idents == seq!["core"@, "option"@, "Option"@]
}

/// The type that an optional wrapper wraps: the first argument in angle
/// brackets of the last segment, where the type is a path without qualified
/// self that names the wrapper and that argument is a type.
pub open spec fn option_argument(ty: TypeView) -> Option<TypeView> {
    match ty {
        TypeView::Path(path) => if !path.qself && names_option(segment_idents(path.segments)) {
            match path.segments.last().arguments {
                PathArgumentsView::AngleBracketed(arguments) => if arguments.len() > 0 {
                    match arguments[0] {
                        GenericArgumentView::Type(inner) => Some(inner),
                        GenericArgumentView::Other => None,
                    }
                } else {
                    None
                },
                _ => None,
            }
        } else {
            None
        },
        TypeView::Other => None,
    }
}

/// The flag type for a named type: a borrowed string slice where the last
/// segment is `String`, else the type as it was written. A path without
/// segments names no type.
pub open spec fn named_type(path: TypePathView) -> Option<Seq<char>> {
    if path.segments.len() == 0 {
        None
    } else if path.segments.last().ident == "String"@ {
        Some("&str"@)
    } else {
        Some(path.tokens)
    }
}

/// The flag type for a declared type, if it has one. A type whose last
/// segment is `Option` stands for what it wraps, one level deep; it has no
/// flag type unless it wraps a named type.
pub open spec fn declared_flag_type(declared: TypeView) -> Option<Seq<char>> {
    match declared {
        TypeView::Other => None,
        TypeView::Path(path) => if path.segments.len() == 0 {
            None
        } else if path.segments.last().ident == "Option"@ {
            match option_argument(declared) {
                Some(TypeView::Path(inner)) => named_type(inner),
                _ => None,
            }
        } else {
            named_type(path)
        },
    }
}

/// The type of a flag: the override as it stands where there is one, else
/// the flag type for the declared type.
pub open spec fn resolved_type(declared: TypeView, replacement: Option<Seq<char>>) -> Option<
    Seq<char>,
> {
    match replacement {
        Some(ty) => Some(ty),
        None => declared_flag_type(declared),
    }
}

/// An optional wrapper around a named type gets the flag type of the type
/// it wraps: a string slice for `String`, else the wrapped type as written.
pub proof fn lemma_option_stands_for_what_it_wraps(declared: TypeView, inner: TypePathView)
    requires
        option_argument(declared) == Some(TypeView::Path(inner)),
    ensures
        declared_flag_type(declared) == named_type(inner),
{
    let idents = segment_idents(declared->Path_0.segments);
    assert(idents.last() == declared->Path_0.segments.last().ident);
}

/// Whether the segments of a path name the optional wrapper.
pub fn is_option_path(segments: &Vec<PathSegment>) -> (yes: bool)
    ensures
        yes == names_option(
            Seq::new(segments@.len(), |i: int| segments@[i].ident@),
        ),
{
    let ghost idents = Seq::new(segments@.len(), |i: int| segments@[i].ident@);
    if segments.len() == 1 {
        let yes = text_eq(segments[0].ident.as_str(), "Option");
        proof {
            if yes {
                assert(idents =~= seq!["Option"@]);
            } else {
                assert(seq!["Option"@][0] == "Option"@);
            }
        }
        yes
    } else if segments.len() == 3 {
        let root = text_eq(segments[0].ident.as_str(), "std") || text_eq(
            segments[0].ident.as_str(),
            "core",
        );
        let yes = root && text_eq(segments[1].ident.as_str(), "option") && text_eq(
            segments[2].ident.as_str(),
            "Option",
        );
        proof {
            let std = seq!["std"@, "option"@, "Option"@];
            let core = seq!["core"@, "option"@, "Option"@];
            assert(seq!["Option"@].len() == 1);
            if yes {
                if idents[0] == "std"@ {
                    assert(idents =~= std);
                } else {
                    assert(idents =~= core);
                }
            }
        }
        yes
    } else {
        false
    }
}

/// The type that an optional wrapper wraps, as `option_argument` describes.
pub fn extract_type_from_option(ty: &Type) -> (inner: Option<&Type>)
    ensures
        match inner {
            Some(inner) => option_argument(ty@) == Some(inner@),
            None => option_argument(ty@) is None,
        },
{
    match ty {
        Type::Other => None,
        Type::Path(path) => {
            assert(segment_idents(path@.segments) =~= Seq::new(
                path.segments@.len(),
                |i: int| path.segments@[i].ident@,
            ));
            if path.qself || !is_option_path(&path.segments) {
                return None;
            }
            let last = &path.segments[path.segments.len() - 1];
            match &last.arguments {
                PathArguments::AngleBracketed(arguments) => {
                    if arguments.len() == 0 {
                        return None;
                    }
                    match &arguments[0] {
                        GenericArgument::Type(inner) => Some(inner),
                        GenericArgument::Other => None,
                    }
                },
                _ => None,
            }
        },
    }
}

/// The flag type for a named type, as `named_type` describes.
pub fn flag_type_of_path(path: &TypePath) -> (ty: Option<String>)
    ensures
        text_of(ty) == named_type(path@),
{
    if path.segments.len() == 0 {
        return None;
    }
    let last = &path.segments[path.segments.len() - 1];
    if text_eq(last.ident.as_str(), "String") {
        Some("&str".to_owned())
    } else {
        Some(path.tokens.clone())
    }
}

/// The flag type for a declared type, as `declared_flag_type` describes.
pub fn flag_type(declared: &Type) -> (ty: Option<String>)
    ensures
        text_of(ty) == declared_flag_type(declared@),
{
    match declared {
        Type::Other => None,
        Type::Path(path) => {
            if path.segments.len() == 0 {
                return None;
            }
            let last = &path.segments[path.segments.len() - 1];
            if text_eq(last.ident.as_str(), "Option") {
                match extract_type_from_option(declared) {
                    Some(Type::Path(inner)) => flag_type_of_path(inner),
                    _ => None,
                }
            } else {
                flag_type_of_path(path)
            }
        },
    }
}

/// The type of a flag, as `resolved_type` describes.
pub fn resolve_type(declared: &Type, replacement: &Option<String>) -> (ty: Option<String>)
    ensures
        text_of(ty) == resolved_type(declared@, text_of(*replacement)),
{
    match replacement {
        Some(ty) => Some(ty.clone()),
        None => flag_type(declared),
    }
}

} // verus!
