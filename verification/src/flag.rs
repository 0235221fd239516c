//! The definition of one flag, made from one field.

use crate::attribute::{merged, GFlagsAttribute};
use crate::error::{Error, ErrorView};
use crate::merging::lemma_set_texts_are_not_empty;
use crate::naming::{flag_name, resolve_name, Config, ConfigView};
use crate::schema::{literal_view, FieldSchema, FieldSchemaView, Literal, LiteralView};
use crate::text::{text_of, texts};
use crate::types::{resolve_type, resolved_type};
use vstd::prelude::*;
use vstd::string::*;

verus! {

/// What is registered for one flag.
#[derive(Clone, Debug, PartialEq, Eq)]
pub struct FlagDefinition {
    /// The name under which the flag is given on the command line.
    pub name: String,
    /// The type of the flag's value.
    pub value_type: String,
    /// The value of the flag when the command line does not set it.
    pub default_expr: Option<Literal>,
    /// The placeholder shown for the flag's value in help output.
    pub placeholder: Option<String>,
    /// The visibility of the flag where one was asked for; without one the
    /// flag is visible as an item without a visibility is.
    pub visibility: Option<String>,
    /// The help text, line by line.
    pub doc_lines: Vec<String>,
}

pub struct FlagDefinitionView {
    pub name: Seq<char>,
    pub value_type: Seq<char>,
    pub default_expr: Option<LiteralView>,
    pub placeholder: Option<Seq<char>>,
    pub visibility: Option<Seq<char>>,
    pub doc_lines: Seq<Seq<char>>,
}

impl View for FlagDefinition {
    type V = FlagDefinitionView;

    open spec fn view(&self) -> FlagDefinitionView {
        FlagDefinitionView {
            name: self.name@,
            value_type: self.value_type@,
            default_expr: literal_view(self.default_expr),
            placeholder: text_of(self.placeholder),
            visibility: text_of(self.visibility),
            doc_lines: texts(self.doc_lines@),
        }
    }
}

/// The views of a sequence of flags.
pub open spec fn flag_views(flags: Seq<FlagDefinition>) -> Seq<FlagDefinitionView> {
    flags.map_values(|flag: FlagDefinition| flag@)
}

/// A placeholder between angle brackets, as help output shows it.
pub open spec fn bracketed(placeholder: Seq<char>) -> Seq<char> {
    seq!['<'] + placeholder + seq!['>']
}

/// What one field gives: a fault if its blocks hold one; nothing if they
/// set `skip`, whatever else they set and whatever the field's type is; a
/// fault if it has no flag type; else its flag, with the field's
/// documentation as it stands.
pub open spec fn field_flag(config: ConfigView, field: FieldSchemaView) -> Result<
    Option<FlagDefinitionView>,
    ErrorView,
> {
    match merged(field.blocks) {
        Err(fault) => Err(fault),
        Ok(own) => if own.skip {
            Ok(None)
        } else {
            match resolved_type(field.ty, own.ty) {
                None => Err(ErrorView::UnsupportedType(field.name)),
                Some(ty) => Ok(
                    Some(
                        FlagDefinitionView {
                            name: flag_name(config, field.name),
                            value_type: ty,
                            default_expr: own.default,
                            placeholder: own.placeholder,
                            visibility: own.visibility,
                            doc_lines: field.docs,
                        },
                    ),
                ),
            }
        },
    }
}

/// A flag's placeholder and visibility, where it has them, are never the
/// empty text, and its type is not where an annotation gave it.
pub proof fn lemma_flag_texts_are_not_empty(config: ConfigView, field: FieldSchemaView)
    requires
        field_flag(config, field) matches Ok(Some(_)),
    ensures
        ({
            let flag = field_flag(config, field)->Ok_0->Some_0;
            &&& flag.placeholder matches Some(text) ==> text.len() > 0
            &&& flag.visibility matches Some(text) ==> text.len() > 0
            &&& merged(field.blocks)->Ok_0.ty is Some ==> flag.value_type.len() > 0
        }),
{
    lemma_set_texts_are_not_empty(field.blocks);
}

/// A copy of a list of lines.
pub fn copy_lines(lines: &Vec<String>) -> (copy: Vec<String>)
    ensures
        texts(copy@) == texts(lines@),
{
    let mut copy: Vec<String> = Vec::new();
    let mut i: usize = 0;
    while i < lines.len()
        invariant
            i <= lines.len(),
            texts(copy@) == texts(lines@).take(i as int),
        decreases lines.len() - i,
    {
        copy.push(lines[i].clone());
        assert(texts(lines@).take(i + 1) =~= texts(lines@).take(i as int).push(lines@[i as int]@));
        i += 1;
    }
    copy
}

impl FlagDefinition {
    /// The placeholder as help output shows it, between angle brackets.
    pub fn placeholder_display(&self) -> (shown: Option<String>)
        ensures
            match self@.placeholder {
                Some(placeholder) => text_of(shown) == Some(bracketed(placeholder)),
                None => shown is None,
            },
    {
        match &self.placeholder {
            None => None,
            Some(placeholder) => {
                let mut shown = "<".to_owned();
                shown.append(placeholder.as_str());
                shown.append(">");
                proof {
                    reveal_strlit("<");
                    reveal_strlit(">");
                }
                Some(shown)
            },
        }
    }
}

/// Makes the flag of one field, as `field_flag` describes.
pub fn flag_from_field(config: &Config, field: &FieldSchema) -> (made: Result<
    Option<FlagDefinition>,
    Error,
>)
    ensures
        match made {
            Ok(Some(flag)) => field_flag(config@, field@) == Ok::<
                Option<FlagDefinitionView>,
                ErrorView,
            >(Some(flag@)),
            Ok(None) => field_flag(config@, field@) == Ok::<
                Option<FlagDefinitionView>,
                ErrorView,
            >(None),
            Err(fault) => field_flag(config@, field@) == Err::<
                Option<FlagDefinitionView>,
                ErrorView,
            >(fault@),
        },
{
    let own = match GFlagsAttribute::from_attributes(&field.blocks) {
        Err(fault) => {
            return Err(fault);
        },
        Ok(own) => own,
    };
    if own.skip {
        return Ok(None);
    }
    let name = resolve_name(config, field.name.as_str());
    let value_type = match resolve_type(&field.ty, &own.ty) {
        None => {
            return Err(Error::UnsupportedType(field.name.clone()));
        },
        Some(ty) => ty,
    };
    Ok(
        Some(
            FlagDefinition {
                name,
                value_type,
                default_expr: own.default,
                placeholder: own.placeholder,
                visibility: own.visibility,
                doc_lines: copy_lines(&field.docs),
            },
        ),
    )
}

} // verus!
