//! The struct's own configuration, and the names of the flags made under it.

use crate::attribute::{merged, FlagCase, GFlagsAttribute, GFlagsAttributeView};
use crate::error::{Error, ErrorView};
use crate::schema::{block_views, AnnotationBlock, AnnotationBlockView};
use crate::text::{
    join, join_with, lemma_join_front, lemma_join_split_replaces, lemma_replaced_apart,
    lemma_same_front, lemma_split_nonempty, replaced, split, split_on, texts,
};
use vstd::prelude::*;
use vstd::string::*;

verus! {

/// What the annotation blocks of a struct settle for all of its flags.
#[derive(Clone, Debug, PartialEq, Eq)]
pub struct Config {
    /// Prefix for flag names; empty for none.
    pub prefix: String,
    /// How names are put together.
    pub flag_case: FlagCase,
}

pub struct ConfigView {
    pub prefix: Seq<char>,
    pub flag_case: FlagCase,
}

impl View for Config {
    type V = ConfigView;

    open spec fn view(&self) -> ConfigView {
        ConfigView { prefix: self.prefix@, flag_case: self.flag_case }
    }
}

impl ConfigView {
    /// No prefix, kebab case.
    pub open spec fn initial() -> ConfigView {
        ConfigView { prefix: Seq::<char>::empty(), flag_case: FlagCase::KebabCase }
    }

    /// The initial configuration with the prefix and the casing that
    /// `merged` sets put in place of its own.
    pub open spec fn from_merged(merged: GFlagsAttributeView) -> ConfigView {
        ConfigView {
            prefix: match merged.prefix {
                Some(prefix) => prefix,
                None => ConfigView::initial().prefix,
            },
            flag_case: match merged.flag_case {
                Some(case) => case,
                None => ConfigView::initial().flag_case,
            },
        }
    }
}

/// The configuration that the blocks attached to a struct give, or the
/// fault that they hold.
pub open spec fn struct_config(blocks: Seq<AnnotationBlockView>) -> Result<ConfigView, ErrorView> {
    match merged(blocks) {
        Err(fault) => Err(fault),
        Ok(merged) => Ok(ConfigView::from_merged(merged)),
    }
}

/// The segments of a kebab-case name: the prefix as one segment if there is
/// one, then the pieces of the field's name between underscores.
pub open spec fn name_segments(prefix: Seq<char>, field: Seq<char>) -> Seq<Seq<char>> {
    if prefix.len() > 0 {
        seq![prefix] + split(field, '_')
    } else {
        split(field, '_')
    }
}

/// The name of the flag for a field. In snake case the prefix, an
/// underscore and the field's name, or the field's name alone without a
/// prefix; in kebab case the segments joined by hyphens.
pub open spec fn flag_name(config: ConfigView, field: Seq<char>) -> Seq<char> {
    match config.flag_case {
        FlagCase::SnakeCase => if config.prefix.len() > 0 {
            config.prefix + seq!['_'] + field
        } else {
            field
        },
        FlagCase::KebabCase => join(name_segments(config.prefix, field), seq!['-']),
    }
}

/// In kebab case every underscore of the field's name becomes a hyphen and
/// nothing else changes; a prefix stands in front, followed by a hyphen.
pub proof fn lemma_kebab_replaces_underscores(prefix: Seq<char>, field: Seq<char>)
    ensures
        flag_name(ConfigView { prefix, flag_case: FlagCase::KebabCase }, field) == if prefix.len()
            > 0 {
            prefix + seq!['-'] + replaced(field, '_', '-')
        } else {
            replaced(field, '_', '-')
        },
{
    lemma_join_split_replaces(field, '_', '-');
    if prefix.len() > 0 {
        lemma_split_nonempty(field, '_');
        lemma_join_front(prefix, split(field, '_'), seq!['-']);
    }
}

/// Under one configuration, two fields with different names get different
/// flag names, as long as neither name holds a hyphen.
pub proof fn lemma_names_stay_apart(config: ConfigView, first: Seq<char>, second: Seq<char>)
    requires
        first != second,
        !first.contains('-'),
        !second.contains('-'),
    ensures
        flag_name(config, first) != flag_name(config, second),
{
    if flag_name(config, first) == flag_name(config, second) {
        match config.flag_case {
            FlagCase::SnakeCase => {
                if config.prefix.len() > 0 {
                    lemma_same_front(config.prefix + seq!['_'], first, second);
                }
            },
            FlagCase::KebabCase => {
                lemma_kebab_replaces_underscores(config.prefix, first);
                lemma_kebab_replaces_underscores(config.prefix, second);
                if config.prefix.len() > 0 {
                    lemma_same_front(
                        config.prefix + seq!['-'],
                        replaced(first, '_', '-'),
                        replaced(second, '_', '-'),
                    );
                }
                lemma_replaced_apart(first, second, '_', '-');
            },
        }
    }
}

impl Default for Config {
    fn default() -> (config: Config)
        ensures
            config@ == ConfigView::initial(),
    {
        Config { prefix: String::new(), flag_case: FlagCase::KebabCase }
    }
}

/// Reads the configuration of a struct from the blocks attached to it.
pub fn config_from_attributes(blocks: &Vec<AnnotationBlock>) -> (read: Result<Config, Error>)
    ensures
        match read {
            Ok(config) => struct_config(block_views(blocks@)) == Ok::<ConfigView, ErrorView>(
                config@,
            ),
            Err(fault) => struct_config(block_views(blocks@)) == Err::<ConfigView, ErrorView>(
                fault@,
            ),
        },
{
    let mut config = Config::default();
    let merged = match GFlagsAttribute::from_attributes(blocks) {
        Err(fault) => {
            return Err(fault);
        },
        Ok(merged) => merged,
    };
    match merged.prefix {
        Some(prefix) => {
            config.prefix = prefix;
        },
        None => {},
    }
    match merged.flag_case {
        Some(case) => {
            config.flag_case = case;
        },
        None => {},
    }
    Ok(config)
}

/// The name of the flag for the field called `field`.
pub fn resolve_name(config: &Config, field: &str) -> (name: String)
    ensures
        name@ == flag_name(config@, field@),
{
    match config.flag_case {
        FlagCase::SnakeCase => {
            if config.prefix.as_str().is_empty() {
                field.to_owned()
            } else {
                let mut name = config.prefix.clone();
                name.append("_");
                name.append(field);
                proof {
                    reveal_strlit("_");
                }
                name
            }
        },
        FlagCase::KebabCase => {
            let mut segments: Vec<String> = Vec::new();
            if !config.prefix.as_str().is_empty() {
                segments.push(config.prefix.clone());
            }
            let mut pieces = split_on(field, '_');
            segments.append(&mut pieces);
            proof {
                reveal_strlit("-");
                assert("-"@ =~= seq!['-']);
                assert(texts(segments@) =~= name_segments(config@.prefix, field@));
            }
            join_with(&segments, "-")
        },
    }
}

} // verus!
