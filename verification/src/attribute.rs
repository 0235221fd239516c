//! Reading annotation blocks and merging them into the effective
//! configuration of the struct or field they are attached to.

use crate::error::{Error, ErrorView};
use crate::key::{keyword, keyword_of, Key};
use crate::schema::{
    block_views, literal_view, AnnotationBlock, AnnotationBlockView, AnnotationEntry,
    AnnotationEntryView, Literal, LiteralView,
};
use crate::text::{chars_of, text_eq, text_of};
use vstd::prelude::*;
use vstd::string::*;

verus! {

/// How a prefix and the parts of a field's name are put together.
#[derive(Clone, Copy, Debug, PartialEq, Eq, Structural)]
pub enum FlagCase {
    /// `log_to_stderr`
    SnakeCase,
    /// `log-to-stderr`
    KebabCase,
}

/// The tag under which annotation blocks are read; blocks under any other
/// tag are passed over.
pub open spec fn namespace() -> Seq<char> {
    "gflags"@
}

/// The casing that a written prefix asks for by its last character: snake
/// case for `_`, kebab case for `-`, none for any other and for the empty
/// prefix.
pub open spec fn prefix_case(written: Seq<char>) -> Option<FlagCase> {
    if written.len() > 0 && written.last() == '_' {
        Some(FlagCase::SnakeCase)
    } else if written.len() > 0 && written.last() == '-' {
        Some(FlagCase::KebabCase)
    } else {
        None
    }
}

/// The prefix that is kept for a written prefix: without its last character
/// where that character asks for a casing, and as written where it does
/// not. Only that one character is taken off.
pub open spec fn prefix_stem(written: Seq<char>) -> Seq<char> {
    if prefix_case(written) is Some {
        written.drop_last()
    } else {
        written
    }
}

/// The text of a value that must be a non-empty quoted string, or the fault
/// of a value that is none.
pub open spec fn string_value(key: Key, value: Option<LiteralView>) -> Result<
    Seq<char>,
    ErrorView,
> {
    match value {
        None => Err(ErrorView::KeywordRequiresValue(key)),
        Some(LiteralView::Other(_)) => Err(ErrorView::ExpectedStringLiteral(key)),
        Some(LiteralView::Str(text)) => if text.len() == 0 {
            Err(ErrorView::EmptyValue(key))
        } else {
            Ok(text)
        },
    }
}

/// What is wrong with one entry, if anything is.
pub open spec fn entry_fault(entry: AnnotationEntryView) -> Option<ErrorView> {
    match keyword(entry.key) {
        None => Some(ErrorView::UnknownKey(entry.key)),
        Some(Key::Skip) => if entry.value is Some {
            Some(ErrorView::SkipTakesValue)
        } else {
            None
        },
        Some(Key::Default) => if entry.value is None {
            Some(ErrorView::KeywordRequiresValue(Key::Default))
        } else {
            None
        },
        Some(key) => match string_value(key, entry.value) {
            Err(fault) => Some(fault),
            Ok(_) => None,
        },
    }
}

/// The fault of the first faulty entry, if there is one.
pub open spec fn first_fault(entries: Seq<AnnotationEntryView>) -> Option<ErrorView>
    decreases entries.len(),
{
    if entries.len() == 0 {
        None
    } else {
        match first_fault(entries.drop_last()) {
            Some(fault) => Some(fault),
            None => entry_fault(entries.last()),
        }
    }
}

/// The configuration that annotation blocks give to one struct or field.
#[derive(Clone, Debug, PartialEq, Eq)]
pub struct GFlagsAttribute {
    /// No flag is generated for the field.
    pub skip: bool,
    /// Prefix for flag names, without the last character where it chose the
    /// casing.
    pub prefix: Option<String>,
    /// Casing chosen by the last character of a prefix.
    pub flag_case: Option<FlagCase>,
    /// Type to use for the flag in place of the field's own.
    pub ty: Option<String>,
    /// Visibility of the flag.
    pub visibility: Option<String>,
    /// Placeholder shown for the flag's value in help output.
    pub placeholder: Option<String>,
    /// Value of the flag when the command line does not set it.
    pub default: Option<Literal>,
}

pub struct GFlagsAttributeView {
    pub skip: bool,
    pub prefix: Option<Seq<char>>,
    pub flag_case: Option<FlagCase>,
    pub ty: Option<Seq<char>>,
    pub visibility: Option<Seq<char>>,
    pub placeholder: Option<Seq<char>>,
    pub default: Option<LiteralView>,
}

impl View for GFlagsAttribute {
    type V = GFlagsAttributeView;

    open spec fn view(&self) -> GFlagsAttributeView {
        GFlagsAttributeView {
            skip: self.skip,
            prefix: text_of(self.prefix),
            flag_case: self.flag_case,
            ty: text_of(self.ty),
            visibility: text_of(self.visibility),
            placeholder: text_of(self.placeholder),
            default: literal_view(self.default),
        }
    }
}

/// `later` if it is set, else `earlier`.
pub open spec fn latest<T>(earlier: Option<T>, later: Option<T>) -> Option<T> {
    if later is Some {
        later
    } else {
        earlier
    }
}

impl GFlagsAttributeView {
    /// The configuration in which nothing is set.
    pub open spec fn unset() -> GFlagsAttributeView {
        GFlagsAttributeView {
            skip: false,
            prefix: None,
            flag_case: None,
            ty: None,
            visibility: None,
            placeholder: None,
            default: None,
        }
    }

    /// This configuration after a faultless entry: `skip` sets the flag for
    /// good, any other key replaces what was set for it before.
    pub open spec fn with_entry(self, entry: AnnotationEntryView) -> GFlagsAttributeView {
        match keyword(entry.key) {
            None => self,
            Some(Key::Skip) => GFlagsAttributeView { skip: true, ..self },
            Some(Key::Default) => GFlagsAttributeView { default: entry.value, ..self },
            Some(key) => match string_value(key, entry.value) {
                Err(_) => self,
                Ok(text) => match key {
                    Key::Placeholder => GFlagsAttributeView { placeholder: Some(text), ..self },
                    Key::Prefix => GFlagsAttributeView {
                        prefix: Some(prefix_stem(text)),
                        flag_case: latest(self.flag_case, prefix_case(text)),
                        ..self
                    },
                    Key::Type => GFlagsAttributeView { ty: Some(text), ..self },
                    Key::Visibility => GFlagsAttributeView { visibility: Some(text), ..self },
                    _ => self,
                },
            },
        }
    }

    /// This configuration after each of `entries` in turn.
    pub open spec fn with_entries(
        self,
        entries: Seq<AnnotationEntryView>,
    ) -> GFlagsAttributeView
        decreases entries.len(),
    {
        if entries.len() == 0 {
            self
        } else {
            self.with_entries(entries.drop_last()).with_entry(entries.last())
        }
    }

    /// This configuration with `later` laid over it: `skip` holds if either
    /// has it, and for every other key what `later` sets replaces what this
    /// one sets.
    pub open spec fn overlaid(self, later: GFlagsAttributeView) -> GFlagsAttributeView {
        GFlagsAttributeView {
            skip: self.skip || later.skip,
            prefix: latest(self.prefix, later.prefix),
            flag_case: latest(self.flag_case, later.flag_case),
            ty: latest(self.ty, later.ty),
            visibility: latest(self.visibility, later.visibility),
            placeholder: latest(self.placeholder, later.placeholder),
            default: latest(self.default, later.default),
        }
    }
}

/// What one block says: a fault if it is empty or an entry is faulty (the
/// first such entry decides), else what its entries set.
pub open spec fn parsed(block: AnnotationBlockView) -> Result<GFlagsAttributeView, ErrorView> {
    if block.entries.len() == 0 {
        Err(ErrorView::EmptyAttribute)
    } else {
        match first_fault(block.entries) {
            Some(fault) => Err(fault),
            None => Ok(GFlagsAttributeView::unset().with_entries(block.entries)),
        }
    }
}

/// What the blocks of one struct or field say together. Blocks are read in
/// order and only under the tag `namespace()`; the first faulty block
/// decides the fault; later blocks are laid over earlier ones.
pub open spec fn merged(blocks: Seq<AnnotationBlockView>) -> Result<
    GFlagsAttributeView,
    ErrorView,
>
    decreases blocks.len(),
{
    if blocks.len() == 0 {
        Ok(GFlagsAttributeView::unset())
    } else {
        match merged(blocks.drop_last()) {
            Err(fault) => Err(fault),
            Ok(earlier) => if blocks.last().tag != namespace() {
                Ok(earlier)
            } else {
                match parsed(blocks.last()) {
                    Err(fault) => Err(fault),
                    Ok(later) => Ok(earlier.overlaid(later)),
                }
            },
        }
    }
}

/// A fault among the first `n` entries is the fault of the whole list.
pub proof fn lemma_first_fault_stays(entries: Seq<AnnotationEntryView>, n: int)
    requires
        0 <= n <= entries.len(),
        first_fault(entries.take(n)) is Some,
    ensures
        first_fault(entries) == first_fault(entries.take(n)),
    decreases entries.len(),
{
    if n == entries.len() {
        assert(entries.take(n) =~= entries);
    } else {
        assert(entries.drop_last().take(n) =~= entries.take(n));
        lemma_first_fault_stays(entries.drop_last(), n);
    }
}

/// A fault among the first `n` blocks is the fault of the whole list.
pub proof fn lemma_merged_fault_stays(blocks: Seq<AnnotationBlockView>, n: int)
    requires
        0 <= n <= blocks.len(),
        merged(blocks.take(n)) is Err,
    ensures
        merged(blocks) == merged(blocks.take(n)),
    decreases blocks.len(),
{
    if n == blocks.len() {
        assert(blocks.take(n) =~= blocks);
    } else {
        assert(blocks.drop_last().take(n) =~= blocks.take(n));
        lemma_merged_fault_stays(blocks.drop_last(), n);
    }
}

/// A copy of a literal.
pub fn copy_literal(literal: &Literal) -> (copy: Literal)
    ensures
        copy@ == literal@,
{
    match literal {
        Literal::Str(text) => Literal::Str(text.clone()),
        Literal::Other(text) => Literal::Other(text.clone()),
    }
}

/// The text of a value that must be a non-empty quoted string, as
/// `string_value` describes.
pub fn require_string(key: Key, value: &Option<Literal>) -> (text: Result<String, Error>)
    ensures
        match text {
            Ok(text) => string_value(key, literal_view(*value)) == Ok::<Seq<char>, ErrorView>(
                text@,
            ),
            Err(fault) => string_value(key, literal_view(*value)) == Err::<Seq<char>, ErrorView>(
                fault@,
            ),
        },
{
    match value {
        None => Err(Error::KeywordRequiresValue(key)),
        Some(Literal::Other(_)) => Err(Error::ExpectedStringLiteral(key)),
        Some(Literal::Str(text)) => {
            if text.as_str().is_empty() {
                Err(Error::EmptyValue(key))
            } else {
                Ok(text.clone())
            }
        },
    }
}

/// Splits a written prefix into the prefix that is kept and the casing that
/// its last character asks for.
pub fn split_prefix(written: &str) -> (parts: (String, Option<FlagCase>))
    ensures
        parts.0@ == prefix_stem(written@),
        parts.1 == prefix_case(written@),
{
    let chars = chars_of(written);
    let mut end: usize = chars.len();
    let mut case: Option<FlagCase> = None;
    if end > 0 && chars[end - 1] == '_' {
        case = Some(FlagCase::SnakeCase);
        end = end - 1;
    } else if end > 0 && chars[end - 1] == '-' {
        case = Some(FlagCase::KebabCase);
        end = end - 1;
    }
    (written.substring_char(0, end).to_owned(), case)
}

impl GFlagsAttribute {
    /// The configuration in which nothing is set.
    pub fn unset() -> (config: GFlagsAttribute)
        ensures
            config@ == GFlagsAttributeView::unset(),
    {
        GFlagsAttribute {
            skip: false,
            prefix: None,
            flag_case: None,
            ty: None,
            visibility: None,
            placeholder: None,
            default: None,
        }
    }

    /// Checks one entry and records what it sets.
    pub fn with_entry(self, entry: &AnnotationEntry) -> (next: Result<GFlagsAttribute, Error>)
        ensures
            match next {
                Ok(config) => entry_fault(entry@) is None && config@ == self@.with_entry(entry@),
                Err(fault) => entry_fault(entry@) == Some(fault@),
            },
    {
        let mut config = self;
        let key = match keyword_of(entry.key.as_str()) {
            None => {
                return Err(Error::UnknownKey(entry.key.clone()));
            },
            Some(key) => key,
        };
        match key {
            Key::Skip => {
                if entry.value.is_some() {
                    return Err(Error::SkipTakesValue);
                }
                config.skip = true;
            },
            Key::Default => {
                match &entry.value {
                    None => {
                        return Err(Error::KeywordRequiresValue(Key::Default));
                    },
                    Some(literal) => {
                        config.default = Some(copy_literal(literal));
                    },
                }
            },
            Key::Placeholder => {
                match require_string(key, &entry.value) {
                    Err(fault) => {
                        return Err(fault);
                    },
                    Ok(text) => {
                        config.placeholder = Some(text);
                    },
                }
            },
            Key::Prefix => {
                match require_string(key, &entry.value) {
                    Err(fault) => {
                        return Err(fault);
                    },
                    Ok(text) => {
                        let (stem, case) = split_prefix(text.as_str());
                        if case.is_some() {
                            config.flag_case = case;
                        }
                        config.prefix = Some(stem);
                    },
                }
            },
            Key::Type => {
                match require_string(key, &entry.value) {
                    Err(fault) => {
                        return Err(fault);
                    },
                    Ok(text) => {
                        config.ty = Some(text);
                    },
                }
            },
            Key::Visibility => {
                match require_string(key, &entry.value) {
                    Err(fault) => {
                        return Err(fault);
                    },
                    Ok(text) => {
                        config.visibility = Some(text);
                    },
                }
            },
        }
        Ok(config)
    }

    /// This configuration with `later` laid over it.
    pub fn overlaid(self, later: GFlagsAttribute) -> (both: GFlagsAttribute)
        ensures
            both@ == self@.overlaid(later@),
    {
        let mut config = self;
        if later.skip {
            config.skip = true;
        }
        if later.default.is_some() {
            config.default = later.default;
        }
        if later.placeholder.is_some() {
            config.placeholder = later.placeholder;
        }
        if later.prefix.is_some() {
            config.prefix = later.prefix;
        }
        if later.flag_case.is_some() {
            config.flag_case = later.flag_case;
        }
        if later.ty.is_some() {
            config.ty = later.ty;
        }
        if later.visibility.is_some() {
            config.visibility = later.visibility;
        }
        config
    }

    /// Reads one annotation block, whatever its tag.
    pub fn from_meta(block: &AnnotationBlock) -> (read: Result<GFlagsAttribute, Error>)
        ensures
            match read {
                Ok(config) => parsed(block@) == Ok::<GFlagsAttributeView, ErrorView>(config@),
                Err(fault) => parsed(block@) == Err::<GFlagsAttributeView, ErrorView>(fault@),
            },
    {
        if block.entries.len() == 0 {
            return Err(Error::EmptyAttribute);
        }
        let ghost entries = block@.entries;
        let mut config = GFlagsAttribute::unset();
        let mut i: usize = 0;
        while i < block.entries.len()
            invariant
                entries == block@.entries,
                i <= block.entries.len(),
                first_fault(entries.take(i as int)) is None,
                config@ == GFlagsAttributeView::unset().with_entries(entries.take(i as int)),
            decreases block.entries.len() - i,
        {
            assert(entries.take(i + 1).drop_last() =~= entries.take(i as int));
            match config.with_entry(&block.entries[i]) {
                Err(fault) => {
                    proof {
                        lemma_first_fault_stays(entries, i + 1);
                    }
                    return Err(fault);
                },
                Ok(next) => {
                    config = next;
                },
            }
            i += 1;
        }
        assert(entries.take(i as int) =~= entries);
        Ok(config)
    }

    /// Reads the blocks attached to one struct or field and merges them.
    pub fn from_attributes(blocks: &Vec<AnnotationBlock>) -> (read: Result<
        GFlagsAttribute,
        Error,
    >)
        ensures
            match read {
                Ok(config) => merged(block_views(blocks@)) == Ok::<
                    GFlagsAttributeView,
                    ErrorView,
                >(config@),
                Err(fault) => merged(block_views(blocks@)) == Err::<
                    GFlagsAttributeView,
                    ErrorView,
                >(fault@),
            },
    {
        let ghost all = block_views(blocks@);
        let mut config = GFlagsAttribute::unset();
        let mut i: usize = 0;
        while i < blocks.len()
            invariant
                all == block_views(blocks@),
                i <= blocks.len(),
                merged(all.take(i as int)) == Ok::<GFlagsAttributeView, ErrorView>(config@),
            decreases blocks.len() - i,
        {
            assert(all.take(i + 1).drop_last() =~= all.take(i as int));
            if text_eq(blocks[i].tag.as_str(), "gflags") {
                match GFlagsAttribute::from_meta(&blocks[i]) {
                    Err(fault) => {
                        proof {
                            lemma_merged_fault_stays(all, i + 1);
                        }
                        return Err(fault);
                    },
                    Ok(later) => {
                        config = config.overlaid(later);
                    },
                }
            }
            i += 1;
        }
        assert(all.take(i as int) =~= all);
        Ok(config)
    }
}

} // verus!
