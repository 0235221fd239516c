//! What holds of merging annotation blocks: later entries win key by key,
//! `skip` accumulates, and neither the split into blocks nor a second
//! reading changes the outcome.

use crate::attribute::{
    entry_fault, first_fault, merged, namespace, parsed, prefix_stem, GFlagsAttributeView,
};
use crate::error::ErrorView;
use crate::key::{keyword, Key};
use crate::schema::{AnnotationBlockView, AnnotationEntryView, LiteralView};
use vstd::prelude::*;

verus! {

/// The value of the last of `entries` whose key names `key`, if there is
/// such an entry and it has a value.
pub open spec fn last_value(entries: Seq<AnnotationEntryView>, key: Key) -> Option<LiteralView>
    decreases entries.len(),
{
    if entries.len() == 0 {
        None
    } else if keyword(entries.last().key) == Some(key) {
        entries.last().value
    } else {
        last_value(entries.drop_last(), key)
    }
}

/// The text of a value that is a quoted string.
pub open spec fn quoted_text(value: Option<LiteralView>) -> Option<Seq<char>> {
    match value {
        Some(LiteralView::Str(text)) => Some(text),
        _ => None,
    }
}

/// The entries of the blocks under the tag that is read, as one list in the
/// order written.
pub open spec fn entries_read(blocks: Seq<AnnotationBlockView>) -> Seq<AnnotationEntryView>
    decreases blocks.len(),
{
    if blocks.len() == 0 {
        Seq::empty()
    } else if blocks.last().tag == namespace() {
        entries_read(blocks.drop_last()) + blocks.last().entries
    } else {
        entries_read(blocks.drop_last())
    }
}

/// Laying a faultless entry over a merged pair is laying it over the later
/// of the two.
pub proof fn lemma_entry_over_overlay(
    earlier: GFlagsAttributeView,
    later: GFlagsAttributeView,
    entry: AnnotationEntryView,
)
    requires
        entry_fault(entry) is None,
    ensures
        earlier.overlaid(later).with_entry(entry) == earlier.overlaid(later.with_entry(entry)),
{
}

/// What faultless entries do to a configuration is what they set, laid over
/// that configuration.
pub proof fn lemma_entries_overlay(
    earlier: GFlagsAttributeView,
    entries: Seq<AnnotationEntryView>,
)
    requires
        first_fault(entries) is None,
    ensures
        earlier.with_entries(entries) == earlier.overlaid(
            GFlagsAttributeView::unset().with_entries(entries),
        ),
    decreases entries.len(),
{
    if entries.len() > 0 {
        lemma_entries_overlay(earlier, entries.drop_last());
        lemma_entry_over_overlay(
            earlier,
            GFlagsAttributeView::unset().with_entries(entries.drop_last()),
            entries.last(),
        );
    }
}

/// The first fault of two lists of entries, one after the other, is the
/// first fault of the first list, or else that of the second.
pub proof fn lemma_first_fault_concat(
    first: Seq<AnnotationEntryView>,
    second: Seq<AnnotationEntryView>,
)
    ensures
        first_fault(first + second) == match first_fault(first) {
            Some(fault) => Some(fault),
            None => first_fault(second),
        },
    decreases second.len(),
{
    if second.len() == 0 {
        assert(first + second =~= first);
    } else {
        assert((first + second).drop_last() =~= first + second.drop_last());
        lemma_first_fault_concat(first, second.drop_last());
    }
}

/// Entries applied as one list are the first part applied, then the second.
pub proof fn lemma_with_entries_concat(
    start: GFlagsAttributeView,
    first: Seq<AnnotationEntryView>,
    second: Seq<AnnotationEntryView>,
)
    ensures
        start.with_entries(first + second) == start.with_entries(first).with_entries(second),
    decreases second.len(),
{
    if second.len() == 0 {
        assert(first + second =~= first);
    } else {
        assert((first + second).drop_last() =~= first + second.drop_last());
        lemma_with_entries_concat(start, first, second.drop_last());
    }
}

/// Merging two lists of blocks, one after the other, is merging each and
/// laying the second result over the first; a fault in the first list comes
/// before one in the second.
pub proof fn lemma_merged_concat(
    first: Seq<AnnotationBlockView>,
    second: Seq<AnnotationBlockView>,
)
    ensures
        merged(first + second) == match merged(first) {
            Err(fault) => Err(fault),
            Ok(earlier) => match merged(second) {
                Err(fault) => Err(fault),
                Ok(later) => Ok(earlier.overlaid(later)),
            },
        },
    decreases second.len(),
{
    if second.len() == 0 {
        assert(first + second =~= first);
    } else {
        assert((first + second).drop_last() =~= first + second.drop_last());
        lemma_merged_concat(first, second.drop_last());
        if let Ok(earlier) = merged(first) {
            if let Ok(middle) = merged(second.drop_last()) {
                if second.last().tag == namespace() {
                    if let Ok(later) = parsed(second.last()) {
                        assert(earlier.overlaid(middle).overlaid(later) == earlier.overlaid(
                            middle.overlaid(later),
                        ));
                    }
                }
            }
        }
    }
}

/// Merging is idempotent: the same blocks read a second time after the
/// first change nothing, neither the configuration nor the fault.
pub proof fn lemma_merging_again_changes_nothing(blocks: Seq<AnnotationBlockView>)
    ensures
        merged(blocks + blocks) == merged(blocks),
{
    lemma_merged_concat(blocks, blocks);
}

/// Entries may be written in one block or spread over two: two blocks under
/// the tag that is read, neither of them empty, say what one block with the
/// entries of both says.
pub proof fn lemma_two_blocks_as_one(first: AnnotationBlockView, second: AnnotationBlockView)
    requires
        first.tag == namespace(),
        second.tag == namespace(),
        first.entries.len() > 0,
        second.entries.len() > 0,
    ensures
        merged(seq![first, second]) == parsed(
            AnnotationBlockView { tag: namespace(), entries: first.entries + second.entries },
        ),
{
    let unset = GFlagsAttributeView::unset();
    let both = seq![first, second];
    assert(both.drop_last() =~= seq![first]);
    assert(seq![first].drop_last() =~= Seq::<AnnotationBlockView>::empty());
    assert(merged(Seq::<AnnotationBlockView>::empty()) == Ok::<GFlagsAttributeView, ErrorView>(
        unset,
    ));
    assert(merged(seq![first]) == match parsed(first) {
        Err(fault) => Err::<GFlagsAttributeView, ErrorView>(fault),
        Ok(later) => Ok(unset.overlaid(later)),
    });
    lemma_first_fault_concat(first.entries, second.entries);
    lemma_with_entries_concat(unset, first.entries, second.entries);
    if first_fault(first.entries) is None {
        let earlier = unset.with_entries(first.entries);
        if first_fault(second.entries) is None {
            lemma_entries_overlay(earlier, second.entries);
        }
    }
}

/// Within faultless entries the last one wins: each key but `skip` has the
/// value of the last entry that names it and is unset where none does, and
/// `skip` is set exactly if some entry names it.
pub proof fn lemma_last_entry_wins(entries: Seq<AnnotationEntryView>)
    requires
        first_fault(entries) is None,
    ensures
        ({
            let set = GFlagsAttributeView::unset().with_entries(entries);
            &&& set.ty == quoted_text(last_value(entries, Key::Type))
            &&& set.visibility == quoted_text(last_value(entries, Key::Visibility))
            &&& set.placeholder == quoted_text(last_value(entries, Key::Placeholder))
            &&& set.default == last_value(entries, Key::Default)
            &&& set.prefix == match quoted_text(last_value(entries, Key::Prefix)) {
                Some(written) => Some(prefix_stem(written)),
                None => None,
            }
            &&& set.skip <==> exists|i: int|
                0 <= i < entries.len() && keyword(#[trigger] entries[i].key) == Some(Key::Skip)
        }),
    decreases entries.len(),
{
    if entries.len() > 0 {
        let init = entries.drop_last();
        lemma_last_entry_wins(init);
        let before = GFlagsAttributeView::unset().with_entries(init);
        if before.skip {
            let i = choose|i: int|
                0 <= i < init.len() && keyword(#[trigger] init[i].key) == Some(Key::Skip);
            assert(entries[i] == init[i]);
        }
        assert forall|i: int|
            0 <= i < entries.len() && keyword(#[trigger] entries[i].key) == Some(
                Key::Skip,
            ) && i < init.len() implies before.skip by {
            assert(init[i] == entries[i]);
        }
    }
}

/// Blocks are one way to write a list of entries: where blocks merge without
/// fault, they set what their entries set as one list, in the order written,
/// and that list is without fault.
pub proof fn lemma_blocks_as_one_list(blocks: Seq<AnnotationBlockView>)
    requires
        merged(blocks) is Ok,
    ensures
        first_fault(entries_read(blocks)) is None,
        merged(blocks)->Ok_0 == GFlagsAttributeView::unset().with_entries(entries_read(blocks)),
    decreases blocks.len(),
{
    if blocks.len() > 0 {
        let init = blocks.drop_last();
        let last = blocks.last();
        lemma_blocks_as_one_list(init);
        if last.tag == namespace() {
            let unset = GFlagsAttributeView::unset();
            lemma_first_fault_concat(entries_read(init), last.entries);
            lemma_with_entries_concat(unset, entries_read(init), last.entries);
            lemma_entries_overlay(unset.with_entries(entries_read(init)), last.entries);
        }
    }
}

/// In faultless entries, a key that takes a quoted string has one that is
/// not empty wherever it is named.
pub proof fn lemma_last_value_is_text(entries: Seq<AnnotationEntryView>, key: Key)
    requires
        first_fault(entries) is None,
        key != Key::Skip,
        key != Key::Default,
    ensures
        last_value(entries, key) matches Some(value) ==> quoted_text(Some(value)) matches Some(
            text,
        ) && text.len() > 0,
    decreases entries.len(),
{
    if entries.len() > 0 {
        lemma_last_value_is_text(entries.drop_last(), key);
    }
}

/// What blocks set for `type`, `visibility` and `placeholder` is never the
/// empty text.
pub proof fn lemma_set_texts_are_not_empty(blocks: Seq<AnnotationBlockView>)
    requires
        merged(blocks) is Ok,
    ensures
        merged(blocks)->Ok_0.ty matches Some(text) ==> text.len() > 0,
        merged(blocks)->Ok_0.visibility matches Some(text) ==> text.len() > 0,
        merged(blocks)->Ok_0.placeholder matches Some(text) ==> text.len() > 0,
{
    let entries = entries_read(blocks);
    lemma_blocks_as_one_list(blocks);
    lemma_last_entry_wins(entries);
    lemma_last_value_is_text(entries, Key::Type);
    lemma_last_value_is_text(entries, Key::Visibility);
    lemma_last_value_is_text(entries, Key::Placeholder);
}

/// Entries that hold `skip` set `skip`, wherever among them it stands.
pub proof fn lemma_skip_entry_sets_skip(
    start: GFlagsAttributeView,
    entries: Seq<AnnotationEntryView>,
    at: int,
)
    requires
        0 <= at < entries.len(),
        keyword(entries[at].key) == Some(Key::Skip),
    ensures
        start.with_entries(entries).skip,
    decreases entries.len(),
{
    if at < entries.len() - 1 {
        lemma_skip_entry_sets_skip(start, entries.drop_last(), at);
    }
}

/// `skip` accumulates: where one entry of one block under the tag that is
/// read holds `skip`, the blocks merge into a configuration that sets it or
/// into a fault, whatever the other entries and blocks hold.
pub proof fn lemma_skip_in_any_block(blocks: Seq<AnnotationBlockView>, block: int, entry: int)
    requires
        0 <= block < blocks.len(),
        blocks[block].tag == namespace(),
        0 <= entry < blocks[block].entries.len(),
        keyword(blocks[block].entries[entry].key) == Some(Key::Skip),
    ensures
        merged(blocks) matches Ok(config) ==> config.skip,
    decreases blocks.len(),
{
    if block < blocks.len() - 1 {
        lemma_skip_in_any_block(blocks.drop_last(), block, entry);
    } else {
        lemma_skip_entry_sets_skip(GFlagsAttributeView::unset(), blocks[block].entries, entry);
    }
}

} // verus!
