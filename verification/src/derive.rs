//! Generating the flags of a whole struct.

use crate::attribute::{merged, namespace};
use crate::error::{Error, ErrorView};
use crate::flag::{field_flag, flag_from_field, flag_views, FlagDefinition, FlagDefinitionView};
use crate::key::{keyword, Key};
use crate::merging::lemma_skip_in_any_block;
use crate::naming::{
    config_from_attributes, flag_name, lemma_names_stay_apart, struct_config, ConfigView,
};
use crate::schema::{FieldSchemaView, Item, ItemView, StructSchemaView};
use vstd::prelude::*;

verus! {

/// The flags of a list of fields under one configuration: the flags of the
/// fields that give one, in the order of the fields, or the fault of the
/// first field that holds one.
pub open spec fn field_flags(config: ConfigView, fields: Seq<FieldSchemaView>) -> Result<
    Seq<FlagDefinitionView>,
    ErrorView,
>
    decreases fields.len(),
{
    if fields.len() == 0 {
        Ok(Seq::empty())
    } else {
        match field_flags(config, fields.drop_last()) {
            Err(fault) => Err(fault),
            Ok(flags) => match field_flag(config, fields.last()) {
                Err(fault) => Err(fault),
                Ok(None) => Ok(flags),
                Ok(Some(flag)) => Ok(flags.push(flag)),
            },
        }
    }
}

/// What is generated for an item: a fault for anything but a struct with
/// named fields; else the fault of the struct's own blocks, if they hold
/// one; else the flags of its fields under the struct's configuration.
pub open spec fn expansion(item: ItemView) -> Result<Seq<FlagDefinitionView>, ErrorView> {
    match item {
        ItemView::Other => Err(ErrorView::NotARecord),
        ItemView::Record(schema) => match struct_config(schema.blocks) {
            Err(fault) => Err(fault),
            Ok(config) => field_flags(config, schema.fields),
        },
    }
}

/// Whether the blocks of a field set `skip`.
pub open spec fn is_skipped(field: FieldSchemaView) -> bool {
    merged(field.blocks) matches Ok(own) && own.skip
}

/// The fields that are not skipped, in their order.
pub open spec fn unskipped(fields: Seq<FieldSchemaView>) -> Seq<FieldSchemaView> {
    fields.filter(|field: FieldSchemaView| !is_skipped(field))
}

/// The flag of a field that gives one.
pub open spec fn flag_of(config: ConfigView, field: FieldSchemaView) -> FlagDefinitionView {
    match field_flag(config, field) {
        Ok(Some(flag)) => flag,
        _ => arbitrary(),
    }
}

/// The flag of each of `fields`, in their order.
pub open spec fn flags_of(config: ConfigView, fields: Seq<FieldSchemaView>) -> Seq<
    FlagDefinitionView,
> {
    fields.map_values(|field: FieldSchemaView| flag_of(config, field))
}

/// A field whose blocks hold `skip` anywhere under the tag that is read
/// gives no flag, whatever else its blocks set and whatever its type is: it
/// gives nothing at all where its blocks are without fault, and their fault
/// where they are not.
pub proof fn lemma_skipped_field_gives_nothing(
    config: ConfigView,
    field: FieldSchemaView,
    block: int,
    entry: int,
)
    requires
        0 <= block < field.blocks.len(),
        field.blocks[block].tag == namespace(),
        0 <= entry < field.blocks[block].entries.len(),
        keyword(field.blocks[block].entries[entry].key) == Some(Key::Skip),
    ensures
        field_flag(config, field) == match merged(field.blocks) {
            Ok(_) => Ok::<Option<FlagDefinitionView>, ErrorView>(None),
            Err(fault) => Err(fault),
        },
        merged(field.blocks) is Ok ==> is_skipped(field),
{
    lemma_skip_in_any_block(field.blocks, block, entry);
}

/// Where fields give their flags without fault, every field gives its own
/// answer without fault, and the flags are those of the fields that are not
/// skipped: one for each, in the order of the fields, and none besides.
pub proof fn lemma_one_flag_per_unskipped_field(config: ConfigView, fields: Seq<FieldSchemaView>)
    requires
        field_flags(config, fields) is Ok,
    ensures
        forall|i: int| 0 <= i < fields.len() ==> (#[trigger] field_flag(config, fields[i])) is Ok,
        field_flags(config, fields)->Ok_0 == flags_of(config, unskipped(fields)),
    decreases fields.len(),
{
    reveal(Seq::filter);
    if fields.len() > 0 {
        let init = fields.drop_last();
        lemma_one_flag_per_unskipped_field(config, init);
        assert forall|i: int| 0 <= i < fields.len() implies (#[trigger] field_flag(
            config,
            fields[i],
        )) is Ok by {
            if i < fields.len() - 1 {
                assert(fields[i] == init[i]);
            }
        }
        if !is_skipped(fields.last()) {
            assert(unskipped(fields) == unskipped(init).push(fields.last()));
            assert(flags_of(config, unskipped(fields)) =~= flags_of(config, unskipped(init)).push(
                flag_of(config, fields.last()),
            ));
        }
    }
}

/// Every generated flag is named after one of the fields.
pub proof fn lemma_flags_are_named_after_fields(config: ConfigView, fields: Seq<FieldSchemaView>)
    requires
        field_flags(config, fields) is Ok,
    ensures
        forall|k: int|
            0 <= k < field_flags(config, fields)->Ok_0.len() ==> exists|i: int|
                0 <= i < fields.len() && (#[trigger] field_flags(config, fields)->Ok_0[k]).name
                    == flag_name(config, #[trigger] fields[i].name),
    decreases fields.len(),
{
    if fields.len() > 0 {
        let init = fields.drop_last();
        let flags = field_flags(config, fields)->Ok_0;
        let before = field_flags(config, init)->Ok_0;
        lemma_flags_are_named_after_fields(config, init);
        assert forall|k: int| 0 <= k < flags.len() implies exists|i: int|
            0 <= i < fields.len() && (#[trigger] flags[k]).name == flag_name(
                config,
                #[trigger] fields[i].name,
            ) by {
            if k < before.len() {
                let i = choose|i: int|
                    0 <= i < init.len() && before[k].name == flag_name(
                        config,
                        #[trigger] init[i].name,
                    );
                assert(fields[i] == init[i]);
            } else {
                assert(flags[k].name == flag_name(config, fields[fields.len() - 1].name));
            }
        }
    }
}

/// No two flags of one pass have the same name, where no two fields have
/// the same name and no field's name holds a hyphen.
pub proof fn lemma_flag_names_are_distinct(config: ConfigView, fields: Seq<FieldSchemaView>)
    requires
        field_flags(config, fields) is Ok,
        forall|i: int| 0 <= i < fields.len() ==> !(#[trigger] fields[i]).name.contains('-'),
        forall|i: int, j: int|
            0 <= i < j < fields.len() ==> (#[trigger] fields[i]).name != (#[trigger] fields[j]).name,
    ensures
        forall|a: int, b: int|
            0 <= a < b < field_flags(config, fields)->Ok_0.len() ==> (#[trigger] field_flags(
                config,
                fields,
            )->Ok_0[a]).name != (#[trigger] field_flags(config, fields)->Ok_0[b]).name,
    decreases fields.len(),
{
    if fields.len() > 0 {
        let init = fields.drop_last();
        let last = fields.last();
        let flags = field_flags(config, fields)->Ok_0;
        let before = field_flags(config, init)->Ok_0;
        lemma_flag_names_are_distinct(config, init);
        lemma_flags_are_named_after_fields(config, init);
        assert forall|a: int, b: int| 0 <= a < b < flags.len() implies (#[trigger] flags[a]).name
            != (#[trigger] flags[b]).name by {
            if b >= before.len() {
                let i = choose|i: int|
                    0 <= i < init.len() && before[a].name == flag_name(
                        config,
                        #[trigger] init[i].name,
                    );
                assert(init[i] == fields[i]);
                lemma_names_stay_apart(config, fields[i].name, last.name);
            }
        }
    }
}

/// What a struct gives where generation succeeds: the struct's own blocks
/// are without fault, and under their configuration every field that is not
/// skipped has exactly one flag, the flags standing in the order of the
/// fields, with none for a skipped field.
pub proof fn lemma_expansion_follows_fields(schema: StructSchemaView)
    requires
        expansion(ItemView::Record(schema)) is Ok,
    ensures
        struct_config(schema.blocks) is Ok,
        expansion(ItemView::Record(schema))->Ok_0 == flags_of(
            struct_config(schema.blocks)->Ok_0,
            unskipped(schema.fields),
        ),
        expansion(ItemView::Record(schema))->Ok_0.len() == unskipped(schema.fields).len(),
{
    lemma_one_flag_per_unskipped_field(struct_config(schema.blocks)->Ok_0, schema.fields);
}

/// A fault among the first `n` fields is the fault of the whole list.
pub proof fn lemma_field_fault_stays(config: ConfigView, fields: Seq<FieldSchemaView>, n: int)
    requires
        0 <= n <= fields.len(),
        field_flags(config, fields.take(n)) is Err,
    ensures
        field_flags(config, fields) == field_flags(config, fields.take(n)),
    decreases fields.len(),
{
    if n == fields.len() {
        assert(fields.take(n) =~= fields);
    } else {
        assert(fields.drop_last().take(n) =~= fields.take(n));
        lemma_field_fault_stays(config, fields.drop_last(), n);
    }
}

/// Generates the flags of an item, as `expansion` describes: all of them,
/// or a fault and none.
pub fn impl_gflags_macro(ast: &Item) -> (generated: Result<Vec<FlagDefinition>, Error>)
    ensures
        match generated {
            Ok(flags) => expansion(ast@) == Ok::<Seq<FlagDefinitionView>, ErrorView>(
                flag_views(flags@),
            ),
            Err(fault) => expansion(ast@) == Err::<Seq<FlagDefinitionView>, ErrorView>(fault@),
        },
{
    let schema = match ast {
        Item::Record(schema) => schema,
        Item::Other => {
            return Err(Error::NotARecord);
        },
    };
    let config = match config_from_attributes(&schema.blocks) {
        Err(fault) => {
            return Err(fault);
        },
        Ok(config) => config,
    };
    let ghost fields = schema@.fields;
    let mut flags: Vec<FlagDefinition> = Vec::new();
    let mut i: usize = 0;
    assert(flag_views(flags@) =~= Seq::<FlagDefinitionView>::empty());
    while i < schema.fields.len()
        invariant
            ast@ == ItemView::Record(schema@),
            struct_config(schema@.blocks) == Ok::<ConfigView, ErrorView>(config@),
            fields == schema@.fields,
            i <= schema.fields.len(),
            field_flags(config@, fields.take(i as int)) == Ok::<
                Seq<FlagDefinitionView>,
                ErrorView,
            >(flag_views(flags@)),
        decreases schema.fields.len() - i,
    {
        assert(fields.take(i + 1).drop_last() =~= fields.take(i as int));
        match flag_from_field(&config, &schema.fields[i]) {
            Err(fault) => {
                proof {
                    lemma_field_fault_stays(config@, fields, i + 1);
                }
                return Err(fault);
            },
            Ok(None) => {},
            Ok(Some(flag)) => {
                let ghost before = flag_views(flags@);
                flags.push(flag);
                assert(flag_views(flags@) =~= before.push(flag@));
            },
        }
        i += 1;
    }
    assert(fields.take(i as int) =~= fields);
    Ok(flags)
}

} // verus!
