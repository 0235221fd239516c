use gflags_derive::derive::impl_gflags_macro;
use gflags_derive::error::Error;
use gflags_derive::flag::{copy_lines, flag_from_field, FlagDefinition};
use gflags_derive::gflags_derive;
use gflags_derive::key::Key;
use gflags_derive::naming::Config;
use gflags_derive::schema::{
    AnnotationBlock, AnnotationEntry, FieldSchema, Item, Literal, PathArguments, PathSegment,
    StructSchema, Type, TypePath,
};

fn simple(ident: &str) -> Type {
    Type::Path(TypePath {
        qself: false,
        segments: vec![PathSegment { ident: ident.to_string(), arguments: PathArguments::Bare }],
        tokens: ident.to_string(),
    })
}

fn annotation(entries: Vec<AnnotationEntry>) -> AnnotationBlock {
    AnnotationBlock { tag: "gflags".to_string(), entries }
}

fn key_only(key: &str) -> AnnotationEntry {
    AnnotationEntry { key: key.to_string(), value: None }
}

fn key_string(key: &str, value: &str) -> AnnotationEntry {
    AnnotationEntry { key: key.to_string(), value: Some(Literal::Str(value.to_string())) }
}

fn key_literal(key: &str, value: &str) -> AnnotationEntry {
    AnnotationEntry { key: key.to_string(), value: Some(Literal::Other(value.to_string())) }
}

fn member(name: &str, ty: Type, blocks: Vec<AnnotationBlock>) -> FieldSchema {
    FieldSchema { name: name.to_string(), ty, docs: vec![], blocks }
}

fn record(blocks: Vec<AnnotationBlock>, fields: Vec<FieldSchema>) -> Item {
    Item::Record(StructSchema { blocks, fields })
}

fn names(flags: &[FlagDefinition]) -> Vec<&str> {
    flags.iter().map(|flag| flag.name.as_str()).collect()
}

#[test]
fn one_flag_per_field_in_declaration_order() {
    let item = record(
        vec![],
        vec![
            member("zeta", simple("bool"), vec![]),
            member("alpha", simple("u8"), vec![]),
            member("mid_point", simple("String"), vec![]),
            member("beta", simple("i64"), vec![]),
        ],
    );
    let flags = gflags_derive(&item).unwrap();
    assert_eq!(names(&flags), ["zeta", "alpha", "mid-point", "beta"]);
    let types: Vec<&str> = flags.iter().map(|flag| flag.value_type.as_str()).collect();
    assert_eq!(types, ["bool", "u8", "&str", "i64"]);
}

#[test]
fn skipped_fields_leave_the_order_of_the_rest() {
    let item = record(
        vec![],
        vec![
            member("a", simple("bool"), vec![annotation(vec![key_only("skip")])]),
            member("b", simple("u8"), vec![]),
            member("c", simple("u8"), vec![annotation(vec![key_only("skip")])]),
            member("d", simple("u8"), vec![]),
            member("e", simple("u8"), vec![annotation(vec![key_only("skip")])]),
        ],
    );
    assert_eq!(names(&gflags_derive(&item).unwrap()), ["b", "d"]);
}

#[test]
fn skip_wins_whatever_else_is_set() {
    let blocks = vec![
        annotation(vec![key_string("type", "&str"), key_string("placeholder", "DIR")]),
        annotation(vec![key_only("skip"), key_literal("default", "1")]),
        annotation(vec![key_string("visibility", "pub")]),
    ];
    let field = member("dir", simple("PathBuf"), blocks);
    assert_eq!(flag_from_field(&Config::default(), &field), Ok(None));
    assert_eq!(gflags_derive(&record(vec![], vec![field])), Ok(vec![]));
}

#[test]
fn a_skipped_field_may_have_any_type() {
    let field = member("callback", Type::Other, vec![annotation(vec![key_only("skip")])]);
    assert_eq!(flag_from_field(&Config::default(), &field), Ok(None));
}

#[test]
fn all_fields_skipped_gives_no_flag() {
    let item = record(
        vec![],
        vec![
            member("a", simple("bool"), vec![annotation(vec![key_only("skip")])]),
            member("b", Type::Other, vec![annotation(vec![key_only("skip")])]),
        ],
    );
    assert_eq!(gflags_derive(&item), Ok(vec![]));
}

#[test]
fn a_struct_without_fields_gives_no_flag() {
    assert_eq!(gflags_derive(&record(vec![], vec![])), Ok(vec![]));
}

#[test]
fn anything_but_a_record_is_rejected() {
    assert_eq!(gflags_derive(&Item::Other), Err(Error::NotARecord));
    assert_eq!(impl_gflags_macro(&Item::Other), Err(Error::NotARecord));
}

#[test]
fn an_empty_block_on_the_struct_aborts() {
    let item = record(vec![annotation(vec![])], vec![member("a", simple("bool"), vec![])]);
    assert_eq!(gflags_derive(&item), Err(Error::EmptyAttribute));
}

#[test]
fn an_empty_block_on_a_field_aborts() {
    let item = record(
        vec![],
        vec![
            member("a", simple("bool"), vec![]),
            member("b", simple("bool"), vec![annotation(vec![])]),
            member("c", simple("bool"), vec![]),
        ],
    );
    assert_eq!(gflags_derive(&item), Err(Error::EmptyAttribute));
}

#[test]
fn skip_with_a_value_aborts() {
    let item = record(
        vec![],
        vec![
            member("to_stderr", simple("bool"), vec![]),
            member("dir", simple("String"), vec![annotation(vec![key_literal("skip", "1")])]),
        ],
    );
    assert_eq!(gflags_derive(&item), Err(Error::SkipTakesValue));
}

#[test]
fn an_unexpected_key_on_the_struct_aborts() {
    let item = record(
        vec![annotation(vec![key_only("foo")])],
        vec![
            member("to_stderr", simple("bool"), vec![]),
            member("dir", simple("String"), vec![]),
        ],
    );
    assert_eq!(gflags_derive(&item), Err(Error::UnknownKey("foo".to_string())));
}

#[test]
fn an_unsupported_type_aborts_and_names_the_field() {
    let item = record(
        vec![],
        vec![member("a", simple("bool"), vec![]), member("pair", Type::Other, vec![])],
    );
    assert_eq!(gflags_derive(&item), Err(Error::UnsupportedType("pair".to_string())));
}

#[test]
fn an_override_rescues_an_unsupported_type() {
    let field = member("pair", Type::Other, vec![annotation(vec![key_string("type", "&str")])]);
    let flag = flag_from_field(&Config::default(), &field).unwrap().unwrap();
    assert_eq!(flag.value_type, "&str");
}

#[test]
fn the_first_fault_in_declaration_order_is_reported() {
    let item = record(
        vec![],
        vec![
            member("a", simple("bool"), vec![annotation(vec![key_only("type")])]),
            member("b", Type::Other, vec![]),
            member("c", simple("bool"), vec![annotation(vec![])]),
        ],
    );
    assert_eq!(gflags_derive(&item), Err(Error::KeywordRequiresValue(Key::Type)));

    let item = record(
        vec![annotation(vec![key_literal("prefix", "1")])],
        vec![member("a", simple("bool"), vec![annotation(vec![key_only("type")])])],
    );
    assert_eq!(gflags_derive(&item), Err(Error::ExpectedStringLiteral(Key::Prefix)));
}

#[test]
fn a_fault_in_the_blocks_comes_before_the_type() {
    let field = member("pair", Type::Other, vec![annotation(vec![key_string("placeholder", "")])]);
    assert_eq!(
        flag_from_field(&Config::default(), &field),
        Err(Error::EmptyValue(Key::Placeholder))
    );
}

#[test]
fn a_flag_carries_everything_that_was_set() {
    let field = FieldSchema {
        name: "log_dir".to_string(),
        ty: simple("PathBuf"),
        docs: vec!["line1".to_string(), "line2".to_string()],
        blocks: vec![
            annotation(vec![key_string("type", "&str"), key_string("visibility", "pub(super)")]),
            annotation(vec![key_string("placeholder", "DIR"), key_string("default", "/tmp")]),
        ],
    };
    let config = Config::default();
    assert_eq!(
        flag_from_field(&config, &field),
        Ok(Some(FlagDefinition {
            name: "log-dir".to_string(),
            value_type: "&str".to_string(),
            default_expr: Some(Literal::Str("/tmp".to_string())),
            placeholder: Some("DIR".to_string()),
            visibility: Some("pub(super)".to_string()),
            doc_lines: vec!["line1".to_string(), "line2".to_string()],
        }))
    );
}

#[test]
fn a_plain_field_sets_nothing_but_name_and_type() {
    let field = member("verbose", simple("bool"), vec![]);
    assert_eq!(
        flag_from_field(&Config::default(), &field),
        Ok(Some(FlagDefinition {
            name: "verbose".to_string(),
            value_type: "bool".to_string(),
            default_expr: None,
            placeholder: None,
            visibility: None,
            doc_lines: vec![],
        }))
    );
}

#[test]
fn documentation_is_kept_line_by_line() {
    let field = FieldSchema {
        name: "x".to_string(),
        ty: simple("u8"),
        docs: vec![
            "line1".to_string(),
            "line2".to_string(),
            String::new(),
            "  indented, with `code` and \"quotes\"".to_string(),
        ],
        blocks: vec![],
    };
    let flag = flag_from_field(&Config::default(), &field).unwrap().unwrap();
    assert_eq!(flag.doc_lines, field.docs);
    assert_eq!(copy_lines(&field.docs), field.docs);
    assert_eq!(copy_lines(&vec![]), Vec::<String>::new());
}

#[test]
fn a_prefix_on_a_field_does_not_rename_its_flag() {
    let field = member("dir", simple("u8"), vec![annotation(vec![key_string("prefix", "x_")])]);
    let flag = flag_from_field(&Config::default(), &field).unwrap().unwrap();
    assert_eq!(flag.name, "dir");
}

#[test]
fn the_struct_prefix_names_every_flag() {
    let item = record(
        vec![annotation(vec![key_string("prefix", "log_")])],
        vec![
            member("to_stderr", simple("bool"), vec![]),
            member("hidden", simple("bool"), vec![annotation(vec![key_only("skip")])]),
            member("dir", simple("String"), vec![]),
        ],
    );
    assert_eq!(names(&gflags_derive(&item).unwrap()), ["log_to_stderr", "log_dir"]);
}

#[test]
fn the_placeholder_is_shown_between_angle_brackets() {
    let field = member("dir", simple("u8"), vec![annotation(vec![key_string("placeholder", "DIR")])]);
    let flag = flag_from_field(&Config::default(), &field).unwrap().unwrap();
    assert_eq!(flag.placeholder.as_deref(), Some("DIR"));
    assert_eq!(flag.placeholder_display().as_deref(), Some("<DIR>"));
    let plain = flag_from_field(&Config::default(), &member("dir", simple("u8"), vec![]))
        .unwrap()
        .unwrap();
    assert_eq!(plain.placeholder_display(), None);
}

#[test]
fn generating_twice_gives_the_same_flags() {
    let item = record(
        vec![annotation(vec![key_string("prefix", "app-")])],
        vec![
            member("a_b", simple("bool"), vec![annotation(vec![key_literal("default", "true")])]),
            member("c", simple("String"), vec![]),
        ],
    );
    assert_eq!(gflags_derive(&item), gflags_derive(&item));
    assert_eq!(gflags_derive(&item), impl_gflags_macro(&item));
}
