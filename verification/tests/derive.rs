use gflags_derive::flag::FlagDefinition;
use gflags_derive::gflags_derive;
use gflags_derive::schema::{
    AnnotationBlock, AnnotationEntry, FieldSchema, GenericArgument, Item, Literal, PathArguments,
    PathSegment, StructSchema, Type, TypePath,
};
use std::collections::HashMap;

/// `ExpectedFlag` describes the expected state of a flag. Individual tests
/// create one of these and pass it to `check_flag` to confirm that the actual
/// state matches the expected state.
struct ExpectedFlag {
    doc: &'static [&'static str],
    name: &'static str,
    placeholder: Option<&'static str>,
    value_type: &'static str,
}

/// A type named by a single identifier, such as `bool`.
fn plain(ident: &str) -> Type {
    Type::Path(TypePath {
        qself: false,
        segments: vec![PathSegment { ident: ident.to_string(), arguments: PathArguments::Bare }],
        tokens: ident.to_string(),
    })
}

/// `Option<inner>`, where `inner` is a type named by a single identifier.
fn option_of(inner: &str) -> Type {
    Type::Path(TypePath {
        qself: false,
        segments: vec![PathSegment {
            ident: "Option".to_string(),
            arguments: PathArguments::AngleBracketed(vec![GenericArgument::Type(plain(inner))]),
        }],
        tokens: format!("Option < {} >", inner),
    })
}

/// `#[gflags(key = "value")]`
fn gflags_str(key: &str, value: &str) -> AnnotationBlock {
    AnnotationBlock {
        tag: "gflags".to_string(),
        entries: vec![AnnotationEntry {
            key: key.to_string(),
            value: Some(Literal::Str(value.to_string())),
        }],
    }
}

/// `#[gflags(key = value)]`, where the value is no quoted string.
fn gflags_lit(key: &str, value: &str) -> AnnotationBlock {
    AnnotationBlock {
        tag: "gflags".to_string(),
        entries: vec![AnnotationEntry {
            key: key.to_string(),
            value: Some(Literal::Other(value.to_string())),
        }],
    }
}

/// `#[gflags(key)]`
fn gflags_bare(key: &str) -> AnnotationBlock {
    AnnotationBlock {
        tag: "gflags".to_string(),
        entries: vec![AnnotationEntry { key: key.to_string(), value: None }],
    }
}

/// `#[allow(dead_code)]`
fn allow_dead_code() -> AnnotationBlock {
    AnnotationBlock {
        tag: "allow".to_string(),
        entries: vec![AnnotationEntry { key: "dead_code".to_string(), value: None }],
    }
}

fn field(name: &str, ty: Type, docs: &[&str], blocks: Vec<AnnotationBlock>) -> FieldSchema {
    FieldSchema {
        name: name.to_string(),
        ty,
        docs: docs.iter().map(|line| line.to_string()).collect(),
        blocks,
    }
}

/// Derive the flags of a struct and return them as a map keyed by flag name
/// so individual flags can be checked.
fn fetch_flags(
    blocks: Vec<AnnotationBlock>,
    fields: Vec<FieldSchema>,
) -> HashMap<String, FlagDefinition> {
    let item = Item::Record(StructSchema { blocks, fields });
    let generated = gflags_derive(&item).expect("the struct should derive its flags");
    let mut flags: HashMap<String, FlagDefinition> = HashMap::new();
    for flag in generated {
        flags.insert(flag.name.clone(), flag);
    }
    flags
}

/// Performs various assertions to confirm that the flag in `got` matches
/// the expectations in `want`.
fn check_flag(want: Option<ExpectedFlag>, got: Option<FlagDefinition>) {
    if want.is_none() && got.is_none() {
        return;
    }

    assert_eq!(
        want.is_none() && got.is_some(),
        false,
        "Unexpected flag with name --{}",
        got.unwrap().name
    );

    assert_eq!(
        want.is_some() && got.is_none(),
        false,
        "Failed to find flag with name --{}",
        want.unwrap().name
    );

    let want = want.unwrap();
    let got = got.unwrap();

    assert_eq!(want.name, got.name);

    let doc: Vec<&str> = got.doc_lines.iter().map(|line| line.as_str()).collect();
    assert_eq!(want.doc, doc.as_slice());

    assert_eq!(want.placeholder, got.placeholder.as_deref());

    assert_eq!(want.value_type, got.value_type);
}

#[test]
fn derive_basic() {
    let mut flags = fetch_flags(
        vec![allow_dead_code()],
        vec![
            field(
                "to_stderr",
                plain("bool"),
                &["True if log messages should also be sent to STDERR"],
                vec![],
            ),
            field(
                "dir",
                plain("String"),
                &["The directory to write log files to"],
                vec![],
            ),
        ],
    );

    check_flag(
        Some(ExpectedFlag {
            doc: &["True if log messages should also be sent to STDERR"],
            name: "to-stderr",
            placeholder: None,
            value_type: "bool",
        }),
        flags.remove("to-stderr"),
    );

    check_flag(
        Some(ExpectedFlag {
            doc: &["The directory to write log files to"],
            name: "dir",
            placeholder: None,
            value_type: "&str",
        }),
        flags.remove("dir"),
    );
}

#[test]
fn derive_with_custom_type() {
    let mut flags = fetch_flags(
        vec![allow_dead_code()],
        vec![
            field(
                "to_stderr",
                plain("bool"),
                &["True if log messages should also be sent to STDERR"],
                vec![],
            ),
            field(
                "dir",
                plain("PathBuf"),
                &["The directory to write log files to"],
                vec![gflags_str("type", "&str")],
            ),
        ],
    );

    check_flag(
        Some(ExpectedFlag {
            doc: &["True if log messages should also be sent to STDERR"],
            name: "to-stderr",
            placeholder: None,
            value_type: "bool",
        }),
        flags.remove("to-stderr"),
    );

    // The flag should be an `&str` not a `PathBuf`
    check_flag(
        Some(ExpectedFlag {
            doc: &["The directory to write log files to"],
            name: "dir",
            placeholder: None,
            value_type: "&str",
        }),
        flags.remove("dir"),
    );
}

#[test]
fn derive_with_default_derive_with_default() {
    let mut flags = fetch_flags(
        vec![allow_dead_code()],
        vec![
            field(
                "to_stderr",
                plain("bool"),
                &["True if log messages should also be sent to STDERR"],
                vec![gflags_lit("default", "true")],
            ),
            field(
                "dir",
                plain("PathBuf"),
                &["The directory to write log files to"],
                vec![gflags_str("type", "&str"), gflags_str("default", "/tmp")],
            ),
        ],
    );

    let to_stderr = flags.remove("to-stderr");
    let to_stderr_default = to_stderr.as_ref().and_then(|flag| flag.default_expr.clone());
    check_flag(
        Some(ExpectedFlag {
            doc: &["True if log messages should also be sent to STDERR"],
            name: "to-stderr",
            placeholder: None,
            value_type: "bool",
        }),
        to_stderr,
    );

    assert_eq!(
        to_stderr_default,
        Some(Literal::Other("true".to_string())),
        "TO_STDERR default value should be `true`"
    );

    let dir = flags.remove("dir");
    let dir_default = dir.as_ref().and_then(|flag| flag.default_expr.clone());
    check_flag(
        Some(ExpectedFlag {
            doc: &["The directory to write log files to"],
            name: "dir",
            placeholder: None,
            value_type: "&str",
        }),
        dir,
    );

    assert_eq!(
        dir_default,
        Some(Literal::Str("/tmp".to_string())),
        "DIR default value should be `/tmp`"
    );
}

#[test]
fn derive_with_multiple_comments() {
    let mut flags = fetch_flags(
        vec![allow_dead_code()],
        vec![field(
            "to_stderr",
            plain("bool"),
            &[
                "True if log messages should also be sent to STDERR",
                "Multiple lines of comments are supported",
            ],
            vec![],
        )],
    );

    check_flag(
        Some(ExpectedFlag {
            doc: &[
                "True if log messages should also be sent to STDERR",
                "Multiple lines of comments are supported",
            ],
            name: "to-stderr",
            placeholder: None,
            value_type: "bool",
        }),
        flags.remove("to-stderr"),
    );
}

#[test]
fn derive_with_option() {
    let mut flags = fetch_flags(
        vec![allow_dead_code()],
        vec![
            field(
                "to_stderr",
                option_of("bool"),
                &["True if log messages should also be sent to STDERR"],
                vec![],
            ),
            field(
                "dir",
                option_of("String"),
                &["The directory to write log files to"],
                vec![],
            ),
        ],
    );

    // `Option<bool>` should have been converted to `bool`
    check_flag(
        Some(ExpectedFlag {
            doc: &["True if log messages should also be sent to STDERR"],
            name: "to-stderr",
            placeholder: None,
            value_type: "bool",
        }),
        flags.remove("to-stderr"),
    );

    // `Option<String>` should have been converted to `&str`
    check_flag(
        Some(ExpectedFlag {
            doc: &["The directory to write log files to"],
            name: "dir",
            placeholder: None,
            value_type: "&str",
        }),
        flags.remove("dir"),
    );
}

#[test]
fn derive_with_placeholder_derive_with_default() {
    let mut flags = fetch_flags(
        vec![allow_dead_code()],
        vec![field(
            "dir",
            plain("PathBuf"),
            &["The directory to write log files to"],
            vec![gflags_str("type", "&str"), gflags_str("placeholder", "DIR")],
        )],
    );

    // The flag should be an `&str` not a `PathBuf`
    check_flag(
        Some(ExpectedFlag {
            doc: &["The directory to write log files to"],
            name: "dir",
            placeholder: Some("DIR"),
            value_type: "&str",
        }),
        flags.remove("dir"),
    );
}

#[test]
fn derive_with_prefix_kebabcase() {
    let mut flags = fetch_flags(
        vec![gflags_str("prefix", "log-"), allow_dead_code()],
        vec![
            field(
                "to_stderr",
                plain("bool"),
                &["True if log messages should also be sent to STDERR"],
                vec![],
            ),
            field(
                "dir",
                plain("String"),
                &["The directory to write log files to"],
                vec![],
            ),
        ],
    );

    check_flag(
        Some(ExpectedFlag {
            doc: &["True if log messages should also be sent to STDERR"],
            name: "log-to-stderr",
            placeholder: None,
            value_type: "bool",
        }),
        flags.remove("log-to-stderr"),
    );

    check_flag(
        Some(ExpectedFlag {
            doc: &["The directory to write log files to"],
            name: "log-dir",
            placeholder: None,
            value_type: "&str",
        }),
        flags.remove("log-dir"),
    );
}

#[test]
fn derive_with_prefix_snakecase() {
    let mut flags = fetch_flags(
        vec![gflags_str("prefix", "log_"), allow_dead_code()],
        vec![
            field(
                "to_stderr",
                plain("bool"),
                &["True if log messages should also be sent to STDERR"],
                vec![],
            ),
            field(
                "dir",
                plain("String"),
                &["The directory to write log files to"],
                vec![],
            ),
        ],
    );

    check_flag(
        Some(ExpectedFlag {
            doc: &["True if log messages should also be sent to STDERR"],
            name: "log_to_stderr",
            placeholder: None,
            value_type: "bool",
        }),
        flags.remove("log_to_stderr"),
    );

    check_flag(
        Some(ExpectedFlag {
            doc: &["The directory to write log files to"],
            name: "log_dir",
            placeholder: None,
            value_type: "&str",
        }),
        flags.remove("log_dir"),
    );
}

#[test]
fn derive_with_skip() {
    let mut flags = fetch_flags(
        vec![allow_dead_code()],
        vec![
            field(
                "to_stderr",
                plain("bool"),
                &["True if log messages should also be sent to STDERR"],
                vec![],
            ),
            field(
                "dir",
                plain("String"),
                &["The directory to write log files to"],
                vec![gflags_bare("skip")],
            ),
        ],
    );

    check_flag(
        Some(ExpectedFlag {
            doc: &["True if log messages should also be sent to STDERR"],
            name: "to-stderr",
            placeholder: None,
            value_type: "bool",
        }),
        flags.remove("to-stderr"),
    );

    check_flag(None, flags.remove("dir"));
}

#[test]
fn derive_with_visibility() {
    let mut flags = fetch_flags(
        vec![allow_dead_code()],
        vec![
            field(
                "to_stderr",
                plain("bool"),
                &["True if log messages should also be sent to STDERR"],
                vec![],
            ),
            field(
                "dir",
                plain("String"),
                &["The directory to write log files to"],
                vec![gflags_str("visibility", "pub(super)")],
            ),
        ],
    );

    // `TO_STDERR` keeps the visibility of the module it is generated in, `DIR`
    // is visible in the parent module.
    let to_stderr = flags.get("to-stderr").expect("flag --to-stderr");
    assert_eq!(to_stderr.visibility, None);
    let dir = flags.get("dir").expect("flag --dir");
    assert_eq!(dir.visibility.as_deref(), Some("pub(super)"));

    check_flag(
        Some(ExpectedFlag {
            doc: &["The directory to write log files to"],
            name: "dir",
            placeholder: None,
            value_type: "&str",
        }),
        flags.remove("dir"),
    );
}
