use to_appimage::desktop_entry::to_string;
use to_appimage::desktop_entry::Error;
use to_appimage::value::Value;

fn desktop_doc(inner: Value) -> Value {
    Value::Struct(
        "Root".to_string(),
        vec![("Desktop Entry".to_string(), inner)],
    )
}

fn record(fs: Vec<(&str, Value)>) -> Value {
    Value::Struct(
        "Inner".to_string(),
        fs.into_iter().map(|(k, v)| (k.to_string(), v)).collect(),
    )
}

fn s(text: &str) -> Value {
    Value::Str(text.to_string())
}

#[test]
fn basic() {
    assert_eq!(
        &to_string(&desktop_doc(record(vec![
            ("Test", s("test string")),
            ("c", s("Another one")),
        ])))
        .unwrap(),
        "[Desktop Entry]
Test=test string
c=Another one

"
    );
}

#[test]
fn translations() {
    let map = Value::Dict(vec![
        (s("es"), s("A")),
        (s("en"), s("B")),
    ]);
    assert_eq!(
        &to_string(&desktop_doc(record(vec![("b", map)]))).unwrap(),
        "[Desktop Entry]
b[es]=A
b[en]=B


"
    );
}

#[test]
fn seq() {
    let list = Value::Sequence(vec![s("test"), s("string")]);
    assert_eq!(
        &to_string(&desktop_doc(record(vec![("b", list)]))).unwrap(),
        "[Desktop Entry]
b=test;string;

"
    );
}

#[test]
fn bool_tokens() {
    let out = to_string(&desktop_doc(record(vec![
        ("b", Value::Bool(true)),
        ("c", Value::Bool(false)),
    ])))
    .unwrap();
    assert_eq!(&out, "[Desktop Entry]\nb=true\nc=false\n\n");
}

#[test]
fn absent_renders_empty() {
    let out = to_string(&desktop_doc(record(vec![("b", Value::Absent)]))).unwrap();
    assert_eq!(&out, "[Desktop Entry]\nb=\n\n");
}

#[test]
fn empty_sequence_renders_empty() {
    let out = to_string(&desktop_doc(record(vec![(
        "b",
        Value::Sequence(vec![]),
    )])))
    .unwrap();
    assert_eq!(&out, "[Desktop Entry]\nb=\n\n");
}

#[test]
fn single_item_sequence() {
    let out = to_string(&desktop_doc(record(vec![(
        "b",
        Value::Sequence(vec![s("x")]),
    )])))
    .unwrap();
    assert_eq!(&out, "[Desktop Entry]\nb=x;\n\n");
}

#[test]
fn bytes_render_as_decimal_tokens() {
    let out = to_string(&desktop_doc(record(vec![(
        "b",
        Value::Bytes(vec![0, 255, 7]),
    )])))
    .unwrap();
    assert_eq!(&out, "[Desktop Entry]\nb=0;255;7;\n\n");
}

#[test]
fn empty_bytes_render_empty() {
    let out = to_string(&desktop_doc(record(vec![("b", Value::Bytes(vec![]))]))).unwrap();
    assert_eq!(&out, "[Desktop Entry]\nb=\n\n");
}

#[test]
fn number_tokens() {
    let out = to_string(&desktop_doc(record(vec![
        ("a", Value::Int64(0)),
        ("b", Value::Int64(-42)),
        ("c", Value::Int64(i64::MIN)),
        ("d", Value::UInt64(u64::MAX)),
    ])))
    .unwrap();
    assert_eq!(
        &out,
        "[Desktop Entry]\na=0\nb=-42\nc=-9223372036854775808\nd=18446744073709551615\n\n"
    );
}

#[test]
fn char_and_unit_variant_tokens() {
    let out = to_string(&desktop_doc(record(vec![
        ("a", Value::Char('x')),
        (
            "b",
            Value::UnitVariant("ComponentType".to_string(), "desktop-application".to_string()),
        ),
    ])))
    .unwrap();
    assert_eq!(&out, "[Desktop Entry]\na=x\nb=desktop-application\n\n");
}

#[test]
fn present_is_transparent() {
    let out = to_string(&desktop_doc(record(vec![(
        "b",
        Value::Present(Box::new(s("x"))),
    )])))
    .unwrap();
    assert_eq!(&out, "[Desktop Entry]\nb=x\n\n");
}

#[test]
fn two_sections_in_field_order() {
    let doc = Value::Struct(
        "Root".to_string(),
        vec![
            ("One".to_string(), record(vec![("k", s("v"))])),
            ("Two".to_string(), record(vec![("k2", s("v2"))])),
        ],
    );
    assert_eq!(&to_string(&doc).unwrap(), "[One]\nk=v\n\n[Two]\nk2=v2\n\n");
}

#[test]
fn tuple_renders_like_sequence() {
    let out = to_string(&desktop_doc(record(vec![(
        "b",
        Value::Tuple(vec![s("x"), s("y")]),
    )])))
    .unwrap();
    assert_eq!(&out, "[Desktop Entry]\nb=x;y;\n\n");
}

#[test]
fn named_unit_renders_empty() {
    let out = to_string(&desktop_doc(record(vec![(
        "b",
        Value::NamedUnit("Marker".to_string()),
    )])))
    .unwrap();
    assert_eq!(&out, "[Desktop Entry]\nb=\n\n");
}

#[test]
fn dict_root_renders_headers() {
    let doc = Value::Dict(vec![(
        s("Desktop Entry"),
        Value::Dict(vec![(s("a"), s("1"))]),
    )]);
    assert_eq!(&to_string(&doc).unwrap(), "[Desktop Entry]\na=1\n\n");
}

#[test]
fn scalar_under_header() {
    let doc = Value::Struct("Root".to_string(), vec![("G".to_string(), s("v"))]);
    assert_eq!(&to_string(&doc).unwrap(), "[G]\nv\n");
}

#[test]
fn struct_variant_renders_braced() {
    let out = to_string(&desktop_doc(record(vec![(
        "b",
        Value::StructVariant(
            "E".to_string(),
            "V".to_string(),
            vec![("x".to_string(), s("1"))],
        ),
    )])))
    .unwrap();
    assert_eq!(&out, "[Desktop Entry]\n{V:{x:1}}\n\n");
}

#[test]
fn tuple_variant_renders_bracketed() {
    let out = to_string(&desktop_doc(record(vec![(
        "b",
        Value::TupleVariant("E".to_string(), "V".to_string(), vec![s("1"), s("2")]),
    )])))
    .unwrap();
    assert_eq!(&out, "[Desktop Entry]\nb={V:[;1;2;]}\n\n");
}

#[test]
fn fourth_level_fails() {
    let level4 = Value::Struct("Four".to_string(), vec![]);
    let level3 = Value::Struct("Three".to_string(), vec![("f".to_string(), level4)]);
    let level2 = Value::Dict(vec![(s("k2"), level3)]);
    let level1 = Value::Dict(vec![(s("k1"), level2)]);
    let err = to_string(&level1).unwrap_err();
    assert!(matches!(err, Error::StructuralDepthExceeded { level: 4 }));
}

#[test]
fn non_string_key_is_refused() {
    let doc = Value::Dict(vec![(Value::Bool(true), s("x"))]);
    let err = to_string(&doc).unwrap_err();
    assert!(matches!(err, Error::Custom(_)));
}

#[test]
fn newtype_variant_renders_tagged() {
    let out = to_string(&desktop_doc(record(vec![(
        "b",
        Value::NewtypeVariant("E".to_string(), "V".to_string(), Box::new(s("x"))),
    )])))
    .unwrap();
    assert_eq!(&out, "[Desktop Entry]\nb=V=x\n\n");
}
