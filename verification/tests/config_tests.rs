use refstruct::config::{ConfigError, StructWriter};

#[test]
fn parses_minimal_spec_with_defaults() {
    let w = StructWriter::from_toml("name = \"Foo\"\nfields = [[\"data\", \"String\"]]\n").unwrap();
    assert_eq!(w.name().as_str(), "Foo");
    assert_eq!(w.module().as_str(), "foo");
    assert_eq!(w.lt().as_str(), "'foo");
    assert_eq!(w.sprefix().as_str(), "Foo");
    assert!(w.imports().is_empty());
    assert_eq!(w.n_fields(), 1);
    assert_eq!(w.fields()[0].0.as_str(), "data");
    assert_eq!(w.fields()[0].1.as_str(), "String");
}

#[test]
fn an_explicit_namespace_is_used_as_written() {
    let w = StructWriter::from_toml(
        "name = \"Foo\"\nnamespace = \"mySpace\"\nfields = [[\"a\", \"u8\"]]\n",
    )
    .unwrap();
    assert_eq!(w.module().as_str(), "mySpace");
    assert_eq!(w.lt().as_str(), "'mySpace");
    assert_eq!(w.sprefix().as_str(), "MySpace");
}

#[test]
fn only_the_defaulted_namespace_is_lowercased() {
    let w = StructWriter::from_toml("name = \"MyThing\"\nfields = [[\"a\", \"u8\"]]\n").unwrap();
    assert_eq!(w.module().as_str(), "mything");
    assert_eq!(w.lt().as_str(), "'mything");
    assert_eq!(w.sprefix().as_str(), "Mything");
}

#[test]
fn module_and_lifetime_can_be_given() {
    let w = StructWriter::from_toml(
        "name = \"Foo\"\nmodule = \"inner\"\nlifetime = \"x\"\nfields = [[\"a\", \"u8\"]]\n",
    )
    .unwrap();
    assert_eq!(w.module().as_str(), "inner");
    assert_eq!(w.lt().as_str(), "'x");
    assert_eq!(w.sprefix().as_str(), "Foo");
}

#[test]
fn imports_keep_strings_in_order() {
    let w = StructWriter::from_toml(
        "name = \"Foo\"\nuse = [\"std::fmt\", \"x::y\"]\nfields = [[\"a\", \"u8\"]]\n",
    )
    .unwrap();
    assert_eq!(w.imports().len(), 2);
    assert_eq!(w.imports()[0].as_str(), "std::fmt");
    assert_eq!(w.imports()[1].as_str(), "x::y");
}

#[test]
fn imports_pass_over_entries_that_are_no_strings() {
    let w = StructWriter::from_toml(
        "name = \"Foo\"\nuse = [\"std::fmt\", 3, \"x::y\"]\nfields = [[\"a\", \"u8\"]]\n",
    )
    .unwrap();
    assert_eq!(w.imports().len(), 2);
    assert_eq!(w.imports()[0].as_str(), "std::fmt");
    assert_eq!(w.imports()[1].as_str(), "x::y");
}

#[test]
fn missing_name_is_invalid_name() {
    let r = StructWriter::from_toml("fields = [[\"a\", \"u8\"]]\n");
    assert_eq!(r.unwrap_err(), ConfigError::InvalidName);
}

#[test]
fn non_string_name_is_invalid_name() {
    let r = StructWriter::from_toml("name = 3\nfields = [[\"a\", \"u8\"]]\n");
    assert_eq!(r.unwrap_err(), ConfigError::InvalidName);
}

#[test]
fn empty_name_is_invalid_name() {
    let r = StructWriter::from_toml("name = \"\"\nfields = [[\"a\", \"u8\"]]\n");
    assert_eq!(r.unwrap_err(), ConfigError::InvalidName);
}

#[test]
fn non_string_namespace_is_invalid_name() {
    let r = StructWriter::from_toml("name = \"Foo\"\nnamespace = 3\nfields = [[\"a\", \"u8\"]]\n");
    assert_eq!(r.unwrap_err(), ConfigError::InvalidName);
}

#[test]
fn empty_namespace_is_invalid_name() {
    let r = StructWriter::from_toml(
        "name = \"Foo\"\nnamespace = \"\"\nfields = [[\"a\", \"u8\"]]\n",
    );
    assert_eq!(r.unwrap_err(), ConfigError::InvalidName);
}

#[test]
fn non_string_module_is_invalid_name() {
    let r = StructWriter::from_toml("name = \"Foo\"\nmodule = []\nfields = [[\"a\", \"u8\"]]\n");
    assert_eq!(r.unwrap_err(), ConfigError::InvalidName);
}

#[test]
fn non_string_lifetime_is_invalid_name() {
    let r = StructWriter::from_toml("name = \"Foo\"\nlifetime = 1\nfields = [[\"a\", \"u8\"]]\n");
    assert_eq!(r.unwrap_err(), ConfigError::InvalidName);
}

#[test]
fn missing_fields_is_invalid_fields() {
    let r = StructWriter::from_toml("name = \"Foo\"\n");
    assert_eq!(r.unwrap_err(), ConfigError::InvalidFields);
}

#[test]
fn non_list_fields_is_invalid_fields() {
    let r = StructWriter::from_toml("name = \"Foo\"\nfields = 3\n");
    assert_eq!(r.unwrap_err(), ConfigError::InvalidFields);
}

#[test]
fn empty_fields_list_is_invalid_fields() {
    let r = StructWriter::from_toml("name = \"Foo\"\nfields = []\n");
    assert_eq!(r.unwrap_err(), ConfigError::InvalidFields);
}

#[test]
fn field_entry_that_is_no_list_is_invalid() {
    let r = StructWriter::from_toml("name = \"Foo\"\nfields = [\"a\"]\n");
    assert_eq!(r.unwrap_err(), ConfigError::InvalidFieldEntry);
}

#[test]
fn field_entry_of_one_element_is_invalid() {
    let r = StructWriter::from_toml("name = \"Foo\"\nfields = [[\"a\"]]\n");
    assert_eq!(r.unwrap_err(), ConfigError::InvalidFieldEntry);
}

#[test]
fn field_entry_of_three_elements_is_invalid() {
    let r = StructWriter::from_toml("name = \"Foo\"\nfields = [[\"a\", \"u8\", \"c\"]]\n");
    assert_eq!(r.unwrap_err(), ConfigError::InvalidFieldEntry);
}

#[test]
fn field_entry_with_non_string_type_is_invalid() {
    let r = StructWriter::from_toml("name = \"Foo\"\nfields = [[\"a\", 3]]\n");
    assert_eq!(r.unwrap_err(), ConfigError::InvalidFieldEntry);
}

#[test]
fn field_entry_with_non_string_identifier_is_invalid() {
    let r = StructWriter::from_toml("name = \"Foo\"\nfields = [[3, \"u8\"]]\n");
    assert_eq!(r.unwrap_err(), ConfigError::InvalidFieldEntry);
}

#[test]
fn field_named_new_is_reserved() {
    let r = StructWriter::from_toml("name = \"Foo\"\nfields = [[\"new\", \"u8\"]]\n");
    assert_eq!(r.unwrap_err(), ConfigError::ReservedFieldName);
}

#[test]
fn field_named_build_is_reserved() {
    let r = StructWriter::from_toml(
        "name = \"Foo\"\nfields = [[\"a\", \"u8\"], [\"build\", \"u8\"]]\n",
    );
    assert_eq!(r.unwrap_err(), ConfigError::ReservedFieldName);
}

#[test]
fn earlier_entry_error_wins_over_later_reserved_name() {
    let r = StructWriter::from_toml(
        "name = \"Foo\"\nfields = [[\"a\"], [\"new\", \"u8\"]]\n",
    );
    assert_eq!(r.unwrap_err(), ConfigError::InvalidFieldEntry);
}

#[test]
fn duplicate_field_identifiers_are_rejected() {
    let r = StructWriter::from_toml(
        "name = \"Foo\"\nfields = [[\"a\", \"u8\"], [\"b\", \"u8\"], [\"a\", \"u16\"]]\n",
    );
    assert_eq!(r.unwrap_err(), ConfigError::DuplicateFieldName);
}

#[test]
fn distinct_identifiers_with_equal_types_are_fine() {
    let w = StructWriter::from_toml(
        "name = \"Foo\"\nfields = [[\"a\", \"u8\"], [\"b\", \"u8\"]]\n",
    )
    .unwrap();
    assert_eq!(w.n_fields(), 2);
}

#[test]
fn a_malformed_entry_wins_over_an_earlier_duplicate() {
    // entries are validated one by one before identifiers are compared
    let r = StructWriter::from_toml(
        "name = \"Foo\"\nfields = [[\"a\", \"u8\"], [\"a\", \"u16\"], [\"x\"]]\n",
    );
    assert_eq!(r.unwrap_err(), ConfigError::InvalidFieldEntry);
}

#[test]
fn malformed_document_is_a_syntax_error() {
    let r = StructWriter::from_toml("name = \n");
    assert!(matches!(r.unwrap_err(), ConfigError::Syntax(..)));
}

#[test]
fn parsing_is_deterministic() {
    let text = "name = \"Foo\"\nfields = [[\"data\", \"String\"]]\n";
    let a = StructWriter::from_toml(text).unwrap();
    let b = StructWriter::from_toml(text).unwrap();
    assert_eq!(a.write_struct(), b.write_struct());
}
