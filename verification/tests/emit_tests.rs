use refstruct::config::{ConfigError, StructWriter};
use refstruct::emit::{generate_unit, generate_units};

fn writer(text: &str) -> StructWriter {
    StructWriter::from_toml(text).unwrap()
}

#[test]
fn whole_unit_for_a_single_field_spec() {
    let w = writer("name = \"Foo\"\nfields = [[\"data\", \"String\"]]\n");
    let expected: String = [
        "#[allow(dead_code)]\npub mod foo {\n",
        "\n    struct FooRaw<'foo> {\n        data: String,\n    }\n",
        "\n    struct FooPtr {}\n    impl FooPtr {",
        "\n        unsafe fn data<'foo>(a: & 'foo  Box<[u8]>) -> & 'foo  String {\n",
        "            assert_eq!(::std::mem::size_of::<FooRaw<'static>>(), a.len());\n",
        "            & (& *(& a[0] as *const _ as *const FooRaw<'foo>)).data\n        }\n",
        "    }\n",
        "\n    #[derive(Debug)]\n    pub struct FooStep1(Box<[u8]>, ",
        "::std::marker::PhantomData<FooRaw<'static>>);\n    impl FooStep1 {",
        "\n        pub fn new(p: String) -> FooStep1 {\n",
        "            let v = vec!(0; ::std::mem::size_of::<FooRaw<'static>>());\n",
        "            let mut r = v.into_boxed_slice();\n",
        "            unsafe { ::std::ptr::write(&mut (&mut *(&mut r[0] as *mut _ as *mut ",
        "FooRaw<'static>)).data, p) };\n",
        "            FooStep1(r, ::std::marker::PhantomData)\n        }",
        "\n        pub fn build(self) -> super::Foo { super::Foo(self) }",
        "\n        pub fn data<'foo>(&'foo self) -> &'foo String {\n",
        "            unsafe { FooPtr::data(&self.0) }\n        }",
        "\n    }\n",
        "\n    impl Drop for FooStep1 {\n        fn drop(&mut self) {\n",
        "            let _ = unsafe { ::std::ptr::read(FooPtr::data(&self.0)) };\n        }\n    }",
        "\n}\n",
        "\n#[derive(Debug)]\npub struct Foo(foo::FooStep1);\nimpl Foo {\n",
        "    #[allow(dead_code)]\n    #[inline]\n",
        "    pub fn new(a: String) -> foo::FooStep1 { foo::FooStep1::new(a) }",
        "\n\n    #[allow(dead_code)]\n    #[inline]\n",
        "    pub fn data<'foo>(&'foo self) -> &'foo String { self.0.data() }",
        "\n}\n",
    ]
    .concat();
    assert_eq!(w.write_struct(), expected);
}

#[test]
fn ptrwrite_emits_the_raw_field_write() {
    let w = writer("name = \"Foo\"\nfields = [[\"data\", \"String\"]]\n");
    assert_eq!(
        w.write_ptrwrite("r", "data", "p"),
        "unsafe { ::std::ptr::write(&mut (&mut *(&mut r[0] as *mut _ as *mut \
         FooRaw<'static>)).data, p) }"
    );
}

#[test]
fn two_field_unit_wires_the_stages_together() {
    let w = writer(
        "name = \"Foo\"\nfields = [[\"data\", \"String\"], [\"found\", \"Vec<&'_ str>\"]]\n",
    );
    let out = w.write_struct();
    // the transition of stage one is named after field two and yields stage two
    assert!(out.contains("pub fn found<F>(mut self, f: F) -> FooStep2"));
    assert!(out.contains("where F: for<'foo> FnOnce(&'foo Self) -> Vec<&'foo str>"));
    assert!(out.contains("let r: Vec<&'static str> = unsafe { ::std::mem::transmute(f(&self)) };"));
    // the public struct wraps the final stage
    assert!(out.contains("pub struct Foo(foo::FooStep2);"));
    assert!(out.contains("pub fn new(a: String) -> foo::FooStep1 { foo::FooStep1::new(a) }"));
    // both accessors forward to the final stage
    assert!(out.contains("pub fn data<'foo>(&'foo self) -> &'foo String { self.0.data() }"));
    assert!(out.contains(
        "pub fn found<'foo>(&'foo self) -> &'foo Vec<&'foo str> { self.0.found() }"
    ));
    // releasing stage two reads field two, then hands the buffer to stage one
    assert!(out.contains("impl Drop for FooStep2"));
    assert!(out.contains("let _ = unsafe { ::std::ptr::read(FooPtr::found(&self.0)) };"));
    assert!(out.contains(
        "let _ = FooStep1(::std::mem::replace(&mut self.0, Box::new([])), \
         ::std::marker::PhantomData);"
    ));
}

#[test]
fn stage_getters_cover_exactly_the_initialized_prefix() {
    let w = writer(
        "name = \"Foo\"\nfields = [[\"data\", \"String\"], [\"found\", \"Vec<&'_ str>\"]]\n",
    );
    let step1 = w.write_step(1);
    let step2 = w.write_step(2);
    let getter1 = "pub fn data<'foo>(&'foo self) -> &'foo String {";
    let getter2 = "pub fn found<'foo>(&'foo self) -> &'foo Vec<&'foo str> {";
    assert!(step1.contains(getter1));
    assert!(!step1.contains(getter2));
    assert!(step2.contains(getter1));
    assert!(step2.contains(getter2));
}

#[test]
fn only_the_first_stage_constructs_and_only_the_last_builds() {
    let w = writer(
        "name = \"Foo\"\nfields = [[\"a\", \"u8\"], [\"b\", \"u8\"], [\"c\", \"u8\"]]\n",
    );
    let step1 = w.write_step(1);
    let step2 = w.write_step(2);
    let step3 = w.write_step(3);
    assert!(step1.contains("pub fn new(p: u8) -> FooStep1"));
    assert!(!step2.contains("pub fn new("));
    assert!(!step3.contains("pub fn new("));
    assert!(!step1.contains("pub fn build(self)"));
    assert!(!step2.contains("pub fn build(self)"));
    assert!(step3.contains("pub fn build(self) -> super::Foo { super::Foo(self) }"));
}

#[test]
fn a_three_field_chain_emits_all_three_stages() {
    let w = writer(
        "name = \"Chain\"\nfields = [[\"first\", \"String\"], [\"second\", \"&'_ str\"], \
         [\"third\", \"&'_ str\"]]\n",
    );
    let out = w.write_struct();
    assert!(out.contains("pub struct ChainStep1"));
    assert!(out.contains("pub struct ChainStep2"));
    assert!(out.contains("pub struct ChainStep3"));
    assert!(out.contains("pub fn second<F>(mut self, f: F) -> ChainStep2"));
    assert!(out.contains("pub fn third<F>(mut self, f: F) -> ChainStep3"));
    assert!(out.contains("pub struct Chain(chain::ChainStep3);"));
}

#[test]
fn placeholder_is_substituted_in_layout_views_and_getters() {
    let w = writer("name = \"Foo\"\nfields = [[\"a\", \"&'_ str\"], [\"b\", \"X<&'_ u8, &'_ u8>\"]]\n");
    let out = w.write_struct();
    assert!(out.contains("        a: &'foo str,\n"));
    assert!(out.contains("        b: X<&'foo u8, &'foo u8>,\n"));
    assert!(out.contains("pub fn b<'foo>(&'foo self) -> &'foo X<&'foo u8, &'foo u8> {"));
    // the first field's type-expression is carried into the constructor as
    // written, placeholder and all
    assert!(out.contains("pub fn new(p: &'_ str) -> FooStep1 {"));
    assert!(out.contains("pub fn new(a: &'_ str) -> foo::FooStep1 { foo::FooStep1::new(a) }"));
}

#[test]
fn imports_are_copied_into_the_scope() {
    let w = writer(
        "name = \"Foo\"\nuse = [\"std::fmt\", \"super::Thing\"]\nfields = [[\"a\", \"u8\"]]\n",
    );
    let out = w.write_struct();
    assert!(out.contains("\n    use std::fmt;"));
    assert!(out.contains("\n    use super::Thing;"));
}

#[test]
fn view_block_checks_the_layout_size_unconditionally() {
    let w = writer("name = \"Foo\"\nfields = [[\"a\", \"u8\"]]\n");
    let out = w.write_ptr("FooPtr", "", "const");
    assert!(out.contains("assert_eq!(::std::mem::size_of::<FooRaw<'static>>(), a.len());"));
    assert!(!out.contains("debug_assert"));
}

#[test]
fn generate_unit_emits_for_a_valid_document() {
    let out = generate_unit("name = \"Foo\"\nfields = [[\"data\", \"String\"]]\n").unwrap();
    assert!(out.contains("pub mod foo {"));
    assert!(out.contains("pub struct Foo(foo::FooStep1);"));
}

#[test]
fn generate_unit_without_fields_yields_invalid_fields_and_no_output() {
    let r = generate_unit("name = \"Foo\"\n");
    assert_eq!(r.unwrap_err(), ConfigError::InvalidFields);
}

#[test]
fn one_failing_unit_does_not_block_the_others() {
    let blocks = vec![
        (2usize, "name = \"Foo\"\n".to_string()),
        (10usize, "name = \"Bar\"\nfields = [[\"a\", \"u8\"]]\n".to_string()),
        (20usize, "name = \n".to_string()),
    ];
    let results = generate_units(&blocks);
    assert_eq!(results.len(), 3);
    assert_eq!(results[0].0, 2);
    assert_eq!(results[0].1, Err(ConfigError::InvalidFields));
    assert_eq!(results[1].0, 10);
    assert!(results[1].1.as_ref().unwrap().contains("pub struct Bar(bar::BarStep1);"));
    assert_eq!(results[2].0, 20);
    assert!(matches!(results[2].1, Err(ConfigError::Syntax(..))));
}
