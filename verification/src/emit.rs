//! The emitters: every piece of the generated unit as an exact function of the
//! validated spec. Each executable writer returns precisely the text its spec
//! function describes; generation is pure and deterministic.

use vstd::prelude::*;
use crate::config::{StructWriter, WriterModel, ConfigError, ErrModel, spec_parse};
use crate::text::{subst, replace_self_ref, usize_to_string, dec_rep};

verus! {

/// One view function: reinterprets the buffer as the container layout and
/// returns field `k` by reference, after checking the buffer's length against
/// the layout's size.
pub open spec fn view_fn_text(
    sprefix: Seq<char>,
    lt: Seq<char>,
    mutstr: Seq<char>,
    ptrstr: Seq<char>,
    k: Seq<char>,
    v: Seq<char>,
) -> Seq<char> {
    "\n        unsafe fn "@ + k + "<"@ + lt + ">(a: & "@ + lt + " "@ + mutstr
        + " Box<[u8]>) -> & "@ + lt + " "@ + mutstr + " "@ + subst(v, lt)
        + " {\n            assert_eq!(::std::mem::size_of::<"@ + sprefix
        + "Raw<'static>>(), a.len());\n            &"@ + mutstr + " (&"@ + mutstr + " *(&"@ + mutstr
        + " a[0] as *"@ + ptrstr + " _ as *"@ + ptrstr + " "@ + sprefix + "Raw<"@ + lt + ">))."@ + k
        + "\n        }\n"@
}

/// The view functions of all fields from index `i` on, in declaration order.
pub open spec fn view_fns_from(
    m: WriterModel,
    mutstr: Seq<char>,
    ptrstr: Seq<char>,
    i: int,
) -> Seq<char>
    decreases m.fields.len() - i,
{
    if i < 0 || i >= m.fields.len() {
        Seq::empty()
    } else {
        view_fn_text(m.sprefix, m.lt, mutstr, ptrstr, m.fields[i].0, m.fields[i].1)
            + view_fns_from(m, mutstr, ptrstr, i + 1)
    }
}

/// The whole view block: an empty carrier type whose impl holds one view
/// function per field.
pub open spec fn ptr_block_text(
    m: WriterModel,
    ptr_ty: Seq<char>,
    mutstr: Seq<char>,
    ptrstr: Seq<char>,
) -> Seq<char> {
    "\n    struct "@ + ptr_ty + " {}\n    impl "@ + ptr_ty + " {"@ + view_fns_from(
        m,
        mutstr,
        ptrstr,
        0,
    ) + "    }\n"@
}

/// The raw field write emitted into constructors and transitions: a write to
/// the field's position that runs no destructor on the destination.
pub open spec fn ptrwrite_text(
    sprefix: Seq<char>,
    container: Seq<char>,
    k: Seq<char>,
    consume: Seq<char>,
) -> Seq<char> {
    "unsafe { ::std::ptr::write(&mut (&mut *(&mut "@ + container + "[0] as *mut _ as *mut "@
        + sprefix + "Raw<'static>))."@ + k + ", "@ + consume + ") }"@
}

/// The name of the stage type for step `step`.
pub open spec fn step_name(sprefix: Seq<char>, step: int) -> Seq<char> {
    sprefix + "Step"@ + dec_rep(step as nat)
}

/// The initial constructor of stage one: allocates a zero-filled buffer sized
/// to the container layout and writes the first field into place.
pub open spec fn step_new_text(m: WriterModel, stepstr: Seq<char>) -> Seq<char> {
    "\n        pub fn new(p: "@ + m.fields[0].1 + ") -> "@ + stepstr
        + " {\n            let v = vec!(0; ::std::mem::size_of::<"@ + m.sprefix
        + "Raw<'static>>());\n            let mut r = v.into_boxed_slice();\n            "@
        + ptrwrite_text(m.sprefix, "r"@, m.fields[0].0, "p"@) + ";\n            "@ + stepstr
        + "(r, ::std::marker::PhantomData)\n        }"@
}

/// The terminal build step of the last stage: moves the buffer into the public
/// struct with no copy.
pub open spec fn step_build_text(m: WriterModel) -> Seq<char> {
    "\n        pub fn build(self) -> super::"@ + m.name + " { super::"@ + m.name + "(self) }"@
}

/// The transition out of stage `step`: computes the next field's value through
/// a borrow of the stage, takes the buffer out of the neutralized handle, and
/// writes the value into the next field's position of that same buffer.
pub open spec fn step_advance_text(m: WriterModel, step: int) -> Seq<char> {
    "\n        pub fn "@ + m.fields[step].0 + "<F>(mut self, f: F) -> "@ + step_name(
        m.sprefix,
        step + 1,
    ) + "\n            where F: for<"@ + m.lt + "> FnOnce(&"@ + m.lt + " Self) -> "@ + subst(
        m.fields[step].1,
        m.lt,
    ) + "\n        {\n            let r: "@ + subst(m.fields[step].1, "'static"@)
        + " = unsafe { ::std::mem::transmute(f(&self)) };\n            let mut b = ::std::mem::replace(&mut self.0, Box::new([]));\n            ::std::mem::forget(self);\n            "@
        + ptrwrite_text(m.sprefix, "b"@, m.fields[step].0, "r"@) + ";\n            "@ + step_name(
        m.sprefix,
        step + 1,
    ) + "(b, ::std::marker::PhantomData)\n        }"@
}

/// The getter for field `i`, delegating to the matching view.
pub open spec fn getter_text(m: WriterModel, i: int) -> Seq<char> {
    "\n        pub fn "@ + m.fields[i].0 + "<"@ + m.lt + ">(&"@ + m.lt + " self) -> &"@ + m.lt
        + " "@ + subst(m.fields[i].1, m.lt) + " {\n            unsafe { "@ + m.sprefix + "Ptr::"@
        + m.fields[i].0 + "(&self.0) }\n        }"@
}

/// The getters for fields `i` up to (excluding) `upto`, in declaration order.
pub open spec fn getters_upto(m: WriterModel, i: int, upto: int) -> Seq<char>
    decreases upto - i,
{
    if i < 0 || i >= upto {
        Seq::empty()
    } else {
        getter_text(m, i) + getters_upto(m, i + 1, upto)
    }
}

/// The release logic of stage `step`: reads field `step` by value so it is
/// destroyed, then hands the buffer to a rebuilt previous stage, so fields are
/// released in reverse order and the buffer is freed exactly once.
pub open spec fn drop_text(m: WriterModel, step: int) -> Seq<char> {
    "\n    impl Drop for "@ + step_name(m.sprefix, step)
        + " {\n        fn drop(&mut self) {\n            let _ = unsafe { ::std::ptr::read("@
        + m.sprefix + "Ptr::"@ + m.fields[step - 1].0 + "(&self.0)) };"@ + (if step > 1 {
        "\n            let _ = "@ + step_name(m.sprefix, step - 1)
            + "(::std::mem::replace(&mut self.0, Box::new([])), ::std::marker::PhantomData);"@
    } else {
        Seq::<char>::empty()
    }) + "\n        }\n    }"@
}

/// One whole stage: the buffer-holding type, its constructor or transition or
/// terminal build as the step demands, the getters for the initialized prefix,
/// and the release logic.
pub open spec fn step_text(m: WriterModel, step: int) -> Seq<char> {
    "\n    #[derive(Debug)]\n    pub struct "@ + step_name(m.sprefix, step)
        + "(Box<[u8]>, ::std::marker::PhantomData<"@ + m.sprefix
        + "Raw<'static>>);\n    impl "@ + step_name(m.sprefix, step) + " {"@ + (if step == 1 {
        step_new_text(m, step_name(m.sprefix, step))
    } else {
        Seq::<char>::empty()
    }) + (if step == m.fields.len() {
        step_build_text(m)
    } else {
        Seq::<char>::empty()
    }) + (if step < m.fields.len() {
        step_advance_text(m, step)
    } else {
        Seq::<char>::empty()
    }) + getters_upto(m, 0, step) + "\n    }\n"@ + drop_text(m, step)
}

/// The scope-qualified stage-type prefix the outer struct refers to.
pub open spec fn outer_step_path(m: WriterModel) -> Seq<char> {
    m.module + "::"@ + m.sprefix + "Step"@
}

/// One read accessor of the public struct, forwarding to the final stage's
/// matching getter.
pub open spec fn outer_getter_text(m: WriterModel, i: int) -> Seq<char> {
    "\n\n    #[allow(dead_code)]\n    #[inline]\n    pub fn "@ + m.fields[i].0 + "<"@ + m.lt
        + ">(&"@ + m.lt + " self) -> &"@ + m.lt + " "@ + subst(m.fields[i].1, m.lt)
        + " { self.0."@ + m.fields[i].0 + "() }"@
}

/// The outer read accessors from field `i` on, in declaration order.
pub open spec fn outer_getters_from(m: WriterModel, i: int) -> Seq<char>
    decreases m.fields.len() - i,
{
    if i < 0 || i >= m.fields.len() {
        Seq::empty()
    } else {
        outer_getter_text(m, i) + outer_getters_from(m, i + 1)
    }
}

/// The public struct: a wrapper over the final stage, a `new` forwarding to
/// stage one's constructor, and one read accessor per field; no transition and
/// no mutation.
pub open spec fn outer_text(m: WriterModel) -> Seq<char> {
    "\n#[derive(Debug)]\npub struct "@ + m.name + "("@ + outer_step_path(m) + dec_rep(
        m.fields.len(),
    ) + ");\nimpl "@ + m.name + " {\n    #[allow(dead_code)]\n    #[inline]\n    pub fn new(a: "@
        + m.fields[0].1 + ") -> "@ + outer_step_path(m) + "1 { "@ + outer_step_path(m)
        + "1::new(a) }"@ + outer_getters_from(m, 0) + "\n}\n"@
}

/// One import directive, copied verbatim into the emitted scope.
pub open spec fn import_text(i: Seq<char>) -> Seq<char> {
    "\n    use "@ + i + ";"@
}

/// The import directives from index `i` on, in order.
pub open spec fn imports_from(m: WriterModel, i: int) -> Seq<char>
    decreases m.imports.len() - i,
{
    if i < 0 || i >= m.imports.len() {
        Seq::empty()
    } else {
        import_text(m.imports[i]) + imports_from(m, i + 1)
    }
}

/// One field declaration of the container layout.
pub open spec fn raw_field_text(m: WriterModel, i: int) -> Seq<char> {
    "        "@ + m.fields[i].0 + ": "@ + subst(m.fields[i].1, m.lt) + ",\n"@
}

/// The container layout's field declarations from index `i` on.
pub open spec fn raw_fields_from(m: WriterModel, i: int) -> Seq<char>
    decreases m.fields.len() - i,
{
    if i < 0 || i >= m.fields.len() {
        Seq::empty()
    } else {
        raw_field_text(m, i) + raw_fields_from(m, i + 1)
    }
}

/// The stages from step `k` up to the final one, in order.
pub open spec fn steps_from(m: WriterModel, k: int) -> Seq<char>
    decreases m.fields.len() - k + 1,
{
    if k < 1 || k > m.fields.len() {
        Seq::empty()
    } else {
        step_text(m, k) + steps_from(m, k + 1)
    }
}

/// One whole generated unit: the scope wrapper, the imports, the container
/// layout, the view block, every stage, and, outside the scope, the public
/// struct.
pub open spec fn unit_text(m: WriterModel) -> Seq<char> {
    "#[allow(dead_code)]\npub mod "@ + m.module + " {\n"@ + imports_from(m, 0) + "\n"@
        + "    struct "@ + m.sprefix + "Raw<"@ + m.lt + "> {\n"@ + raw_fields_from(m, 0)
        + "    }\n"@ + ptr_block_text(m, m.sprefix + "Ptr"@, ""@, "const"@) + steps_from(m, 1)
        + "\n}\n"@ + outer_text(m)
}

impl StructWriter {
    /// Emits the raw field write for field `k`, into `container`, consuming the
    /// expression `consume`.
    pub fn write_ptrwrite(&self, container: &str, k: &str, consume: &str) -> (r: String)
        ensures
            r@ == ptrwrite_text(self@.sprefix, container@, k@, consume@),
    {
        let mut s = "unsafe { ::std::ptr::write(&mut (&mut *(&mut ".to_owned();
        s.append(container);
        s.append("[0] as *mut _ as *mut ");
        s.append(self.sprefix().as_str());
        s.append("Raw<'static>)).");
        s.append(k);
        s.append(", ");
        s.append(consume);
        s.append(") }");
        assert(s@ =~= ptrwrite_text(self@.sprefix, container@, k@, consume@));
        s
    }

    /// Emits one view function for field `k` of type-expression `v`.
    fn write_view_fn(&self, mutstr: &str, ptrstr: &str, k: &str, v: &str) -> (r: String)
        ensures
            r@ == view_fn_text(self@.sprefix, self@.lt, mutstr@, ptrstr@, k@, v@),
    {
        let lt = self.lt().as_str();
        let sprefix = self.sprefix().as_str();
        let mut s = "\n        unsafe fn ".to_owned();
        s.append(k);
        s.append("<");
        s.append(lt);
        s.append(">(a: & ");
        s.append(lt);
        s.append(" ");
        s.append(mutstr);
        s.append(" Box<[u8]>) -> & ");
        s.append(lt);
        s.append(" ");
        s.append(mutstr);
        s.append(" ");
        s.append(replace_self_ref(v, lt).as_str());
        s.append(" {\n            assert_eq!(::std::mem::size_of::<");
        s.append(sprefix);
        s.append("Raw<'static>>(), a.len());\n            &");
        s.append(mutstr);
        s.append(" (&");
        s.append(mutstr);
        s.append(" *(&");
        s.append(mutstr);
        s.append(" a[0] as *");
        s.append(ptrstr);
        s.append(" _ as *");
        s.append(ptrstr);
        s.append(" ");
        s.append(sprefix);
        s.append("Raw<");
        s.append(lt);
        s.append(">)).");
        s.append(k);
        s.append("\n        }\n");
        assert(s@ =~= view_fn_text(self@.sprefix, self@.lt, mutstr@, ptrstr@, k@, v@));
        s
    }

    /// Emits the view block: the carrier type named `ptr_ty` with one view
    /// function per field.
    pub fn write_ptr(&self, ptr_ty: &str, mutstr: &str, ptrstr: &str) -> (r: String)
        ensures
            r@ == ptr_block_text(self@, ptr_ty@, mutstr@, ptrstr@),
    {
        let ghost m = self@;
        let mut s = "\n    struct ".to_owned();
        s.append(ptr_ty);
        s.append(" {}\n    impl ");
        s.append(ptr_ty);
        s.append(" {");
        let ghost head = s@;
        let n = self.fields().len();
        assert(n == m.fields.len());
        let mut i: usize = 0;
        while i < n
            invariant
                n == m.fields.len(),
                m == self@,
                i <= n,
                s@ + view_fns_from(m, mutstr@, ptrstr@, i as int) == head + view_fns_from(
                    m,
                    mutstr@,
                    ptrstr@,
                    0,
                ),
            decreases n - i,
        {
            let fs = self.fields();
            assert(m.fields[i as int] == (fs@[i as int].0@, fs@[i as int].1@));
            let piece = self.write_view_fn(mutstr, ptrstr, fs[i].0.as_str(), fs[i].1.as_str());
            let ghost prev = s@;
            s.append(piece.as_str());
            proof {
                assert(s@ + view_fns_from(m, mutstr@, ptrstr@, i + 1) =~= prev + view_fns_from(
                    m,
                    mutstr@,
                    ptrstr@,
                    i as int,
                ));
            }
            i = i + 1;
        }
        assert(s@ =~= head + view_fns_from(m, mutstr@, ptrstr@, 0));
        s.append("    }\n");
        assert(s@ =~= ptr_block_text(self@, ptr_ty@, mutstr@, ptrstr@));
        s
    }

    /// The stage type name for `step`, as a string.
    fn step_name_string(&self, step: usize) -> (r: String)
        ensures
            r@ == step_name(self@.sprefix, step as int),
    {
        let mut t = self.sprefix().clone();
        t.append("Step");
        t.append(usize_to_string(step).as_str());
        assert(t@ =~= step_name(self@.sprefix, step as int));
        t
    }

    /// Emits the initial constructor of stage one.
    fn write_step_new(&self, stepstr: &str) -> (r: String)
        ensures
            r@ == step_new_text(self@, stepstr@),
    {
        let n = self.n_fields();
        let fs = self.fields();
        assert(self@.fields[0] == (fs@[0].0@, fs@[0].1@));
        let mut s = "\n        pub fn new(p: ".to_owned();
        s.append(fs[0].1.as_str());
        s.append(") -> ");
        s.append(stepstr);
        s.append(" {\n            let v = vec!(0; ::std::mem::size_of::<");
        s.append(self.sprefix().as_str());
        s.append("Raw<'static>>());\n            let mut r = v.into_boxed_slice();\n            ");
        s.append(self.write_ptrwrite("r", fs[0].0.as_str(), "p").as_str());
        s.append(";\n            ");
        s.append(stepstr);
        s.append("(r, ::std::marker::PhantomData)\n        }");
        assert(s@ =~= step_new_text(self@, stepstr@));
        s
    }

    /// Emits the terminal build step of the last stage.
    fn write_step_build(&self) -> (r: String)
        ensures
            r@ == step_build_text(self@),
    {
        let mut s = "\n        pub fn build(self) -> super::".to_owned();
        s.append(self.name().as_str());
        s.append(" { super::");
        s.append(self.name().as_str());
        s.append("(self) }");
        assert(s@ =~= step_build_text(self@));
        s
    }

    /// Emits the transition out of stage `step` into the next stage.
    fn write_step_advance(&self, step: usize) -> (r: String)
        requires
            step < self@.fields.len(),
        ensures
            r@ == step_advance_text(self@, step as int),
    {
        let n = self.n_fields();
        assert(step < n);
        let fs = self.fields();
        assert(self@.fields[step as int] == (fs@[step as int].0@, fs@[step as int].1@));
        let k = fs[step].0.as_str();
        let v = fs[step].1.as_str();
        let lt = self.lt().as_str();
        let next = self.step_name_string(step + 1);
        let mut s = "\n        pub fn ".to_owned();
        s.append(k);
        s.append("<F>(mut self, f: F) -> ");
        s.append(next.as_str());
        s.append("\n            where F: for<");
        s.append(lt);
        s.append("> FnOnce(&");
        s.append(lt);
        s.append(" Self) -> ");
        s.append(replace_self_ref(v, lt).as_str());
        s.append("\n        {\n            let r: ");
        s.append(replace_self_ref(v, "'static").as_str());
        s.append(
            " = unsafe { ::std::mem::transmute(f(&self)) };\n            let mut b = ::std::mem::replace(&mut self.0, Box::new([]));\n            ::std::mem::forget(self);\n            ",
        );
        s.append(self.write_ptrwrite("b", k, "r").as_str());
        s.append(";\n            ");
        s.append(next.as_str());
        s.append("(b, ::std::marker::PhantomData)\n        }");
        assert(s@ =~= step_advance_text(self@, step as int));
        s
    }

    /// Emits the getter for field `i`.
    fn write_getter(&self, i: usize) -> (r: String)
        requires
            i < self@.fields.len(),
        ensures
            r@ == getter_text(self@, i as int),
    {
        let fs = self.fields();
        assert(self@.fields[i as int] == (fs@[i as int].0@, fs@[i as int].1@));
        let lt = self.lt().as_str();
        let mut s = "\n        pub fn ".to_owned();
        s.append(fs[i].0.as_str());
        s.append("<");
        s.append(lt);
        s.append(">(&");
        s.append(lt);
        s.append(" self) -> &");
        s.append(lt);
        s.append(" ");
        s.append(replace_self_ref(fs[i].1.as_str(), lt).as_str());
        s.append(" {\n            unsafe { ");
        s.append(self.sprefix().as_str());
        s.append("Ptr::");
        s.append(fs[i].0.as_str());
        s.append("(&self.0) }\n        }");
        assert(s@ =~= getter_text(self@, i as int));
        s
    }

    /// Emits the release logic of stage `step`.
    fn write_drop(&self, step: usize) -> (r: String)
        requires
            1 <= step <= self@.fields.len(),
        ensures
            r@ == drop_text(self@, step as int),
    {
        let fs = self.fields();
        assert(self@.fields[step - 1] == (fs@[step - 1].0@, fs@[step - 1].1@));
        let mut s = "\n    impl Drop for ".to_owned();
        s.append(self.step_name_string(step).as_str());
        s.append(" {\n        fn drop(&mut self) {\n            let _ = unsafe { ::std::ptr::read(");
        s.append(self.sprefix().as_str());
        s.append("Ptr::");
        s.append(fs[step - 1].0.as_str());
        s.append("(&self.0)) };");
        if step > 1 {
            s.append("\n            let _ = ");
            s.append(self.step_name_string(step - 1).as_str());
            s.append("(::std::mem::replace(&mut self.0, Box::new([])), ::std::marker::PhantomData);");
        }
        s.append("\n        }\n    }");
        assert(s@ =~= drop_text(self@, step as int));
        s
    }

    /// Emits one whole stage: its type, its construction or transition or
    /// terminal build, its getters, and its release logic.
    pub fn write_step(&self, step: usize) -> (r: String)
        requires
            1 <= step <= self@.fields.len(),
        ensures
            r@ == step_text(self@, step as int),
    {
        let ghost m = self@;
        let stepstr = self.step_name_string(step);
        let mut s = "\n    #[derive(Debug)]\n    pub struct ".to_owned();
        s.append(stepstr.as_str());
        s.append("(Box<[u8]>, ::std::marker::PhantomData<");
        s.append(self.sprefix().as_str());
        s.append("Raw<'static>>);\n    impl ");
        s.append(stepstr.as_str());
        s.append(" {");
        if step == 1 {
            s.append(self.write_step_new(stepstr.as_str()).as_str());
        }
        let n = self.n_fields();
        if step == n {
            s.append(self.write_step_build().as_str());
        }
        if step < n {
            s.append(self.write_step_advance(step).as_str());
        }
        let ghost mid = s@;
        let mut i: usize = 0;
        while i < step
            invariant
                m == self@,
                step <= n == m.fields.len(),
                i <= step,
                s@ + getters_upto(m, i as int, step as int) == mid + getters_upto(
                    m,
                    0,
                    step as int,
                ),
            decreases step - i,
        {
            let g = self.write_getter(i);
            let ghost prev = s@;
            s.append(g.as_str());
            proof {
                assert(s@ + getters_upto(m, i + 1, step as int) =~= prev + getters_upto(
                    m,
                    i as int,
                    step as int,
                ));
            }
            i = i + 1;
        }
        assert(s@ =~= mid + getters_upto(m, 0, step as int));
        s.append("\n    }\n");
        s.append(self.write_drop(step).as_str());
        assert(s@ =~= step_text(m, step as int));
        s
    }

    /// Emits the public struct wrapping the final stage.
    pub fn write_outer(&self) -> (r: String)
        ensures
            r@ == outer_text(self@),
    {
        let ghost m = self@;
        let n = self.n_fields();
        let fs = self.fields();
        assert(m.fields[0] == (fs@[0].0@, fs@[0].1@));
        let mut path = self.module().clone();
        path.append("::");
        path.append(self.sprefix().as_str());
        path.append("Step");
        assert(path@ =~= outer_step_path(m));
        let mut s = "\n#[derive(Debug)]\npub struct ".to_owned();
        s.append(self.name().as_str());
        s.append("(");
        s.append(path.as_str());
        s.append(usize_to_string(n).as_str());
        s.append(");\nimpl ");
        s.append(self.name().as_str());
        s.append(" {\n    #[allow(dead_code)]\n    #[inline]\n    pub fn new(a: ");
        s.append(fs[0].1.as_str());
        s.append(") -> ");
        s.append(path.as_str());
        s.append("1 { ");
        s.append(path.as_str());
        s.append("1::new(a) }");
        let ghost mid = s@;
        let mut i: usize = 0;
        while i < n
            invariant
                m == self@,
                n == m.fields.len(),
                i <= n,
                s@ + outer_getters_from(m, i as int) == mid + outer_getters_from(m, 0),
            decreases n - i,
        {
            let fs2 = self.fields();
            assert(m.fields[i as int] == (fs2@[i as int].0@, fs2@[i as int].1@));
            let lt = self.lt().as_str();
            let mut g = "\n\n    #[allow(dead_code)]\n    #[inline]\n    pub fn ".to_owned();
            g.append(fs2[i].0.as_str());
            g.append("<");
            g.append(lt);
            g.append(">(&");
            g.append(lt);
            g.append(" self) -> &");
            g.append(lt);
            g.append(" ");
            g.append(replace_self_ref(fs2[i].1.as_str(), lt).as_str());
            g.append(" { self.0.");
            g.append(fs2[i].0.as_str());
            g.append("() }");
            assert(g@ =~= outer_getter_text(m, i as int));
            let ghost prev = s@;
            s.append(g.as_str());
            proof {
                assert(s@ + outer_getters_from(m, i + 1) =~= prev + outer_getters_from(
                    m,
                    i as int,
                ));
            }
            i = i + 1;
        }
        assert(s@ =~= mid + outer_getters_from(m, 0));
        s.append("\n}\n");
        assert(s@ =~= outer_text(m));
        s
    }

    /// Emits the whole generated unit for this spec: scope wrapper, imports,
    /// container layout, view block, every stage, and the public struct. A
    /// valid spec never fails generation.
    #[verifier::rlimit(60)]
    pub fn write_struct(&self) -> (r: String)
        ensures
            r@ == unit_text(self@),
    {
        let ghost m = self@;
        let n = self.n_fields();
        let mut s = "#[allow(dead_code)]\npub mod ".to_owned();
        s.append(self.module().as_str());
        s.append(" {\n");

        // import directives
        let ghost mid_imports = s@;
        let imports = self.imports();
        let n_imports = imports.len();
        assert(n_imports == m.imports.len());
        let mut i: usize = 0;
        while i < n_imports
            invariant
                m == self@,
                imports.deep_view() == m.imports,
                n_imports == m.imports.len(),
                n_imports == imports@.len(),
                i <= n_imports,
                s@ + imports_from(m, i as int) == mid_imports + imports_from(m, 0),
            decreases n_imports - i,
        {
            assert(m.imports[i as int] == imports@[i as int]@);
            let mut t = "\n    use ".to_owned();
            t.append(imports[i].as_str());
            t.append(";");
            assert(t@ =~= import_text(m.imports[i as int]));
            let ghost prev = s@;
            s.append(t.as_str());
            proof {
                assert(s@ + imports_from(m, i + 1) =~= prev + imports_from(m, i as int));
            }
            i = i + 1;
        }
        assert(s@ =~= mid_imports + imports_from(m, 0));

        // the container layout
        s.append("\n");
        s.append("    struct ");
        s.append(self.sprefix().as_str());
        s.append("Raw<");
        s.append(self.lt().as_str());
        s.append("> {\n");
        let ghost mid_raw = s@;
        let mut i: usize = 0;
        while i < n
            invariant
                m == self@,
                n == m.fields.len(),
                i <= n,
                s@ + raw_fields_from(m, i as int) == mid_raw + raw_fields_from(m, 0),
            decreases n - i,
        {
            let fs = self.fields();
            assert(m.fields[i as int] == (fs@[i as int].0@, fs@[i as int].1@));
            let mut t = "        ".to_owned();
            t.append(fs[i].0.as_str());
            t.append(": ");
            t.append(replace_self_ref(fs[i].1.as_str(), self.lt().as_str()).as_str());
            t.append(",\n");
            assert(t@ =~= raw_field_text(m, i as int));
            let ghost prev = s@;
            s.append(t.as_str());
            proof {
                assert(s@ + raw_fields_from(m, i + 1) =~= prev + raw_fields_from(m, i as int));
            }
            i = i + 1;
        }
        assert(s@ =~= mid_raw + raw_fields_from(m, 0));
        s.append("    }\n");

        // the view block
        let mut ptr_ty = self.sprefix().clone();
        ptr_ty.append("Ptr");
        assert(ptr_ty@ =~= m.sprefix + "Ptr"@);
        s.append(self.write_ptr(ptr_ty.as_str(), "", "const").as_str());

        // the stages
        let ghost mid_steps = s@;
        let mut k: usize = 0;
        while k < n
            invariant
                m == self@,
                n == m.fields.len(),
                k <= n,
                s@ + steps_from(m, k as int + 1) == mid_steps + steps_from(m, 1),
            decreases n - k,
        {
            let t = self.write_step(k + 1);
            let ghost prev = s@;
            s.append(t.as_str());
            proof {
                assert(s@ + steps_from(m, k + 2) =~= prev + steps_from(m, k as int + 1));
            }
            k = k + 1;
        }
        assert(s@ =~= mid_steps + steps_from(m, 1));

        // end of the scope, then the public struct outside it
        s.append("\n}\n");
        s.append(self.write_outer().as_str());
        assert(s@ =~= unit_text(m));
        s
    }
}

/// Order invariant, at the level of the emitted text: the getter section of
/// stage `step` holds exactly the getters of stage `step - 1` followed by the
/// getter of field `step` itself, so each stage offers getters for precisely
/// the fields constructed so far and no later one.
pub proof fn lemma_stage_getters(m: WriterModel, step: int)
    requires
        1 <= step,
    ensures
        getters_upto(m, 0, step) == getters_upto(m, 0, step - 1) + getter_text(m, step - 1),
{
    lemma_getters_snoc(m, 0, step);
}

/// Unrolling the getter section from the back.
proof fn lemma_getters_snoc(m: WriterModel, i: int, step: int)
    requires
        0 <= i < step,
    ensures
        getters_upto(m, i, step) == getters_upto(m, i, step - 1) + getter_text(m, step - 1),
    decreases step - i,
{
    if i == step - 1 {
        assert(getters_upto(m, i + 1, step) == Seq::<char>::empty());
        assert(getters_upto(m, i, step - 1) == Seq::<char>::empty());
        assert(getters_upto(m, i, step) == getter_text(m, i) + getters_upto(m, i + 1, step));
        assert(getters_upto(m, i, step) =~= getters_upto(m, i, step - 1) + getter_text(
            m,
            step - 1,
        ));
    } else {
        lemma_getters_snoc(m, i + 1, step);
        assert(getters_upto(m, i, step) =~= getters_upto(m, i, step - 1) + getter_text(
            m,
            step - 1,
        ));
    }
}

/// What one generation unit yields on the given text: the emitted source, or
/// the configuration error.
pub open spec fn unit_outcome(text: Seq<char>) -> Result<Seq<char>, ErrModel> {
    match spec_parse(text) {
        Ok(m) => Ok(unit_text(m)),
        Err(e) => Err(e),
    }
}

/// The shape of one unit's result.
pub open spec fn unit_result_model(r: Result<String, ConfigError>) -> Result<Seq<char>, ErrModel> {
    match r {
        Ok(text) => Ok(text@),
        Err(e) => Err(e.model()),
    }
}

/// One whole generation unit from the declarative text: parse, validate and
/// emit. A valid document always yields the unit's text; only a configuration
/// error is ever propagated.
pub fn generate_unit(input: &str) -> (r: Result<String, ConfigError>)
    ensures
        unit_result_model(r) == unit_outcome(input@),
{
    match StructWriter::from_toml(input) {
        Ok(w) => Ok(w.write_struct()),
        Err(e) => Err(e),
    }
}

/// Every scanned block generated on its own: each result carries the block's
/// starting line, and one unit's failure leaves every other unit's outcome
/// untouched.
pub fn generate_units(blocks: &Vec<(usize, String)>) -> (r: Vec<
    (usize, Result<String, ConfigError>),
>)
    ensures
        r@.len() == blocks@.len(),
        forall|i: int|
            0 <= i < r@.len() ==> (#[trigger] r@[i]).0 == blocks@[i].0 && unit_result_model(
                r@[i].1,
            ) == unit_outcome(blocks@[i].1@),
{
    let n = blocks.len();
    let mut out: Vec<(usize, Result<String, ConfigError>)> = Vec::new();
    let mut i: usize = 0;
    while i < n
        invariant
            n == blocks@.len(),
            i <= n,
            out@.len() == i,
            forall|j: int|
                0 <= j < i ==> (#[trigger] out@[j]).0 == blocks@[j].0 && unit_result_model(
                    out@[j].1,
                ) == unit_outcome(blocks@[j].1@),
        decreases n - i,
    {
        let block = &blocks[i];
        let outcome = generate_unit(block.1.as_str());
        out.push((block.0, outcome));
        i = i + 1;
    }
    out
}

} // verus!
