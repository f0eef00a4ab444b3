//! The config parser: turns the declarative TOML text into a validated struct
//! spec, or one of the distinct configuration errors. Parsing is pure and
//! deterministic: the same text always yields the same spec or the same error.

use vstd::prelude::*;
use crate::doc::{TomlItem, ItemModel, doc_model, models_of, lemma_models_of, toml_doc_of, parse_toml};
use crate::text::{lower_of, upper_of, lowercase, uppercase, str_eq};

verus! {

/// A configuration error, fatal to one generation unit.
#[derive(Debug, PartialEq, Eq)]
pub enum ConfigError {
    /// A naming key (`name`, or one of the optional scalar keys that default
    /// from it) is missing where required, is not a string, or is empty.
    InvalidName,
    /// The `fields` key is missing, is not a list, or lists no field at all.
    InvalidFields,
    /// A field entry is not a list of exactly two strings.
    InvalidFieldEntry,
    /// A field is named after one of the two reserved transition-final
    /// identifiers.
    ReservedFieldName,
    /// Two fields share one identifier. Unique identifiers are an invariant of
    /// a valid spec, though no error of the stated taxonomy covers them; this
    /// variant fills that gap.
    DuplicateFieldName,
    /// The document is not well-formed TOML: position and detail.
    Syntax(usize, String),
}

/// The mathematical shape of a `ConfigError`.
pub enum ErrModel {
    InvalidName,
    InvalidFields,
    InvalidFieldEntry,
    ReservedFieldName,
    DuplicateFieldName,
    Syntax(nat, Seq<char>),
}

impl ConfigError {
    /// The shape of this error.
    pub open spec fn model(self) -> ErrModel {
        match self {
            ConfigError::InvalidName => ErrModel::InvalidName,
            ConfigError::InvalidFields => ErrModel::InvalidFields,
            ConfigError::InvalidFieldEntry => ErrModel::InvalidFieldEntry,
            ConfigError::ReservedFieldName => ErrModel::ReservedFieldName,
            ConfigError::DuplicateFieldName => ErrModel::DuplicateFieldName,
            ConfigError::Syntax(p, m) => ErrModel::Syntax(p as nat, m@),
        }
    }
}

/// The validated struct spec: everything the emitters read.
#[verifier::ext_equal]
pub struct WriterModel {
    /// The public struct's exported name.
    pub name: Seq<char>,
    /// The scope the generated stages live in.
    pub module: Seq<char>,
    /// The lifetime substituted for the self-reference placeholder, with its
    /// leading tick.
    pub lt: Seq<char>,
    /// The symbol prefix: the namespace with its first character uppercased.
    pub sprefix: Seq<char>,
    /// Import directives copied verbatim into the emitted scope.
    pub imports: Seq<Seq<char>>,
    /// The ordered (identifier, type-expression) pairs.
    pub fields: Seq<(Seq<char>, Seq<char>)>,
}

/// The field pairs of an executable field list, as character sequences.
pub open spec fn fields_view(v: Seq<(String, String)>) -> Seq<(Seq<char>, Seq<char>)> {
    v.map_values(|p: (String, String)| (p.0@, p.1@))
}

/// The first item under `key`, if any.
pub open spec fn lookup(doc: Seq<(Seq<char>, ItemModel)>, key: Seq<char>) -> Option<ItemModel>
    decreases doc.len(),
{
    if doc.len() == 0 {
        None
    } else if doc[0].0 == key {
        Some(doc[0].1)
    } else {
        lookup(doc.drop_first(), key)
    }
}

/// The string under `key`, or `default` when the key is absent; `None` when the
/// key holds something that is not a string.
pub open spec fn str_or(
    doc: Seq<(Seq<char>, ItemModel)>,
    key: Seq<char>,
    default: Seq<char>,
) -> Option<Seq<char>> {
    match lookup(doc, key) {
        None => Some(default),
        Some(it) => match it {
            ItemModel::Str(s) => Some(s),
            _ => None,
        },
    }
}

/// The strings among `items`, in order; anything else is passed over.
pub open spec fn import_strings(items: Seq<ItemModel>) -> Seq<Seq<char>>
    decreases items.len(),
{
    if items.len() == 0 {
        Seq::empty()
    } else {
        let rest = import_strings(items.drop_first());
        match items[0] {
            ItemModel::Str(s) => seq![s] + rest,
            _ => rest,
        }
    }
}

/// The import directives: the strings under `use` when it holds a list, and
/// nothing otherwise.
pub open spec fn imports_model(doc: Seq<(Seq<char>, ItemModel)>) -> Seq<Seq<char>> {
    match lookup(doc, "use"@) {
        Some(it) => match it {
            ItemModel::List(items) => import_strings(items),
            _ => Seq::empty(),
        },
        None => Seq::empty(),
    }
}

/// One field entry: a list of exactly two strings whose first is not a
/// reserved transition-final identifier.
pub open spec fn field_entry(it: ItemModel) -> Result<(Seq<char>, Seq<char>), ErrModel> {
    match it {
        ItemModel::List(elems) => {
            if elems.len() != 2 {
                Err(ErrModel::InvalidFieldEntry)
            } else {
                match (elems[0], elems[1]) {
                    (ItemModel::Str(k), ItemModel::Str(v)) => {
                        if k == "new"@ || k == "build"@ {
                            Err(ErrModel::ReservedFieldName)
                        } else {
                            Ok((k, v))
                        }
                    },
                    _ => Err(ErrModel::InvalidFieldEntry),
                }
            }
        },
        _ => Err(ErrModel::InvalidFieldEntry),
    }
}

/// The namespace: an explicit `namespace` key is used as written; only the
/// default, derived from the name, is lowercased. `None` when the key holds
/// something that is not a string.
pub open spec fn namespace_model(
    doc: Seq<(Seq<char>, ItemModel)>,
    name: Seq<char>,
) -> Option<Seq<char>> {
    match lookup(doc, "namespace"@) {
        None => Some(lower_of(name)),
        Some(it) => match it {
            ItemModel::Str(s) => Some(s),
            _ => None,
        },
    }
}

/// The field identifiers are pairwise distinct.
pub open spec fn unique_idents(fields: Seq<(Seq<char>, Seq<char>)>) -> bool {
    forall|i: int, j: int|
        #![trigger fields[i], fields[j]]
        0 <= i < j < fields.len() ==> fields[i].0 != fields[j].0
}

/// All field entries in order, or the first entry's error.
pub open spec fn fields_model(items: Seq<ItemModel>) -> Result<
    Seq<(Seq<char>, Seq<char>)>,
    ErrModel,
>
    decreases items.len(),
{
    if items.len() == 0 {
        Ok(Seq::empty())
    } else {
        match field_entry(items[0]) {
            Err(e) => Err(e),
            Ok(kv) => match fields_model(items.drop_first()) {
                Err(e) => Err(e),
                Ok(rest) => Ok(seq![kv] + rest),
            },
        }
    }
}

/// Validating a parsed document: every key in the order the parser reads them.
pub open spec fn spec_from_doc(doc: Seq<(Seq<char>, ItemModel)>) -> Result<
    WriterModel,
    ErrModel,
> {
    match lookup(doc, "name"@) {
        Some(ItemModel::Str(name)) => {
            if name.len() == 0 {
                Err(ErrModel::InvalidName)
            } else {
                match namespace_model(doc, name) {
                    None => Err(ErrModel::InvalidName),
                    Some(ns) => {
                        if ns.len() == 0 {
                            Err(ErrModel::InvalidName)
                        } else {
                            let sprefix = upper_of(ns).take(1) + ns.skip(1);
                            match str_or(doc, "module"@, ns) {
                                None => Err(ErrModel::InvalidName),
                                Some(module) => match str_or(doc, "lifetime"@, ns) {
                                    None => Err(ErrModel::InvalidName),
                                    Some(lt_name) => {
                                        let lt = seq!['\''] + lt_name;
                                        let imports = imports_model(doc);
                                        match lookup(doc, "fields"@) {
                                            Some(ItemModel::List(items)) => {
                                                if items.len() == 0 {
                                                    Err(ErrModel::InvalidFields)
                                                } else {
                                                    match fields_model(items) {
                                                        Err(e) => Err(e),
                                                        Ok(fields) => {
                                                            if !unique_idents(fields) {
                                                                Err(ErrModel::DuplicateFieldName)
                                                            } else {
                                                                Ok(
                                                                    WriterModel {
                                                                        name,
                                                                        module,
                                                                        lt,
                                                                        sprefix,
                                                                        imports,
                                                                        fields,
                                                                    },
                                                                )
                                                            }
                                                        },
                                                    }
                                                }
                                            },
                                            _ => Err(ErrModel::InvalidFields),
                                        }
                                    },
                                },
                            }
                        }
                    },
                }
            }
        },
        _ => Err(ErrModel::InvalidName),
    }
}

/// Parsing the declarative text: the document's shape run through validation,
/// or the syntax error.
pub open spec fn spec_parse(text: Seq<char>) -> Result<WriterModel, ErrModel> {
    match toml_doc_of(text) {
        Err(e) => Err(ErrModel::Syntax(e.0, e.1)),
        Ok(doc) => spec_from_doc(doc),
    }
}

/// The shape of what `StructWriter::from_toml` returns.
pub open spec fn writer_result_model(r: Result<StructWriter, ConfigError>) -> Result<
    WriterModel,
    ErrModel,
> {
    match r {
        Ok(w) => Ok(w@),
        Err(e) => Err(e.model()),
    }
}

/// The generator's input, validated: name, scope, lifetime, symbol prefix,
/// imports and the ordered field list.
#[derive(Debug)]
pub struct StructWriter {
    name: String,
    module: String,
    lt: String,
    sprefix: String,
    imports: Vec<String>,
    fields: Vec<(String, String)>,
}

impl View for StructWriter {
    type V = WriterModel;

    closed spec fn view(&self) -> WriterModel {
        WriterModel {
            name: self.name@,
            module: self.module@,
            lt: self.lt@,
            sprefix: self.sprefix@,
            imports: self.imports.deep_view(),
            fields: fields_view(self.fields@),
        }
    }
}

/// Skipping past a key that does not match leaves the lookup unchanged.
proof fn lemma_lookup_step(doc: Seq<(Seq<char>, ItemModel)>, key: Seq<char>, i: int)
    requires
        0 <= i < doc.len(),
        doc[i].0 != key,
    ensures
        lookup(doc.skip(i), key) == lookup(doc.skip(i + 1), key),
{
    assert(doc.skip(i).len() > 0);
    assert(doc.skip(i)[0] == doc[i]);
    assert(doc.skip(i).drop_first() =~= doc.skip(i + 1));
}

/// The first item under `key` in the document, if any.
fn lookup_item<'a>(entries: &'a Vec<(String, TomlItem)>, key: &str) -> (r: Option<&'a TomlItem>)
    ensures
        match r {
            Some(it) => lookup(doc_model(entries@), key@) == Some(it.model()),
            None => lookup(doc_model(entries@), key@) is None,
        },
{
    let ghost doc = doc_model(entries@);
    let n = entries.len();
    let mut i: usize = 0;
    assert(doc.skip(0) =~= doc);
    while i < n
        invariant
            n == entries@.len(),
            doc == doc_model(entries@),
            i <= n,
            lookup(doc, key@) == lookup(doc.skip(i as int), key@),
        decreases n - i,
    {
        assert(doc[i as int] == (entries@[i as int].0@, entries@[i as int].1.model()));
        if str_eq(entries[i].0.as_str(), key) {
            assert(doc.skip(i as int)[0] == doc[i as int]);
            return Some(&entries[i].1);
        }
        proof {
            lemma_lookup_step(doc, key@, i as int);
        }
        i = i + 1;
    }
    assert(doc.skip(n as int) =~= Seq::<(Seq<char>, ItemModel)>::empty());
    None
}

/// The string under `key`, or `default` when absent; `None` when the key holds
/// something that is not a string.
fn scalar_or(entries: &Vec<(String, TomlItem)>, key: &str, default: &str) -> (r: Option<String>)
    ensures
        match r {
            Some(s) => str_or(doc_model(entries@), key@, default@) == Some(s@),
            None => str_or(doc_model(entries@), key@, default@) is None,
        },
{
    match lookup_item(entries, key) {
        None => Some(default.to_owned()),
        Some(it) => match it {
            TomlItem::Str(s) => Some(s.clone()),
            _ => None,
        },
    }
}

/// Adding one item at the back keeps the earlier imports and appends the new
/// string, if it is one.
proof fn lemma_import_strings_push(items: Seq<ItemModel>, x: ItemModel)
    ensures
        import_strings(items.push(x)) == match x {
            ItemModel::Str(s) => import_strings(items).push(s),
            _ => import_strings(items),
        },
    decreases items.len(),
{
    if items.len() == 0 {
        assert(items.push(x).drop_first() =~= items);
        assert(items.push(x)[0] == x);
        match x {
            ItemModel::Str(s) => {
                assert(seq![s] + import_strings(items) =~= import_strings(items).push(s));
            },
            _ => {},
        }
    } else {
        assert(items.push(x)[0] == items[0]);
        assert(items.push(x).drop_first() =~= items.drop_first().push(x));
        lemma_import_strings_push(items.drop_first(), x);
        match items[0] {
            ItemModel::Str(s) => {
                match x {
                    ItemModel::Str(t) => {
                        assert(seq![s] + import_strings(items.drop_first()).push(t)
                            =~= (seq![s] + import_strings(items.drop_first())).push(t));
                    },
                    _ => {},
                }
            },
            _ => {},
        }
    }
}

/// The strings among the items, in order.
fn collect_imports(items: &Vec<TomlItem>) -> (r: Vec<String>)
    ensures
        r.deep_view() == import_strings(models_of(items@)),
{
    let ghost ms = models_of(items@);
    proof {
        lemma_models_of(items@);
    }
    let n = items.len();
    let mut out: Vec<String> = Vec::new();
    let mut i: usize = 0;
    while i < n
        invariant
            n == items@.len(),
            ms == models_of(items@),
            ms.len() == n,
            forall|j: int| 0 <= j < n ==> ms[j] == items@[j].model(),
            i <= n,
            out.deep_view() == import_strings(ms.take(i as int)),
        decreases n - i,
    {
        proof {
            lemma_import_strings_push(ms.take(i as int), ms[i as int]);
            assert(ms.take(i as int).push(ms[i as int]) =~= ms.take(i + 1));
        }
        match &items[i] {
            TomlItem::Str(s) => {
                out.push(s.clone());
                assert(out.deep_view() =~= import_strings(ms.take(i + 1)));
            },
            _ => {
                assert(out.deep_view() =~= import_strings(ms.take(i + 1)));
            },
        }
        i = i + 1;
    }
    assert(ms.take(n as int) =~= ms);
    out
}

/// Adding one entry at the back keeps an earlier error, and otherwise appends
/// the new entry's pair or fails with its error.
proof fn lemma_fields_model_push(items: Seq<ItemModel>, x: ItemModel)
    ensures
        fields_model(items.push(x)) == match fields_model(items) {
            Err(e) => Err::<Seq<(Seq<char>, Seq<char>)>, ErrModel>(e),
            Ok(rest) => match field_entry(x) {
                Err(e) => Err::<Seq<(Seq<char>, Seq<char>)>, ErrModel>(e),
                Ok(kv) => Ok(rest.push(kv)),
            },
        },
    decreases items.len(),
{
    if items.len() == 0 {
        assert(items.push(x).drop_first() =~= items);
        assert(items.push(x)[0] == x);
        match field_entry(x) {
            Ok(kv) => {
                assert(seq![kv] + Seq::<(Seq<char>, Seq<char>)>::empty() =~= Seq::<(
                    Seq<char>,
                    Seq<char>,
                )>::empty().push(kv));
            },
            _ => {},
        }
    } else {
        assert(items.push(x)[0] == items[0]);
        assert(items.push(x).drop_first() =~= items.drop_first().push(x));
        lemma_fields_model_push(items.drop_first(), x);
        match field_entry(items[0]) {
            Ok(kv) => {
                match fields_model(items.drop_first()) {
                    Ok(rest) => {
                        match field_entry(x) {
                            Ok(kv2) => {
                                assert(seq![kv] + rest.push(kv2) =~= (seq![kv] + rest).push(kv2));
                            },
                            _ => {},
                        }
                    },
                    _ => {},
                }
            },
            _ => {},
        }
    }
}

/// One field entry, checked: a list of exactly two strings, the first no
/// reserved identifier.
fn convert_entry(it: &TomlItem) -> (r: Result<(String, String), ConfigError>)
    ensures
        match r {
            Ok(kv) => field_entry(it.model()) == Ok::<(Seq<char>, Seq<char>), ErrModel>(
                (kv.0@, kv.1@),
            ),
            Err(e) => field_entry(it.model()) == Err::<(Seq<char>, Seq<char>), ErrModel>(e.model()),
        },
{
    match it {
        TomlItem::List(elems) => {
            proof {
                lemma_models_of(elems@);
            }
            if elems.len() != 2 {
                Err(ConfigError::InvalidFieldEntry)
            } else {
                match (&elems[0], &elems[1]) {
                    (TomlItem::Str(k), TomlItem::Str(v)) => {
                        if str_eq(k.as_str(), "new") || str_eq(k.as_str(), "build") {
                            Err(ConfigError::ReservedFieldName)
                        } else {
                            Ok((k.clone(), v.clone()))
                        }
                    },
                    _ => Err(ConfigError::InvalidFieldEntry),
                }
            }
        },
        _ => Err(ConfigError::InvalidFieldEntry),
    }
}

/// All field entries in order, or the first entry's error.
fn collect_fields(items: &Vec<TomlItem>) -> (r: Result<Vec<(String, String)>, ConfigError>)
    ensures
        match r {
            Ok(fields) => {
                &&& fields_model(models_of(items@)) == Ok::<Seq<(Seq<char>, Seq<char>)>, ErrModel>(
                    fields_view(fields@),
                )
                &&& fields@.len() == items@.len()
            },
            Err(e) => fields_model(models_of(items@)) == Err::<
                Seq<(Seq<char>, Seq<char>)>,
                ErrModel,
            >(e.model()),
        },
{
    let ghost ms = models_of(items@);
    proof {
        lemma_models_of(items@);
    }
    let n = items.len();
    let mut out: Vec<(String, String)> = Vec::new();
    let mut i: usize = 0;
    assert(ms.take(0) =~= Seq::<ItemModel>::empty());
    assert(fields_view(out@) =~= Seq::<(Seq<char>, Seq<char>)>::empty());
    while i < n
        invariant
            n == items@.len(),
            ms == models_of(items@),
            ms.len() == n,
            forall|j: int| 0 <= j < n ==> ms[j] == items@[j].model(),
            i <= n,
            out@.len() == i,
            fields_model(ms.take(i as int)) == Ok::<Seq<(Seq<char>, Seq<char>)>, ErrModel>(
                fields_view(out@),
            ),
        decreases n - i,
    {
        proof {
            lemma_fields_model_push(ms.take(i as int), ms[i as int]);
            assert(ms.take(i as int).push(ms[i as int]) =~= ms.take(i + 1));
        }
        match convert_entry(&items[i]) {
            Ok(kv) => {
                let ghost prevm = fields_view(out@);
                let ghost kvm = (kv.0@, kv.1@);
                out.push(kv);
                assert(fields_view(out@) =~= prevm.push(kvm));
            },
            Err(e) => {
                assert(fields_model(ms) == Err::<Seq<(Seq<char>, Seq<char>)>, ErrModel>(e.model()))
                    by {
                    lemma_fields_model_prefix_err(ms, i as int + 1);
                };
                return Err(e);
            },
        }
        i = i + 1;
    }
    assert(ms.take(n as int) =~= ms);
    Ok(out)
}

/// Whether two fields share one identifier.
fn has_duplicate_ident(fields: &Vec<(String, String)>) -> (r: bool)
    ensures
        r == !unique_idents(fields_view(fields@)),
{
    let ghost fv = fields_view(fields@);
    let n = fields.len();
    let mut j: usize = 0;
    while j < n
        invariant
            fv == fields_view(fields@),
            n == fields@.len(),
            j <= n,
            forall|a: int, b: int|
                #![trigger fv[a], fv[b]]
                0 <= a < b < j ==> fv[a].0 != fv[b].0,
        decreases n - j,
    {
        let mut i: usize = 0;
        while i < j
            invariant
                fv == fields_view(fields@),
                n == fields@.len(),
                i <= j < n,
                forall|a: int| 0 <= a < i ==> fv[a].0 != fv[j as int].0,
            decreases j - i,
        {
            if str_eq(fields[i].0.as_str(), fields[j].0.as_str()) {
                assert(fv[i as int].0 == fv[j as int].0);
                assert(!unique_idents(fv));
                return true;
            }
            i = i + 1;
        }
        j = j + 1;
    }
    assert(unique_idents(fv));
    false
}

/// An error on a prefix of the entries is the error of the whole list.
proof fn lemma_fields_model_prefix_err(items: Seq<ItemModel>, i: int)
    requires
        0 <= i <= items.len(),
        fields_model(items.take(i)) is Err,
    ensures
        fields_model(items) == fields_model(items.take(i)),
    decreases i,
{
    if i > 0 {
        assert(items.take(i)[0] == items[0]);
        if items.len() > 0 {
            match field_entry(items[0]) {
                Err(_) => {},
                Ok(_) => {
                    assert(items.take(i).drop_first() =~= items.drop_first().take(i - 1));
                    lemma_fields_model_prefix_err(items.drop_first(), i - 1);
                },
            }
        }
    }
}

impl StructWriter {
    #[verifier::type_invariant]
    closed spec fn wf(self) -> bool {
        &&& self.name@.len() > 0
        &&& self.fields@.len() > 0
    }

    /// The public struct's exported name.
    pub fn name(&self) -> (r: &String)
        ensures
            r@ == self@.name,
    {
        &self.name
    }

    /// The scope the generated stages live in.
    pub fn module(&self) -> (r: &String)
        ensures
            r@ == self@.module,
    {
        &self.module
    }

    /// The lifetime substituted for the self-reference placeholder.
    pub fn lt(&self) -> (r: &String)
        ensures
            r@ == self@.lt,
    {
        &self.lt
    }

    /// The symbol prefix.
    pub fn sprefix(&self) -> (r: &String)
        ensures
            r@ == self@.sprefix,
    {
        &self.sprefix
    }

    /// The import directives.
    pub fn imports(&self) -> (r: &Vec<String>)
        ensures
            r.deep_view() == self@.imports,
    {
        &self.imports
    }

    /// The ordered (identifier, type-expression) pairs.
    pub fn fields(&self) -> (r: &Vec<(String, String)>)
        ensures
            fields_view(r@) == self@.fields,
    {
        &self.fields
    }

    /// How many fields the spec declares; always at least one.
    pub fn n_fields(&self) -> (r: usize)
        ensures
            r == self@.fields.len(),
            r >= 1,
    {
        proof {
            use_type_invariant(self);
        }
        self.fields.len()
    }

    /// Parses and validates the declarative text; the same text always yields
    /// the same spec or the same error, exactly as `spec_parse` says.
    pub fn from_toml(input: &str) -> (r: Result<StructWriter, ConfigError>)
        ensures
            writer_result_model(r) == spec_parse(input@),
    {
        let entries = match parse_toml(input) {
            Err(e) => {
                return Err(ConfigError::Syntax(e.0, e.1));
            },
            Ok(entries) => entries,
        };
        let ghost doc = doc_model(entries@);

        // name: required, a string, non-empty
        let name = match lookup_item(&entries, "name") {
            Some(TomlItem::Str(s)) => s.clone(),
            _ => {
                return Err(ConfigError::InvalidName);
            },
        };
        if name.as_str().unicode_len() == 0 {
            return Err(ConfigError::InvalidName);
        }

        // namespace: an explicit key is used as written; only the default,
        // derived from the name, is lowercased
        let ns = match lookup_item(&entries, "namespace") {
            None => lowercase(name.as_str()),
            Some(TomlItem::Str(s)) => s.clone(),
            Some(_) => {
                return Err(ConfigError::InvalidName);
            },
        };
        if ns.as_str().unicode_len() == 0 {
            return Err(ConfigError::InvalidName);
        }

        // symbol prefix: the namespace with its first character uppercased
        let upper = uppercase(ns.as_str());
        let mut sprefix = upper.as_str().substring_char(0, 1).to_owned();
        sprefix.append(ns.as_str().substring_char(1, ns.as_str().unicode_len()));
        proof {
            assert(sprefix@ =~= upper_of(ns@).take(1) + ns@.skip(1));
        }

        // module: optional string, defaults to the namespace
        let module = match scalar_or(&entries, "module", ns.as_str()) {
            Some(s) => s,
            None => {
                return Err(ConfigError::InvalidName);
            },
        };

        // lifetime: optional string, defaults to the namespace, with a tick
        let lt_name = match scalar_or(&entries, "lifetime", ns.as_str()) {
            Some(s) => s,
            None => {
                return Err(ConfigError::InvalidName);
            },
        };
        let mut lt = "'".to_owned();
        lt.append(lt_name.as_str());
        proof {
            reveal_strlit("'");
            assert(lt@ =~= seq!['\''] + lt_name@);
        }

        // imports: the strings under `use`, when it holds a list
        let imports = match lookup_item(&entries, "use") {
            Some(TomlItem::List(items)) => collect_imports(items),
            _ => Vec::new(),
        };
        proof {
            assert(imports.deep_view() =~= imports_model(doc));
        }

        // fields: required, a non-empty list of two-string entries
        let fields = match lookup_item(&entries, "fields") {
            Some(TomlItem::List(items)) => {
                if items.len() == 0 {
                    return Err(ConfigError::InvalidFields);
                }
                match collect_fields(items) {
                    Ok(fields) => fields,
                    Err(e) => {
                        return Err(e);
                    },
                }
            },
            _ => {
                return Err(ConfigError::InvalidFields);
            },
        };

        // identifiers must be pairwise distinct
        if has_duplicate_ident(&fields) {
            return Err(ConfigError::DuplicateFieldName);
        }

        let w = StructWriter { name, module, lt, sprefix, imports, fields };
        proof {
            assert(spec_from_doc(doc) matches Ok(m) && m =~= w@);
        }
        Ok(w)
    }
}

} // verus!
