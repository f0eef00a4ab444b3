//! The declarative input document: a small TOML table, read through the `toml`
//! crate and handed to the validator as plain values. The generator only ever
//! distinguishes strings, arrays and "anything else", so that is all the shape
//! this module keeps.

use vstd::prelude::*;

verus! {

/// A parsed TOML value, as far as the generator reads one: a string, a list,
/// or some other value it never looks inside.
pub enum TomlItem {
    Str(String),
    List(Vec<TomlItem>),
    Other,
}

/// The mathematical shape of a `TomlItem`.
pub enum ItemModel {
    Str(Seq<char>),
    List(Seq<ItemModel>),
    Other,
}

impl TomlItem {
    /// The shape of this item, with strings as character sequences.
    pub open spec fn model(self) -> ItemModel
        decreases self,
    {
        match self {
            TomlItem::Str(s) => ItemModel::Str(s@),
            TomlItem::List(v) => ItemModel::List(models_of(v@)),
            TomlItem::Other => ItemModel::Other,
        }
    }
}

/// The shapes of a sequence of items, element by element.
pub open spec fn models_of(s: Seq<TomlItem>) -> Seq<ItemModel>
    decreases s,
{
    if s.len() == 0 {
        Seq::empty()
    } else {
        seq![s[0].model()] + models_of(s.drop_first())
    }
}

/// `models_of` maps the sequence element by element.
pub proof fn lemma_models_of(s: Seq<TomlItem>)
    ensures
        models_of(s).len() == s.len(),
        forall|i: int| 0 <= i < s.len() ==> models_of(s)[i] == s[i].model(),
    decreases s.len(),
{
    if s.len() > 0 {
        lemma_models_of(s.drop_first());
    }
}

impl View for TomlItem {
    type V = ItemModel;

    open spec fn view(&self) -> ItemModel {
        self.model()
    }
}

/// The shape of a parsed top-level table: its key/item pairs in table order.
pub open spec fn doc_model(entries: Seq<(String, TomlItem)>) -> Seq<(Seq<char>, ItemModel)> {
    entries.map_values(|e: (String, TomlItem)| (e.0@, e.1.model()))
}

/// The shape of what `parse_toml` returns.
pub open spec fn parse_result_model(r: Result<Vec<(String, TomlItem)>, (usize, String)>) -> Result<
    Seq<(Seq<char>, ItemModel)>,
    (nat, Seq<char>),
> {
    match r {
        Ok(v) => Ok(doc_model(v@)),
        Err((p, m)) => Err((p as nat, m@)),
    }
}

/// What parsing a TOML document yields: the top-level table's key/item pairs,
/// in the table's own order, or the syntax error's position and message. TOML
/// parsing is a function of the text alone.
pub uninterp spec fn toml_doc_of(s: Seq<char>) -> Result<
    Seq<(Seq<char>, ItemModel)>,
    (nat, Seq<char>),
>;

#[verifier::external_type_specification]
#[verifier::external_body]
pub struct ExTomlValue(toml::Value);

/// The conversion half of `parse_toml`: tells the variants of a parsed
/// `toml::Value` apart, keeping strings and arrays and leaving every other
/// variant opaque.
#[verifier::external_body]
fn item_of_value(v: toml::Value) -> TomlItem {
    match v {
        toml::Value::String(s) => TomlItem::Str(s),
        toml::Value::Array(a) => TomlItem::List(a.into_iter().map(item_of_value).collect()),
        _ => TomlItem::Other,
    }
}

/// Relies on `toml::from_str` for `toml::Table`: parsing is deterministic in
/// the text; on success the table's entries are handed over in the table's own
/// order, each value through `item_of_value`; on failure the error's span start
/// and message are handed over.
#[verifier::external_body]
pub fn parse_toml(input: &str) -> (r: Result<Vec<(String, TomlItem)>, (usize, String)>)
    ensures
        parse_result_model(r) == toml_doc_of(input@),
{
    match toml::from_str::<toml::Table>(input) {
        Ok(t) => Ok(t.into_iter().map(|(k, v)| (k, item_of_value(v))).collect()),
        Err(e) => Err((e.span().map(|s| s.start).unwrap_or(0), e.message().to_owned())),
    }
}

} // verus!
