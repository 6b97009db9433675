use vstd::prelude::*;

verus! {

/// A configuration document as a plain value tree: the shapes a TOML value
/// can take, as far as this crate reads them.  Keys of a table appear in
/// document order.
pub enum TomlItem {
    Str(String),
    Int(i64),
    Bool(bool),
    List(Vec<TomlItem>),
    Table(Vec<(String, TomlItem)>),
    /// A value of a kind no panel configuration reads (float or datetime).
    Other,
}

#[verifier::external_type_specification]
#[verifier::external_body]
pub struct ExTomlValue(toml::Value);

/// What parsing a text as a TOML document yields, carried over into this
/// crate's value tree: `Ok` with the tree exactly when the text is a
/// well-formed document, `Err` with the parser's message otherwise.
pub uninterp spec fn toml_document(text: Seq<char>) -> Result<TomlItem, Seq<char>>;

/// Conversion half of [`parse_document`]: carries a parsed `toml::Value`
/// over into this crate's tree, one arm per variant, keeping table keys in
/// the order the parser delivered them.  Called only from the body of
/// [`parse_document`], which holds the contract for the pair.
#[verifier::external_body]
fn tree_of_value(v: toml::Value) -> TomlItem {
    match v {
        toml::Value::String(s) => TomlItem::Str(s),
        toml::Value::Integer(i) => TomlItem::Int(i),
        toml::Value::Boolean(b) => TomlItem::Bool(b),
        toml::Value::Float(_) => TomlItem::Other,
        toml::Value::Datetime(_) => TomlItem::Other,
        toml::Value::Array(a) => TomlItem::List(a.into_iter().map(tree_of_value).collect()),
        toml::Value::Table(t) => TomlItem::Table(
            t.into_iter().map(|(k, item)| (k, tree_of_value(item))).collect(),
        ),
    }
}

/// Relies on `toml::from_str::<toml::Value>` (with the `preserve_order`
/// feature, so tables keep the document's key order): parses TOML text.
/// The outcome is a function of the text alone.
#[verifier::external_body]
pub fn parse_document(text: &str) -> (r: Result<TomlItem, String>)
    ensures
        r is Ok <==> toml_document(text@) is Ok,
        r is Ok ==> r->Ok_0 == toml_document(text@)->Ok_0,
        r is Err ==> r->Err_0@ == toml_document(text@)->Err_0,
{
    match toml::from_str::<toml::Value>(text) {
        Ok(v) => Ok(tree_of_value(v)),
        Err(e) => Err(format!("{e}")),
    }
}

} // verus!
