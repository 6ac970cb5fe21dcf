//! Decisions of the Lexicon code generator: which Rust type stands for a
//! schema type, which names and paths the generated items get, and what
//! shape each generated XRPC method has. Rendering the decisions as Rust
//! tokens is left to the caller.
pub mod defs;
pub mod modules;
pub mod order;
pub mod types;
pub mod xrpc;

use vstd::prelude::*;
use heck::{ToPascalCase, ToShoutySnakeCase, ToSnakeCase};
use crate::text::{
    char_pred, join, lemma_string_views_push, join_strings, split_at_char, split_on, split_once, split_once_exec,
    string_views,
};

verus! {

/// What `heck::ToSnakeCase::to_snake_case` gives for a text.
pub uninterp spec fn snake_case(s: Seq<char>) -> Seq<char>;

/// What `heck::ToPascalCase::to_pascal_case` gives for a text.
pub uninterp spec fn pascal_case(s: Seq<char>) -> Seq<char>;

/// What `heck::ToShoutySnakeCase::to_shouty_snake_case` gives for a text.
pub uninterp spec fn shouty_snake_case(s: Seq<char>) -> Seq<char>;

/// Whether `char::is_uppercase` holds of a character (Unicode's
/// `Uppercase` property).
pub uninterp spec fn is_uppercase(c: char) -> bool;

/// Calls `heck::ToSnakeCase::to_snake_case`; its result is named `snake_case`.
#[verifier::external_body]
pub(crate) fn to_snake_case(s: &str) -> (r: String)
    ensures
        r@ == snake_case(s@),
{
    s.to_snake_case()
}

/// Calls `heck::ToPascalCase::to_pascal_case`; its result is named `pascal_case`.
#[verifier::external_body]
pub(crate) fn to_pascal_case(s: &str) -> (r: String)
    ensures
        r@ == pascal_case(s@),
{
    s.to_pascal_case()
}

/// Calls `heck::ToShoutySnakeCase::to_shouty_snake_case`; its result is
/// named `shouty_snake_case`.
#[verifier::external_body]
pub(crate) fn to_shouty_snake_case(s: &str) -> (r: String)
    ensures
        r@ == shouty_snake_case(s@),
{
    s.to_shouty_snake_case()
}

/// Calls `char::is_uppercase`; its result is named `is_uppercase`.
#[verifier::external_body]
pub(crate) fn uppercase(c: char) -> (r: bool)
    ensures
        r == is_uppercase(c),
{
    c.is_uppercase()
}

/// Whether every character of a text is uppercase (true of the empty text).
pub open spec fn all_uppercase(s: Seq<char>) -> bool {
    forall|i: int| 0 <= i < s.len() ==> is_uppercase(#[trigger] s[i])
}

fn all_uppercase_exec(s: &str) -> (r: bool)
    ensures
        r == all_uppercase(s@),
{
    let cs = crate::text::chars_of(s);
    let mut i: usize = 0;
    while i < cs.len()
        invariant
            cs@ == s@,
            i <= cs@.len(),
            forall|j: int| 0 <= j < i ==> is_uppercase(#[trigger] cs@[j]),
        decreases cs.len() - i,
    {
        if !uppercase(cs[i]) {
            return false;
        }
        i = i + 1;
    }
    true
}

/// The snake-cased texts.
pub open spec fn snake_all(s: Seq<Seq<char>>) -> Seq<Seq<char>> {
    s.map_values(|t: Seq<char>| snake_case(t))
}

/// The namespace and the definition name that a reference to a schema
/// definition names: the parts around its first `#`, or the whole and the
/// given default.
pub open spec fn ref_parts(reference: Seq<char>, default: Seq<char>) -> (Seq<char>, Seq<char>) {
    match split_once(reference, '#') {
        Some(p) => p,
        None => (reference, default),
    }
}

/// The name that a definition gets in its module: kept when it is all
/// uppercase, else pascal-cased.
pub open spec fn definition_name(def: Seq<char>) -> Seq<char> {
    if all_uppercase(def) {
        def
    } else {
        pascal_case(def)
    }
}

/// The segments of the Rust path for a reference: the pascal-cased
/// definition alone when there is no namespace; else `crate`, the
/// snake-cased namespace segments and the definition's name.
pub open spec fn path_segments(reference: Seq<char>, default: Seq<char>) -> Seq<Seq<char>> {
    let (namespace, def) = ref_parts(reference, default);
    if namespace.len() == 0 {
        seq![pascal_case(def)]
    } else {
        seq!["crate"@] + snake_all(split_on(namespace, char_pred('.'))) + seq![definition_name(def)]
    }
}

/// The Rust path for a reference to a schema definition.
pub open spec fn spec_resolve_path(reference: Seq<char>, default: Seq<char>) -> Seq<char> {
    join(path_segments(reference, default), "::"@)
}

/// The snake-cased texts, one for one.
fn snake_each(parts: &Vec<String>) -> (r: Vec<String>)
    ensures
        string_views(r@) == snake_all(string_views(parts@)),
{
    let mut out: Vec<String> = Vec::new();
    let mut i: usize = 0;
    while i < parts.len()
        invariant
            i <= parts@.len(),
            string_views(out@) == snake_all(string_views(parts@)).take(i as int),
        decreases parts.len() - i,
    {
        let s = to_snake_case(parts[i].as_str());
        proof {
            lemma_string_views_push(out@, s);
        }
        out.push(s);
        assert(string_views(out@) =~= snake_all(string_views(parts@)).take(i + 1));
        i = i + 1;
    }
    assert(snake_all(string_views(parts@)).take(i as int) =~= snake_all(string_views(parts@)));
    out
}

/// The segments of the Rust path for a reference; see `path_segments`.
pub fn resolve_path_segments(reference: &str, default: &str) -> (r: Vec<String>)
    ensures
        string_views(r@) == path_segments(reference@, default@),
{
    let (namespace, def) = match split_once_exec(reference, '#') {
        Some((a, b)) => (a, b),
        None => (reference.to_owned(), default.to_owned()),
    };
    assert((namespace@, def@) == ref_parts(reference@, default@));
    if namespace.as_str().is_empty() {
        let mut out = Vec::new();
        out.push(to_pascal_case(def.as_str()));
        assert(string_views(out@) =~= path_segments(reference@, default@));
        out
    } else {
        let segments = split_at_char(namespace.as_str(), '.');
        let snaked = snake_each(&segments);
        let last = if all_uppercase_exec(def.as_str()) {
            def
        } else {
            to_pascal_case(def.as_str())
        };
        let mut out = Vec::new();
        out.push("crate".to_owned());
        let mut i: usize = 0;
        while i < snaked.len()
            invariant
                i <= snaked@.len(),
                string_views(out@) == seq!["crate"@] + string_views(snaked@).take(i as int),
            decreases snaked.len() - i,
        {
            let s = snaked[i].clone();
            proof {
                lemma_string_views_push(out@, s);
            }
            out.push(s);
            assert(string_views(out@) =~= seq!["crate"@] + string_views(snaked@).take(i + 1));
            i = i + 1;
        }
        proof {
            lemma_string_views_push(out@, last);
        }
        out.push(last);
        assert(string_views(snaked@).take(i as int) =~= string_views(snaked@));
        assert(string_views(out@) =~= path_segments(reference@, default@));
        out
    }
}

/// The Rust path for a reference to a schema definition, such as
/// `crate::app::bsky::feed::post::Record` for `app.bsky.feed.post` with the
/// default `record`.
pub fn resolve_path(reference: &str, default: &str) -> (r: String)
    ensures
        r@ == spec_resolve_path(reference@, default@),
{
    let segments = resolve_path_segments(reference, default);
    join_strings(&segments, "::")
}

/// A generated constant for a Lexicon token.
#[derive(Debug, Clone, PartialEq, Eq)]
pub struct TokenDef {
    /// The constant's name.
    pub name: String,
    /// Its value: the schema's id, `#` and the token's name.
    pub value: String,
}

/// The constant generated for a token of a schema.
pub fn lex_token(name: &str, schema_id: &str) -> (r: TokenDef)
    ensures
        r.name@ == shouty_snake_case(name@),
        r.value@ == schema_id@ + seq!['#'] + name@,
{
    let mut value = schema_id.to_owned();
    value.push('#');
    value.push_str(name);
    TokenDef { name: to_shouty_snake_case(name), value }
}

/// The unit struct generated for a record collection.
#[derive(Debug, Clone, PartialEq, Eq)]
pub struct CollectionDef {
    /// The module that holds the record type.
    pub module_name: String,
    /// The collection's type name.
    pub struct_name: String,
    pub nsid: String,
}

/// The collection type generated for a record module and its NSID.
pub fn collection(name: &str, nsid: &str) -> (r: CollectionDef)
    ensures
        r.module_name@ == name@,
        r.struct_name@ == pascal_case(name@),
        r.nsid@ == nsid@,
{
    CollectionDef { module_name: name.to_owned(), struct_name: to_pascal_case(name), nsid: nsid.to_owned() }
}

} // verus!
