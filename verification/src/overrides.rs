//! Overrides of the form `key=value`, laid over a scenario's table of settings.

use vstd::prelude::*;

use crate::bench::set_patch;

verus! {

#[verifier::external_type_specification]
#[verifier::external_body]
#[verifier::reject_recursive_types(K)]
#[verifier::reject_recursive_types(V)]
pub struct ExTable<K, V>(toml::map::Map<K, V>);

#[verifier::external_type_specification]
#[verifier::external_body]
pub struct ExValue(toml::Value);

/// What a table holds under its keys.
pub uninterp spec fn entries(t: toml::map::Map<String, toml::Value>) -> Map<Seq<char>, toml::Value>;

/// What the table holds that a value is, where it is one.
pub uninterp spec fn held_table(v: toml::Value) -> Option<Map<Seq<char>, toml::Value>>;

/// What a document says, or what is wrong with it.
pub uninterp spec fn document(text: Seq<char>) -> Result<Map<Seq<char>, toml::Value>, Seq<char>>;

/// Calls `toml::from_str` for a table. It reads the text as a document: the
/// outcome, be it what the document holds or the message of the error, depends
/// on the text alone.
#[verifier::external_body]
fn read_document(text: &str) -> (r: Result<toml::Table, String>)
    ensures
        match r {
            Ok(t) => document(text@) == Ok::<Map<Seq<char>, toml::Value>, Seq<char>>(entries(t)),
            Err(e) => document(text@) == Err::<Map<Seq<char>, toml::Value>, Seq<char>>(e@),
        },
{
    toml::from_str::<toml::Table>(text).map_err(|e| e.to_string())
}

/// Calls `toml::map::Map::remove`. It takes what is held under a key out of the
/// table.
#[verifier::external_body]
fn take_out(t: &mut toml::Table, key: &str) -> (r: Option<toml::Value>)
    ensures
        r == (if entries(*old(t)).contains_key(key@) {
            Some(entries(*old(t))[key@])
        } else {
            None
        }),
        entries(*final(t)) == entries(*old(t)).remove(key@),
{
    t.remove(key)
}

/// Calls `toml::map::Map::insert`. It puts a value under a key in place of what
/// the table held there, which it hands back.
#[verifier::external_body]
fn put_in(t: &mut toml::Table, key: String, v: toml::Value) -> (r: Option<toml::Value>)
    ensures
        r == (if entries(*old(t)).contains_key(key@) {
            Some(entries(*old(t))[key@])
        } else {
            None
        }),
        entries(*final(t)) == entries(*old(t)).insert(key@, v),
{
    t.insert(key, v)
}

/// Calls `Extend::extend` of `toml::map::Map`. Each entry of the other table is
/// put in, in place of what was held under its key.
#[verifier::external_body]
fn lay_over(t: &mut toml::Table, over: toml::Table)
    ensures
        entries(*final(t)) == entries(*old(t)).union_prefer_right(entries(over)),
{
    t.extend(over)
}

/// Tells the variant `toml::Value::Table` from the others. A value of it holds
/// the table that comes out.
#[verifier::external_body]
fn as_table(v: toml::Value) -> (r: Option<toml::Table>)
    ensures
        match r {
            Some(t) => held_table(v) == Some(entries(t)),
            None => held_table(v) is None,
        },
{
    match v {
        toml::Value::Table(t) => Some(t),
        _ => None,
    }
}

/// Makes a value of the variant `toml::Value::Table`, which holds the table.
#[verifier::external_body]
fn as_value(t: toml::Table) -> (v: toml::Value)
    ensures
        held_table(v) == Some(entries(t)),
{
    toml::Value::Table(t)
}

/// The settings in a document: none where it does not speak of them, and no
/// answer where what it says of them is no table.
pub open spec fn settings_in(doc: Map<Seq<char>, toml::Value>) -> Option<
    Map<Seq<char>, toml::Value>,
> {
    if doc.contains_key("tuning"@) {
        held_table(doc["tuning"@])
    } else {
        Some(Map::empty())
    }
}

/// A document is another one with settings laid over its own.
pub open spec fn is_overlaid(
    t: Map<Seq<char>, toml::Value>,
    doc: Map<Seq<char>, toml::Value>,
    patch: Map<Seq<char>, toml::Value>,
) -> bool {
    &&& settings_in(doc) matches Some(own) && t.contains_key("tuning"@) && held_table(
        t["tuning"@],
    ) == Some(own.union_prefer_right(patch))
    &&& t.remove("tuning"@) == doc.remove("tuning"@)
}

/// Lays settings over those of a document: a setting that both have is the
/// patch's, everything else stays.
pub fn overlay(doc: toml::Table, patch: toml::Table) -> (r: Result<toml::Table, String>)
    ensures
        match r {
            Ok(t) => is_overlaid(entries(t), entries(doc), entries(patch)),
            Err(e) => settings_in(entries(doc)) is None && e@ == "scenario [tuning] is not a table"@,
        },
{
    let mut doc = doc;
    let ghost before = entries(doc);
    let own = match take_out(&mut doc, "tuning") {
        Some(v) => match as_table(v) {
            Some(t) => {
                let mut t = t;
                lay_over(&mut t, patch);
                t
            },
            None => {
                return Err("scenario [tuning] is not a table".to_owned());
            },
        },
        None => {
            assert(Map::<Seq<char>, toml::Value>::empty().union_prefer_right(entries(patch))
                =~= entries(patch));
            patch
        },
    };
    put_in(&mut doc, "tuning".to_owned(), as_value(own));
    assert(entries(doc).remove("tuning"@) =~= before.remove("tuning"@));
    Ok(doc)
}

/// Why a scenario with overrides is refused: it cannot be read, an override is
/// none, they cannot be read as settings, or the scenario's own settings are no
/// table.
pub open spec fn refusal(text: Seq<char>, sets: Seq<String>) -> Option<Seq<char>> {
    match document(text) {
        Err(e) => Some("parse scenario: "@ + e),
        Ok(doc) => if sets.len() == 0 {
            None
        } else {
            match crate::bench::settings_table(sets, sets.len() as int) {
                Err(e) => Some(e),
                Ok(src) => match document(src) {
                    Err(e) => Some("bad --set value: "@ + e),
                    Ok(_) => if settings_in(doc) is None {
                        Some("scenario [tuning] is not a table"@)
                    } else {
                        None
                    },
                },
            }
        },
    }
}

fn prefixed(prefix: &str, e: String) -> (t: String)
    ensures
        t@ == prefix@ + e@,
{
    let mut t = prefix.to_owned();
    t.append(e.as_str());
    t
}

/// Reads a scenario and lays the overrides over its settings.
pub fn read_scenario(text: &str, sets: &Vec<String>) -> (r: Result<toml::Table, String>)
    ensures
        match r {
            Ok(t) => {
                &&& refusal(text@, sets@) is None
                &&& document(text@) matches Ok(doc) && if sets@.len() == 0 {
                    entries(t) == doc
                } else {
                    &&& crate::bench::settings_table(sets@, sets@.len() as int) matches Ok(src)
                        && document(src) matches Ok(patch) && is_overlaid(entries(t), doc, patch)
                }
            },
            Err(e) => refusal(text@, sets@) == Some(e@),
        },
{
    let doc = match read_document(text) {
        Ok(t) => t,
        Err(e) => {
            return Err(prefixed("parse scenario: ", e));
        },
    };
    if sets.len() == 0 {
        return Ok(doc);
    }
    let src = match set_patch(sets) {
        Ok(s) => s,
        Err(e) => {
            return Err(e);
        },
    };
    let patch = match read_document(src.as_str()) {
        Ok(t) => t,
        Err(e) => {
            return Err(prefixed("bad --set value: ", e));
        },
    };
    overlay(doc, patch)
}

/// An override wins over the scenario's own setting, and only over that one.
pub proof fn overrides_win(
    t: Map<Seq<char>, toml::Value>,
    doc: Map<Seq<char>, toml::Value>,
    patch: Map<Seq<char>, toml::Value>,
    k: Seq<char>,
)
    requires
        is_overlaid(t, doc, patch),
    ensures
        settings_in(t) matches Some(s) && settings_in(doc) matches Some(own) && {
            &&& patch.contains_key(k) ==> s.contains_key(k) && s[k] == patch[k]
            &&& !patch.contains_key(k) ==> s.contains_key(k) == own.contains_key(k)
            &&& !patch.contains_key(k) && own.contains_key(k) ==> s[k] == own[k]
        },
{
}

} // verus!
