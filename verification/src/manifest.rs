//! Reading the board a project records in its `Cargo.toml`, under `[package.metadata.scry]`,
//! through the `toml` crate, and finding the manifest that cargo is told to use.

use vstd::prelude::*;

use toml::Value;

use crate::text::{same_text, starts_with, strings_view, text, text_from, text_starts_with};

verus! {

/// What a TOML document holds under a path of keys: nothing, or a value of one of TOML's kinds.
/// Only a string's contents are kept.
pub enum TomlEntry {
    Missing,
    Text(String),
    Integer,
    Float,
    Boolean,
    Datetime,
    Array,
    Table,
}

/// A [`TomlEntry`] as values.
pub enum TomlEntryView {
    Missing,
    Text(Seq<char>),
    Integer,
    Float,
    Boolean,
    Datetime,
    Array,
    Table,
}

impl View for TomlEntry {
    type V = TomlEntryView;

    open spec fn view(&self) -> TomlEntryView {
        match self {
            TomlEntry::Missing => TomlEntryView::Missing,
            TomlEntry::Text(s) => TomlEntryView::Text(s@),
            TomlEntry::Integer => TomlEntryView::Integer,
            TomlEntry::Float => TomlEntryView::Float,
            TomlEntry::Boolean => TomlEntryView::Boolean,
            TomlEntry::Datetime => TomlEntryView::Datetime,
            TomlEntry::Array => TomlEntryView::Array,
            TomlEntry::Table => TomlEntryView::Table,
        }
    }
}

/// What the `toml` crate makes of a document's text and a path of keys: the message of the error
/// that parsing the text as a `toml::Table` gives, or what the document holds under the keys, each
/// looked up in the value the keys before it found.
pub uninterp spec fn toml_entry(text: Seq<char>, keys: Seq<Seq<char>>) -> Result<TomlEntryView, Seq<char>>;

/// A lookup's result as values.
pub open spec fn entry_view(r: Result<TomlEntry, String>) -> Result<TomlEntryView, Seq<char>> {
    match r {
        Err(e) => Err(e@),
        Ok(entry) => Ok(entry@),
    }
}

/// A manifest's board as values.
pub open spec fn board_view(r: Result<Option<String>, String>) -> Result<Option<Seq<char>>, Seq<char>> {
    match r {
        Err(e) => Err(e@),
        Ok(None) => Ok(None),
        Ok(Some(b)) => Ok(Some(b@)),
    }
}

/// Parses `text` with `toml` (`str::parse` into a `toml::Table`, taken as a `toml::Value`) and
/// looks up each key in turn with `toml::Value::get`, which finds nothing in a value that is not
/// a table. The contract claims only that the result is what [`toml_entry`] names for this text
/// and these keys: the same text and keys always give the same result.
#[verifier::external_body]
pub(crate) fn read_toml_entry(text: &str, keys: &Vec<String>) -> (r: Result<TomlEntry, String>)
    ensures
        entry_view(r) == toml_entry(text@, strings_view(keys@)),
{
    let root = Value::Table(text.parse().map_err(|error: toml::de::Error| error.to_string())?);
    let found = keys.iter().try_fold(&root, |value, key| value.get(key.as_str())).cloned();
    Ok(match found {
        None => TomlEntry::Missing,
        Some(Value::String(s)) => TomlEntry::Text(s),
        Some(Value::Integer(_)) => TomlEntry::Integer,
        Some(Value::Float(_)) => TomlEntry::Float,
        Some(Value::Boolean(_)) => TomlEntry::Boolean,
        Some(Value::Datetime(_)) => TomlEntry::Datetime,
        Some(Value::Array(_)) => TomlEntry::Array,
        Some(Value::Table(_)) => TomlEntry::Table,
    })
}

/// Where a project records its board: `board` under `[package.metadata.scry]`.
pub open spec fn board_keys() -> Seq<Seq<char>> {
    seq!["package"@, "metadata"@, "scry"@, "board"@]
}

/// What the board entry of the manifest at `manifest` (shown in messages) means: no board, the
/// board, or why the manifest cannot be used.
pub open spec fn manifest_board(manifest: Seq<char>, entry: Result<TomlEntryView, Seq<char>>) -> Result<
    Option<Seq<char>>,
    Seq<char>,
> {
    match entry {
        Err(e) => Err("cannot parse "@ + manifest + ": "@ + e),
        Ok(TomlEntryView::Missing) => Ok(None),
        Ok(TomlEntryView::Text(b)) => Ok(Some(b)),
        Ok(_) => Err("`board` under [package.metadata.scry] in "@ + manifest + " must be a string"@),
    }
}

/// Decides what the board entry read from the manifest at `manifest` means.
pub fn board_entry_outcome(entry: Result<TomlEntry, String>, manifest: &str) -> (r: Result<
    Option<String>,
    String,
>)
    ensures
        board_view(r) == manifest_board(manifest@, entry_view(entry)),
{
    match entry {
        Err(e) => {
            let mut message = text("cannot parse ");
            message.append(manifest);
            message.append(": ");
            message.append(e.as_str());
            Err(message)
        },
        Ok(TomlEntry::Missing) => Ok(None),
        Ok(TomlEntry::Text(b)) => Ok(Some(b)),
        Ok(_) => {
            let mut message = text("`board` under [package.metadata.scry] in ");
            message.append(manifest);
            message.append(" must be a string");
            Err(message)
        },
    }
}

/// Reads `board` from `[package.metadata.scry]` of the manifest text `manifest_text`, read from
/// the file `manifest` (shown in messages).
pub fn board_from_manifest(manifest_text: &str, manifest: &str) -> (r: Result<Option<String>, String>)
    ensures
        board_view(r) == manifest_board(manifest@, toml_entry(manifest_text@, board_keys())),
{
    let mut keys: Vec<String> = Vec::new();
    keys.push(text("package"));
    keys.push(text("metadata"));
    keys.push(text("scry"));
    keys.push(text("board"));
    assert(strings_view(keys@) =~= board_keys());
    let entry = read_toml_entry(manifest_text, &keys);
    board_entry_outcome(entry, manifest)
}

/// The manifest named by argument `i`: the rest of a `--manifest-path=<path>`, or the argument
/// after a `--manifest-path` that has one.
pub open spec fn manifest_path_at(args: Seq<Seq<char>>, i: int) -> Option<Seq<char>> {
    if starts_with(args[i], "--manifest-path="@) {
        Some(args[i].skip(16))
    } else if args[i] == "--manifest-path"@ && i + 1 < args.len() {
        Some(args[i + 1])
    } else {
        None
    }
}

/// The first manifest named by the arguments from `from` on.
pub open spec fn first_manifest_path(args: Seq<Seq<char>>, from: int) -> Option<Seq<char>>
    decreases args.len() - from,
{
    if from < 0 || from >= args.len() {
        None
    } else if manifest_path_at(args, from) is Some {
        manifest_path_at(args, from)
    } else {
        first_manifest_path(args, from + 1)
    }
}

/// The manifest the cargo arguments name with `--manifest-path <path>` or
/// `--manifest-path=<path>`, the first one that names one. A `--manifest-path` at the end names
/// nothing.
pub fn explicit_manifest_path(args: &Vec<String>) -> (r: Option<String>)
    ensures
        match r {
            Some(p) => first_manifest_path(strings_view(args@), 0) == Some(p@),
            None => first_manifest_path(strings_view(args@), 0) is None,
        },
{
    let ghost sv = strings_view(args@);
    let mut i: usize = 0;
    while i < args.len()
        invariant
            i <= args.len(),
            sv == strings_view(args@),
            first_manifest_path(sv, 0) == first_manifest_path(sv, i as int),
        decreases args.len() - i,
    {
        assert(sv[i as int] == args@[i as int]@);
        if text_starts_with(args[i].as_str(), "--manifest-path=") {
            proof {
                reveal_strlit("--manifest-path=");
            }
            return Some(text_from(args[i].as_str(), 16));
        }
        if same_text(args[i].as_str(), "--manifest-path") && i + 1 < args.len() {
            assert(sv[i + 1] == args@[i + 1]@);
            return Some(text(args[i + 1].as_str()));
        }
        i = i + 1;
    }
    None
}

} // verus!
