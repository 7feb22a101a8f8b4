//! The configuration file: tables of names with values, in TOML. Reading
//! and writing the file is the caller's part; what a value in it is and how
//! a value is put into it is decided here.

use crate::text::{pair_views, str_view};
use std::collections::BTreeMap;
use vstd::prelude::*;

verus! {

/// The file that holds the configuration.
pub const CONFIG_PATH: &'static str = "config.toml";

/// The tables of a vector, by their views: each a name with its entries.
pub open spec fn table_views(tables: Seq<(String, Vec<(String, String)>)>) -> Seq<
    (Seq<char>, Seq<(Seq<char>, Seq<char>)>),
> {
    tables.map_values(|table: (String, Vec<(String, String)>)| (table.0@, pair_views(table.1@)))
}

/// What `toml::from_str` makes of a text that is read as tables of texts:
/// the tables in the order of their names, each with its entries in the
/// order of theirs; `None` where the text is not of that shape.
pub uninterp spec fn parsed_config(content: Seq<char>) -> Option<
    Seq<(Seq<char>, Seq<(Seq<char>, Seq<char>)>)>,
>;

/// What `toml::to_string` makes of tables of texts: the text, or the words
/// of its error.
pub uninterp spec fn written_config(tables: Seq<(Seq<char>, Seq<(Seq<char>, Seq<char>)>)>) -> Result<
    Seq<char>,
    Seq<char>,
>;

/// `toml::from_str` into a sorted map of sorted maps of texts, handed on as
/// vectors in the order of the maps. The contract gives the result a name
/// and says nothing of it.
#[verifier::external_body]
fn parse_config(content: &str) -> (tables: Option<Vec<(String, Vec<(String, String)>)>>)
    ensures
        match tables {
            Some(found) => parsed_config(content@) == Some(table_views(found@)),
            None => parsed_config(content@) is None,
        },
{
    let parsed: BTreeMap<String, BTreeMap<String, String>> = toml::from_str(content).ok()?;
    Some(parsed.into_iter().map(|(name, entries)| (name, entries.into_iter().collect())).collect())
}

/// `toml::to_string` on the tables, gathered into a sorted map of sorted
/// maps, with the error written out by its `to_string`. The contract gives
/// the result a name and says nothing of it.
#[verifier::external_body]
fn write_config(tables: &Vec<(String, Vec<(String, String)>)>) -> (text: Result<String, String>)
    ensures
        match text {
            Ok(written) => written_config(table_views(tables@)) == Ok::<Seq<char>, Seq<char>>(
                written@,
            ),
            Err(words) => written_config(table_views(tables@)) == Err::<Seq<char>, Seq<char>>(
                words@,
            ),
        },
{
    let gathered: BTreeMap<&String, BTreeMap<&String, &String>> = tables
        .iter()
        .map(|(name, entries)| (name, entries.iter().map(|(key, value)| (key, value)).collect()))
        .collect();
    toml::to_string(&gathered).map_err(|error| error.to_string())
}

/// The place of the first of `names` from `from` on that is `name`; the
/// number of names where there is none.
pub open spec fn first_named(names: Seq<Seq<char>>, name: Seq<char>, from: int) -> int
    decreases names.len() - from,
{
    if from < 0 || from >= names.len() {
        names.len() as int
    } else if names[from] == name {
        from
    } else {
        first_named(names, name, from + 1)
    }
}

/// The names of entries.
pub open spec fn entry_names(entries: Seq<(Seq<char>, Seq<char>)>) -> Seq<Seq<char>> {
    entries.map_values(|entry: (Seq<char>, Seq<char>)| entry.0)
}

/// The names of tables.
pub open spec fn table_names(tables: Seq<(Seq<char>, Seq<(Seq<char>, Seq<char>)>)>) -> Seq<
    Seq<char>,
> {
    tables.map_values(|table: (Seq<char>, Seq<(Seq<char>, Seq<char>)>)| table.0)
}

/// The value of `key` in the table `section`: that of the first entry of
/// that name in the first table of that name.
pub open spec fn looked_up(
    tables: Seq<(Seq<char>, Seq<(Seq<char>, Seq<char>)>)>,
    section: Seq<char>,
    key: Seq<char>,
) -> Option<Seq<char>> {
    let at = first_named(table_names(tables), section, 0);
    if at < tables.len() {
        let entries = tables[at].1;
        let place = first_named(entry_names(entries), key, 0);
        if place < entries.len() {
            Some(entries[place].1)
        } else {
            None
        }
    } else {
        None
    }
}

/// The entries with `key` set to `value`: in place of the first entry of
/// that name, or behind the others where there is none.
pub open spec fn with_entry(
    entries: Seq<(Seq<char>, Seq<char>)>,
    key: Seq<char>,
    value: Seq<char>,
) -> Seq<(Seq<char>, Seq<char>)> {
    let place = first_named(entry_names(entries), key, 0);
    if place < entries.len() {
        entries.update(place, (key, value))
    } else {
        entries.push((key, value))
    }
}

/// The tables with `key` set to `value` in the table `section`: in the
/// first table of that name, or in a new table behind the others.
pub open spec fn with_value(
    tables: Seq<(Seq<char>, Seq<(Seq<char>, Seq<char>)>)>,
    section: Seq<char>,
    key: Seq<char>,
    value: Seq<char>,
) -> Seq<(Seq<char>, Seq<(Seq<char>, Seq<char>)>)> {
    let at = first_named(table_names(tables), section, 0);
    if at < tables.len() {
        tables.update(at, (section, with_entry(tables[at].1, key, value)))
    } else {
        tables.push((section, seq![(key, value)]))
    }
}

/// The value that the configuration has for `key` in `section`, given the
/// content of the file; none where there is no file, where it is no
/// configuration, or where it does not name the value.
pub open spec fn config_value(content: Option<Seq<char>>, section: Seq<char>, key: Seq<char>) -> Option<
    Seq<char>,
> {
    match content {
        Some(text) => match parsed_config(text) {
            Some(tables) => looked_up(tables, section, key),
            None => None,
        },
        None => None,
    }
}

/// The tables that a change starts from: those of the file, or none where
/// there is no file or it is no configuration.
pub open spec fn tables_before(content: Option<Seq<char>>) -> Seq<
    (Seq<char>, Seq<(Seq<char>, Seq<char>)>),
> {
    match content {
        Some(text) => match parsed_config(text) {
            Some(tables) => tables,
            None => Seq::empty(),
        },
        None => Seq::empty(),
    }
}

/// The new content of the file once `key` is set to `value` in `section`.
pub open spec fn config_after(
    content: Option<Seq<char>>,
    section: Seq<char>,
    key: Seq<char>,
    value: Seq<char>,
) -> Result<Seq<char>, Seq<char>> {
    written_config(with_value(tables_before(content), section, key, value))
}

/// The place of the first entry called `key`.
fn find_entry(entries: &Vec<(String, String)>, key: &String) -> (place: usize)
    ensures
        place == first_named(entry_names(pair_views(entries@)), key@, 0),
        place <= entries.len(),
{
    let ghost names = entry_names(pair_views(entries@));
    let mut place: usize = 0;
    while place < entries.len()
        invariant
            place <= entries.len(),
            names == entry_names(pair_views(entries@)),
            first_named(names, key@, 0) == first_named(names, key@, place as int),
        decreases entries.len() - place,
    {
        assert(names[place as int] == entries@[place as int].0@);
        if entries[place].0 == *key {
            return place;
        }
        place += 1;
    }
    place
}

/// The place of the first table called `section`.
fn find_table(tables: &Vec<(String, Vec<(String, String)>)>, section: &String) -> (place: usize)
    ensures
        place == first_named(table_names(table_views(tables@)), section@, 0),
        place <= tables.len(),
{
    let ghost names = table_names(table_views(tables@));
    let mut place: usize = 0;
    while place < tables.len()
        invariant
            place <= tables.len(),
            names == table_names(table_views(tables@)),
            first_named(names, section@, 0) == first_named(names, section@, place as int),
        decreases tables.len() - place,
    {
        assert(names[place as int] == tables@[place as int].0@);
        if tables[place].0 == *section {
            return place;
        }
        place += 1;
    }
    place
}

/// The value of `key` in the table `section`.
pub fn lookup(tables: &Vec<(String, Vec<(String, String)>)>, section: &str, key: &str) -> (value:
    Option<String>)
    ensures
        match value {
            Some(text) => looked_up(table_views(tables@), section@, key@) == Some(text@),
            None => looked_up(table_views(tables@), section@, key@) is None,
        },
{
    let at = find_table(tables, &section.to_owned());
    if at < tables.len() {
        let entries = &tables[at].1;
        assert(table_views(tables@)[at as int].1 == pair_views(entries@));
        let place = find_entry(entries, &key.to_owned());
        if place < entries.len() {
            assert(pair_views(entries@)[place as int].1 == entries@[place as int].1@);
            Some(entries[place].1.clone())
        } else {
            None
        }
    } else {
        None
    }
}

/// A copy of entries.
fn copy_entries(entries: &Vec<(String, String)>) -> (copy: Vec<(String, String)>)
    ensures
        pair_views(copy@) == pair_views(entries@),
{
    let mut copy: Vec<(String, String)> = Vec::new();
    let mut i: usize = 0;
    assert(pair_views(copy@) =~= pair_views(entries@).take(0));
    while i < entries.len()
        invariant
            i <= entries.len(),
            pair_views(copy@) == pair_views(entries@).take(i as int),
        decreases entries.len() - i,
    {
        let ghost before = pair_views(copy@);
        let entry = (entries[i].0.clone(), entries[i].1.clone());
        assert((entry.0@, entry.1@) == pair_views(entries@)[i as int]);
        copy.push(entry);
        assert(pair_views(copy@) =~= before.push(pair_views(entries@)[i as int]));
        assert(pair_views(entries@).take(i + 1) =~= before.push(pair_views(entries@)[i as int]));
        i += 1;
    }
    assert(pair_views(entries@).take(entries.len() as int) =~= pair_views(entries@));
    copy
}

/// Sets `key` to `value` in the table `section`.
pub fn set_value(
    tables: &mut Vec<(String, Vec<(String, String)>)>,
    section: &str,
    key: &str,
    value: &str,
)
    ensures
        table_views(final(tables)@) == with_value(
            table_views(old(tables)@),
            section@,
            key@,
            value@,
        ),
{
    let at = find_table(tables, &section.to_owned());
    if at < tables.len() {
        let mut entries = copy_entries(&tables[at].1);
        assert(table_views(tables@)[at as int].1 == pair_views(entries@));
        let place = find_entry(&entries, &key.to_owned());
        let ghost before = pair_views(entries@);
        if place < entries.len() {
            entries.set(place, (key.to_owned(), value.to_owned()));
            assert(pair_views(entries@) =~= before.update(place as int, (key@, value@)));
        } else {
            entries.push((key.to_owned(), value.to_owned()));
            assert(pair_views(entries@) =~= before.push((key@, value@)));
        }
        let ghost tables_before = table_views(tables@);
        tables.set(at, (section.to_owned(), entries));
        assert(table_views(tables@) =~= tables_before.update(
            at as int,
            (section@, with_entry(tables_before[at as int].1, key@, value@)),
        ));
    } else {
        let mut entries: Vec<(String, String)> = Vec::new();
        entries.push((key.to_owned(), value.to_owned()));
        assert(pair_views(entries@) =~= seq![(key@, value@)]);
        let ghost tables_before = table_views(tables@);
        tables.push((section.to_owned(), entries));
        assert(table_views(tables@) =~= tables_before.push((section@, seq![(key@, value@)])));
    }
}

/// The value that the configuration has for `key` in `section`. `content`
/// is what the file holds, or `None` where there is no file to read.
pub fn coexistent_config_toml(content: Option<&str>, section: &str, key: &str) -> (value: Option<
    String,
>)
    ensures
        match value {
            Some(text) => config_value(str_view(content), section@, key@) == Some(text@),
            None => config_value(str_view(content), section@, key@) is None,
        },
{
    match content {
        Some(text) => match parse_config(text) {
            Some(tables) => lookup(&tables, section, key),
            None => None,
        },
        None => None,
    }
}

/// The new content of the file once `key` is set to `value` in `section`,
/// or the words of the failure to write it out. `content` is what the file
/// holds now; without a file, or with one that is no configuration, the
/// change starts from nothing.
pub fn write_config_toml(content: Option<&str>, section: &str, key: &str, value: &str) -> (written:
    Result<String, String>)
    ensures
        match written {
            Ok(text) => config_after(str_view(content), section@, key@, value@) == Ok::<
                Seq<char>,
                Seq<char>,
            >(text@),
            Err(words) => config_after(str_view(content), section@, key@, value@) == Err::<
                Seq<char>,
                Seq<char>,
            >(words@),
        },
{
    let mut tables: Vec<(String, Vec<(String, String)>)> = match content {
        Some(text) => match parse_config(text) {
            Some(tables) => tables,
            None => Vec::new(),
        },
        None => Vec::new(),
    };
    assert(table_views(tables@) =~= tables_before(str_view(content)));
    set_value(&mut tables, section, key, value);
    write_config(&tables)
}

} // verus!
