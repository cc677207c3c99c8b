//! Saved monitor positions: reading them from the state file, merging them into it,
//! taking them from the outputs the compositor reports, and checking which of them
//! are connected.

use vstd::prelude::*;
use toml_edit::{DocumentMut, Table};
use crate::toml_doc::{
    Entries, Fields, TomlEntry, table_fields, document_entries, document_text, parse_toml,
    index_of_key, keys_distinct, upsert, visible_entries, new_table, table_insert_integer,
    table_get_integer, new_document, set_root_implicit, document_insert_table, document_tables,
    parse_document, render_document, toml_error_message,
};

verus! {

/// A monitor as it is saved: its connector name and the position of its top-left corner.
pub type MonitorView = (Seq<char>, (i32, i32));

/// One saved monitor.
#[derive(Debug, PartialEq, Eq)]
pub struct MonitorConfig {
    pub name: String,
    pub position: (i32, i32),
}

impl View for MonitorConfig {
    type V = MonitorView;

    open spec fn view(&self) -> MonitorView {
        (self.name@, self.position)
    }
}

/// The saved layout: one entry per monitor, in file order.
#[derive(Debug, PartialEq, Eq)]
pub struct MonitorState {
    pub monitors: Vec<MonitorConfig>,
}

pub open spec fn configs_view(v: Seq<MonitorConfig>) -> Seq<MonitorView> {
    v.map_values(|m: MonitorConfig| m@)
}

impl View for MonitorState {
    type V = Seq<MonitorView>;

    open spec fn view(&self) -> Seq<MonitorView> {
        configs_view(self.monitors@)
    }
}

/// Why the state file could not be read or updated.
#[derive(Clone, Debug, PartialEq, Eq)]
pub enum StateFileError {
    /// The file is not valid TOML; the parser's message.
    InvalidToml(String),
}

/// The fields a monitor's table gets: `x` and `y`.
pub open spec fn position_fields(p: (i32, i32)) -> Fields {
    Fields::empty().insert("x"@, Some(p.0 as i64)).insert("y"@, Some(p.1 as i64))
}

/// The integer under `key`, if there is one.
pub open spec fn field_integer(f: Fields, key: Seq<char>) -> Option<i64> {
    if f.contains_key(key) { f[key] } else { None }
}

/// The monitor that a table named `name` describes: both `x` and `y` must be integers,
/// each cut to its low 32 bits.
pub open spec fn config_from_fields(name: Seq<char>, f: Fields) -> Option<MonitorView> {
    match (field_integer(f, "x"@), field_integer(f, "y"@)) {
        (Some(x), Some(y)) => Some((name, (x as i32, y as i32))),
        _ => None,
    }
}

/// The monitors of a document, in order: each table entry that describes a monitor.
pub open spec fn monitors_in_entries(entries: Entries) -> Seq<MonitorView>
    decreases entries.len(),
{
    if entries.len() == 0 {
        Seq::empty()
    } else {
        let rest = monitors_in_entries(entries.drop_last());
        match entries.last().1 {
            TomlEntry::Table(f) => match config_from_fields(entries.last().0, f) {
                Some(c) => rest.push(c),
                None => rest,
            },
            _ => rest,
        }
    }
}

/// `entries` after each monitor, in order, has been written as a table under its name.
pub open spec fn merge_monitor_entries(entries: Entries, monitors: Seq<MonitorView>) -> Entries
    decreases monitors.len(),
{
    if monitors.len() == 0 {
        entries
    } else {
        let m = monitors.last();
        upsert(merge_monitor_entries(entries, monitors.drop_last()), m.0, TomlEntry::Table(position_fields(m.1)))
    }
}

/// What a save starts from: the parsed existing file, or an empty document.
pub open spec fn base_entries(existing: Option<&str>) -> Entries {
    match existing {
        Some(text) => parse_toml(text@).unwrap(),
        None => Entries::empty(),
    }
}

/// Whether `existing` (when there is a file) is valid TOML.
pub open spec fn existing_parses(existing: Option<&str>) -> bool {
    match existing {
        Some(text) => parse_toml(text@) is Some,
        None => true,
    }
}

proof fn lemma_monitors_skip_empty(entries: Entries)
    ensures
        monitors_in_entries(visible_entries(entries)) == monitors_in_entries(entries),
    decreases entries.len(),
{
    if entries.len() > 0 {
        lemma_monitors_skip_empty(entries.drop_last());
        let rest = visible_entries(entries.drop_last());
        if !(entries.last().1 is Empty) {
            assert(rest.push(entries.last()).drop_last() =~= rest);
        }
    }
}

impl MonitorConfig {
    /// A copy with the same name and position.
    pub fn duplicate(&self) -> (c: MonitorConfig)
        ensures
            c@ == self@,
    {
        MonitorConfig { name: self.name.clone(), position: self.position }
    }

    /// The table that stores this monitor's position.
    pub fn to_toml_table(&self) -> (table: Table)
        ensures
            table_fields(table) == position_fields(self.position),
            table_fields(table).dom() == set!["x"@, "y"@],
            table_fields(table)["x"@] == Some(self.position.0 as i64),
            table_fields(table)["y"@] == Some(self.position.1 as i64),
    {
        let mut table = new_table();
        table_insert_integer(&mut table, "x", self.position.0 as i64);
        table_insert_integer(&mut table, "y", self.position.1 as i64);
        proof {
            reveal_strlit("x");
            reveal_strlit("y");
            assert("x"@[0] != "y"@[0]);
            assert(table_fields(table).dom() =~= set!["x"@, "y"@]);
        }
        table
    }

    /// The monitor that `table` describes under the name `name`, if its `x` and `y`
    /// are integers.
    pub fn from_toml_table(name: String, table: &Table) -> (r: Option<MonitorConfig>)
        ensures
            r is Some <==> config_from_fields(name@, table_fields(*table)) is Some,
            r matches Some(c) ==> config_from_fields(name@, table_fields(*table)) == Some(c@),
            r is Some <==> (table_fields(*table).contains_key("x"@) && table_fields(*table)["x"@] is Some
                && table_fields(*table).contains_key("y"@) && table_fields(*table)["y"@] is Some),
            r matches Some(c) ==> c.name@ == name@
                && c.position.0 == table_fields(*table)["x"@].unwrap() as i32
                && c.position.1 == table_fields(*table)["y"@].unwrap() as i32,
    {
        let x = table_get_integer(table, "x")?;
        let y = table_get_integer(table, "y")?;
        Some(MonitorConfig { name, position: (x as i32, y as i32) })
    }
}

impl MonitorState {
    /// The layout of the enabled outputs: each becomes a monitor with its name and position.
    pub fn from_heads(heads: &[OutputHead]) -> (state: MonitorState)
        ensures
            state@ == enabled_layout(heads_view(heads@)),
            state@ == heads_view(heads@).filter_map(|h: OutputHeadView| if h.1 { Some((h.0, h.2)) } else { None }),
            forall|i: int| 0 <= i < state@.len() ==> is_enabled_output(#[trigger] state@[i], heads@),
            forall|j: int| 0 <= j < heads@.len() && heads@[j].enabled ==> in_layout(#[trigger] heads@[j], state@),
    {
        let ghost hv = heads_view(heads@);
        let mut monitors: Vec<MonitorConfig> = Vec::new();
        for i in 0..heads.len()
            invariant
                hv == heads_view(heads@),
                hv.len() == heads@.len(),
                configs_view(monitors@) == enabled_layout(hv.take(i as int)),
        {
            let ghost before = monitors@;
            assert(hv.take(i + 1).drop_last() =~= hv.take(i as int));
            assert(hv.take(i + 1).last() == heads@[i as int]@);
            let head = &heads[i];
            if head.enabled {
                monitors.push(MonitorConfig {
                    name: head.name.clone(),
                    position: (head.position_x, head.position_y),
                });
                assert(configs_view(monitors@) =~= configs_view(before).push((head.name@, (head.position_x, head.position_y))));
            }
        }
        assert(hv.take(heads@.len() as int) =~= hv);
        let state = MonitorState { monitors };
        proof {
            lemma_layout_of_heads(heads@, state@);
        }
        state
    }

    /// `Ok` when the saved layout names at least one monitor; else the error that stops
    /// an attempt to apply it.
    pub fn require_configured(&self) -> (r: Result<(), String>)
        ensures
            r is Ok <==> self@.len() > 0,
            r matches Err(msg) ==> msg@ == "No monitors configured"@,
    {
        if self.monitors.len() == 0 {
            Err(String::from_str("No monitors configured"))
        } else {
            Ok(())
        }
    }

    /// `Ok` when the current layout holds at least one enabled monitor; else the error
    /// that stops saving it.
    pub fn require_enabled_monitors(&self) -> (r: Result<(), String>)
        ensures
            r is Ok <==> self@.len() > 0,
            r matches Err(msg) ==> msg@ == "No enabled monitors found"@,
    {
        if self.monitors.len() == 0 {
            Err(String::from_str("No enabled monitors found"))
        } else {
            Ok(())
        }
    }

    /// The monitors that a document describes.
    pub fn from_document(doc: &DocumentMut) -> (state: MonitorState)
        ensures
            state@ == monitors_in_entries(document_entries(*doc)),
    {
        let tables = document_tables(doc);
        let ghost vis = visible_entries(document_entries(*doc));
        let mut monitors: Vec<MonitorConfig> = Vec::new();
        let n = tables.len();
        for i in 0..n
            invariant
                n == tables@.len(),
                tables@.len() == vis.len(),
                forall|k: int| #![trigger tables@[k]] 0 <= k < tables@.len() ==> {
                    &&& tables@[k].0@ == vis[k].0
                    &&& (tables@[k].1 is Some <==> vis[k].1 is Table)
                    &&& (tables@[k].1 matches Some(t) ==> vis[k].1 == TomlEntry::Table(table_fields(t)))
                },
                configs_view(monitors@) == monitors_in_entries(vis.take(i as int)),
        {
            let ghost before = monitors@;
            assert(vis.take(i + 1).drop_last() =~= vis.take(i as int));
            assert(vis.take(i + 1).last() == vis[i as int]);
            let entry = &tables[i];
            match &entry.1 {
                Some(table) => {
                    match MonitorConfig::from_toml_table(entry.0.clone(), table) {
                        Some(m) => {
                            monitors.push(m);
                            assert(configs_view(monitors@) =~= configs_view(before).push(m@));
                        },
                        None => {},
                    }
                },
                None => {},
            }
        }
        proof {
            assert(vis.take(n as int) =~= vis);
            lemma_monitors_skip_empty(document_entries(*doc));
        }
        MonitorState { monitors }
    }

    /// The monitors saved in the text of a state file, or why it cannot be read.
    pub fn from_state_file(content: &str) -> (r: Result<MonitorState, StateFileError>)
        ensures
            r is Ok <==> parse_toml(content@) is Some,
            r matches Ok(state) ==> state@ == monitors_in_entries(parse_toml(content@).unwrap()),
    {
        match parse_document(content) {
            Ok(doc) => Ok(MonitorState::from_document(&doc)),
            Err(e) => Err(StateFileError::InvalidToml(toml_error_message(&e))),
        }
    }

    /// Writes each monitor as a table under its name, replacing what the document held
    /// under that name and keeping everything else.
    pub fn merge_into(&self, doc: &mut DocumentMut)
        ensures
            document_entries(*final(doc)) == merge_monitor_entries(document_entries(*old(doc)), self@),
            keys_distinct(document_entries(*old(doc))) ==> keys_distinct(document_entries(*final(doc))),
    {
        let n = self.monitors.len();
        for i in 0..n
            invariant
                n == self.monitors@.len(),
                document_entries(*doc) == merge_monitor_entries(document_entries(*old(doc)), self@.take(i as int)),
        {
            let monitor = &self.monitors[i];
            let table = monitor.to_toml_table();
            document_insert_table(doc, monitor.name.as_str(), table);
            assert(self@.take(i + 1).drop_last() =~= self@.take(i as int));
        }
        assert(self@.take(n as int) =~= self@);
        proof {
            if keys_distinct(document_entries(*old(doc))) {
                lemma_merge_writes_last_of_each_name(document_entries(*old(doc)), self@);
            }
        }
    }

    /// The new text of the state file: the existing text when there is a file (which must
    /// be valid TOML), or an empty document, with every monitor written into it.
    pub fn state_file_text(&self, existing: Option<&str>) -> (r: Result<String, StateFileError>)
        ensures
            r is Ok <==> existing_parses(existing),
            r matches Ok(text) ==> exists|d: DocumentMut|
                #![trigger document_text(d)]
                text@ == document_text(d)
                && document_entries(d) == merge_monitor_entries(base_entries(existing), self@)
                && keys_distinct(document_entries(d)),
    {
        let mut doc = match existing {
            Some(text) => match parse_document(text) {
                Ok(d) => d,
                Err(e) => {
                    return Err(StateFileError::InvalidToml(toml_error_message(&e)));
                },
            },
            None => {
                let mut d = new_document();
                set_root_implicit(&mut d);
                d
            },
        };
        self.merge_into(&mut doc);
        let text = render_document(&doc);
        Ok(text)
    }
}

/// An output as the compositor reports it: what this library reads of an output head.
#[derive(Clone, Debug, PartialEq, Eq)]
pub struct OutputHead {
    pub name: String,
    pub enabled: bool,
    pub position_x: i32,
    pub position_y: i32,
}

/// Name, whether enabled, and position of an output.
pub type OutputHeadView = (Seq<char>, bool, (i32, i32));

impl View for OutputHead {
    type V = OutputHeadView;

    open spec fn view(&self) -> OutputHeadView {
        (self.name@, self.enabled, (self.position_x, self.position_y))
    }
}

pub open spec fn heads_view(heads: Seq<OutputHead>) -> Seq<OutputHeadView> {
    heads.map_values(|h: OutputHead| h@)
}

/// Whether an enabled output named `name` is among `heads`.
pub open spec fn enabled_head_named(heads: Seq<OutputHeadView>, name: Seq<char>) -> bool {
    exists|j: int| 0 <= j < heads.len() && heads[j].0 == name && heads[j].1
}

/// The layout of the enabled outputs, in the order given.
pub open spec fn enabled_layout(heads: Seq<OutputHeadView>) -> Seq<MonitorView>
    decreases heads.len(),
{
    if heads.len() == 0 {
        Seq::empty()
    } else {
        let rest = enabled_layout(heads.drop_last());
        let h = heads.last();
        if h.1 { rest.push((h.0, h.2)) } else { rest }
    }
}

/// Whether one of `heads` is enabled and named `name`.
pub open spec fn enabled_output_named(heads: Seq<OutputHead>, name: Seq<char>) -> bool {
    exists|j: int| 0 <= j < heads.len() && #[trigger] heads[j].enabled && heads[j].name@ == name
}

/// For each expected monitor, its name and whether an enabled output has that name.
pub fn check_monitors_present(heads: &[OutputHead], expected: &[MonitorConfig]) -> (found: Vec<(String, bool)>)
    ensures
        found@.len() == expected@.len(),
        forall|i: int| #![trigger found@[i]] 0 <= i < found@.len() ==> {
            &&& found@[i].0@ == expected@[i].name@
            &&& found@[i].1 == enabled_head_named(heads_view(heads@), expected@[i].name@)
            &&& found@[i].1 == enabled_output_named(heads@, expected@[i].name@)
        },
{
    let ghost hv = heads_view(heads@);
    let mut found: Vec<(String, bool)> = Vec::new();
    for i in 0..expected.len()
        invariant
            hv == heads_view(heads@),
            found@.len() == i,
            forall|k: int| #![trigger found@[k]] 0 <= k < i ==> {
                &&& found@[k].0@ == expected@[k].name@
                &&& found@[k].1 == enabled_head_named(hv, expected@[k].name@)
                &&& found@[k].1 == enabled_output_named(heads@, expected@[k].name@)
            },
    {
        let name = &expected[i].name;
        let mut is_present = false;
        for j in 0..heads.len()
            invariant
                hv == heads_view(heads@),
                is_present <==> exists|w: int| 0 <= w < j && hv[w].0 == name@ && hv[w].1,
        {
            if heads[j].name == *name && heads[j].enabled {
                is_present = true;
            }
            assert(hv[j as int] == heads@[j as int]@);
        }
        proof {
            if is_present {
                let w = choose|w: int| 0 <= w < heads@.len() && hv[w].0 == name@ && hv[w].1;
                assert(hv[w] == heads@[w]@);
                assert(heads@[w].enabled && heads@[w].name@ == name@);
            }
            if enabled_output_named(heads@, name@) {
                let j = choose|j: int| 0 <= j < heads@.len() && #[trigger] heads@[j].enabled && heads@[j].name@ == name@;
                assert(hv[j] == heads@[j]@);
            }
        }
        found.push((name.clone(), is_present));
    }
    found
}

/// Whether every expected monitor was found.
pub fn all_monitors_found(found: &[(String, bool)]) -> (all: bool)
    ensures
        all == forall|i: int| 0 <= i < found@.len() ==> #[trigger] found@[i].1,
{
    for i in 0..found.len()
        invariant
            forall|k: int| 0 <= k < i ==> #[trigger] found@[k].1,
    {
        if !found[i].1 {
            return false;
        }
    }
    true
}

/// `Ok` when every expected monitor was found; else the error that stops an attempt.
pub fn presence_verdict(found: &[(String, bool)]) -> (r: Result<(), String>)
    ensures
        r is Ok <==> forall|i: int| 0 <= i < found@.len() ==> #[trigger] found@[i].1,
        r matches Err(msg) ==> msg@ == "Not all monitors detected"@,
{
    if all_monitors_found(found) {
        Ok(())
    } else {
        Err(String::from_str("Not all monitors detected"))
    }
}

/// Whether a saved layout must be taken before watching: when the state file could
/// not be read, or it holds no monitor.
pub fn needs_initial_save(loaded: Option<&MonitorState>) -> (r: bool)
    ensures
        r == match loaded {
            Some(state) => state@.len() == 0,
            None => true,
        },
{
    match loaded {
        Some(state) => state.monitors.len() == 0,
        None => true,
    }
}

/// No two monitors share a name.
pub open spec fn names_distinct(monitors: Seq<MonitorView>) -> bool {
    forall|i: int, j: int|
        0 <= i < monitors.len() && 0 <= j < monitors.len() && i != j ==> monitors[i].0 != monitors[j].0
}

/// Whether some monitor is named `key`.
pub open spec fn names_a_monitor(monitors: Seq<MonitorView>, key: Seq<char>) -> bool {
    exists|i: int| 0 <= i < monitors.len() && monitors[i].0 == key
}

proof fn lemma_index_of_key_has_key(entries: Entries, key: Seq<char>)
    ensures
        -1 <= index_of_key(entries, key) < entries.len(),
        index_of_key(entries, key) >= 0 ==> entries[index_of_key(entries, key)].0 == key,
        (exists|k: int| 0 <= k < entries.len() && entries[k].0 == key) ==> index_of_key(entries, key) >= 0,
    decreases entries.len(),
{
    if entries.len() > 0 {
        let init = entries.drop_last();
        lemma_index_of_key_has_key(init, key);
        if entries.last().0 != key && (exists|k: int| 0 <= k < entries.len() && entries[k].0 == key) {
            let k = choose|k: int| 0 <= k < entries.len() && entries[k].0 == key;
            assert(k != entries.len() - 1);
            assert(init[k].0 == key);
        }
    }
}

/// A table entry that describes a monitor is read as that monitor.
proof fn lemma_entry_is_loaded(entries: Entries, k: int, f: Fields, c: MonitorView)
    requires
        0 <= k < entries.len(),
        entries[k].1 == TomlEntry::Table(f),
        config_from_fields(entries[k].0, f) == Some(c),
    ensures
        monitors_in_entries(entries).contains(c),
    decreases entries.len(),
{
    let rest = monitors_in_entries(entries.drop_last());
    if k == entries.len() - 1 {
        assert(rest.push(c)[rest.len() as int] == c);
    } else {
        lemma_entry_is_loaded(entries.drop_last(), k, f, c);
        let w = choose|w: int| 0 <= w < rest.len() && rest[w] == c;
        match entries.last().1 {
            TomlEntry::Table(g) => match config_from_fields(entries.last().0, g) {
                Some(d) => { assert(rest.push(d)[w] == c); },
                None => {},
            },
            _ => {},
        }
    }
}

/// The fields written for a position are read back as that position.
pub proof fn lemma_position_fields_round_trip(name: Seq<char>, p: (i32, i32))
    ensures
        config_from_fields(name, position_fields(p)) == Some((name, p)),
{
    reveal_strlit("x");
    reveal_strlit("y");
    assert("x"@ != "y"@) by {
        assert("x"@[0] != "y"@[0]);
    }
}

/// Merging monitors keeps every slot of the document in place, writes each monitor
/// (when names are distinct) into a slot under its name, and leaves a slot whose key
/// names no monitor as it was.
pub proof fn lemma_merge_places_monitors(entries: Entries, monitors: Seq<MonitorView>)
    requires
        names_distinct(monitors),
    ensures
        merge_monitor_entries(entries, monitors).len() >= entries.len(),
        forall|k: int| 0 <= k < entries.len() && !names_a_monitor(monitors, #[trigger] entries[k].0)
            ==> merge_monitor_entries(entries, monitors)[k] == entries[k],
        forall|i: int| #![trigger monitors[i]] 0 <= i < monitors.len() ==> exists|k: int|
            0 <= k < merge_monitor_entries(entries, monitors).len()
            && #[trigger] merge_monitor_entries(entries, monitors)[k]
                == (monitors[i].0, TomlEntry::Table(position_fields(monitors[i].1))),
    decreases monitors.len(),
{
    if monitors.len() > 0 {
        let init = monitors.drop_last();
        let m = monitors.last();
        assert(names_distinct(init));
        lemma_merge_places_monitors(entries, init);
        let prev = merge_monitor_entries(entries, init);
        let cur = merge_monitor_entries(entries, monitors);
        let e = TomlEntry::Table(position_fields(m.1));
        lemma_index_of_key_has_key(prev, m.0);
        let j = index_of_key(prev, m.0);
        assert forall|k: int| 0 <= k < entries.len() && !names_a_monitor(monitors, #[trigger] entries[k].0)
            implies cur[k] == entries[k] by {
            assert(!names_a_monitor(init, entries[k].0)) by {
                if names_a_monitor(init, entries[k].0) {
                    let w = choose|w: int| 0 <= w < init.len() && init[w].0 == entries[k].0;
                    assert(monitors[w] == init[w]);
                }
            }
            assert(monitors[monitors.len() - 1] == m);
            assert(entries[k].0 != m.0);
            if j >= 0 {
                assert(k != j);
            }
        }
        assert forall|i: int| #![trigger monitors[i]] 0 <= i < monitors.len() implies exists|k: int|
            0 <= k < cur.len() && #[trigger] cur[k] == (monitors[i].0, TomlEntry::Table(position_fields(monitors[i].1))) by {
            if i == monitors.len() - 1 {
                if j >= 0 {
                    assert(cur[j] == (m.0, e));
                } else {
                    assert(cur[prev.len() as int] == (m.0, e));
                }
            } else {
                assert(monitors[i] == init[i]);
                let k = choose|k: int| 0 <= k < prev.len() && #[trigger] prev[k] == (init[i].0, TomlEntry::Table(position_fields(init[i].1)));
                assert(monitors[i].0 != m.0);
                if j >= 0 {
                    assert(k != j);
                }
                assert(cur[k] == prev[k]);
            }
        }
    }
}

/// What a save writes, the next load reads: when the saved monitors have distinct
/// names, the monitors read from the merged document include every saved monitor at
/// its position, and every monitor read from a table whose name is not among the saved
/// ones is still read.
///
/// This is stated over the document that the save builds. The file holds that
/// document's text (`document_text`); that parsing the text gives back the same entries
/// is left to `toml_edit`, whose documentation does not promise it (its `Display` moves
/// root values before tables and drops empty slots).
pub proof fn lemma_saved_layout_loads_back(entries: Entries, monitors: Seq<MonitorView>)
    requires
        names_distinct(monitors),
    ensures
        forall|i: int| 0 <= i < monitors.len()
            ==> monitors_in_entries(merge_monitor_entries(entries, monitors)).contains(#[trigger] monitors[i]),
        forall|k: int| #![trigger entries[k]]
            0 <= k < entries.len() && !names_a_monitor(monitors, entries[k].0)
            && (entries[k].1 matches TomlEntry::Table(f) && config_from_fields(entries[k].0, f) is Some)
            ==> monitors_in_entries(merge_monitor_entries(entries, monitors)).contains(
                config_from_fields(entries[k].0, entries[k].1->Table_0).unwrap()),
{
    let merged = merge_monitor_entries(entries, monitors);
    lemma_merge_places_monitors(entries, monitors);
    assert forall|i: int| 0 <= i < monitors.len() implies monitors_in_entries(merged).contains(#[trigger] monitors[i]) by {
        let k = choose|k: int| 0 <= k < merged.len() && #[trigger] merged[k] == (monitors[i].0, TomlEntry::Table(position_fields(monitors[i].1)));
        lemma_position_fields_round_trip(monitors[i].0, monitors[i].1);
        lemma_entry_is_loaded(merged, k, position_fields(monitors[i].1), monitors[i]);
    }
    assert forall|k: int| #![trigger entries[k]]
        0 <= k < entries.len() && !names_a_monitor(monitors, entries[k].0)
        && (entries[k].1 matches TomlEntry::Table(f) && config_from_fields(entries[k].0, f) is Some)
        implies monitors_in_entries(merged).contains(
            config_from_fields(entries[k].0, entries[k].1->Table_0).unwrap()) by {
        let f = entries[k].1->Table_0;
        assert(merged[k] == entries[k]);
        lemma_entry_is_loaded(merged, k, f, config_from_fields(entries[k].0, f).unwrap());
    }
}

/// A layout taken from the outputs is found complete when checked against the same
/// outputs: every monitor of `enabled_layout(heads)` has an enabled output of its name.
pub proof fn lemma_current_layout_is_present(heads: Seq<OutputHeadView>)
    ensures
        forall|i: int| 0 <= i < enabled_layout(heads).len()
            ==> enabled_head_named(heads, #[trigger] enabled_layout(heads)[i].0),
    decreases heads.len(),
{
    if heads.len() > 0 {
        let init = heads.drop_last();
        lemma_current_layout_is_present(init);
        let rest = enabled_layout(init);
        let h = heads.last();
        assert forall|i: int| 0 <= i < enabled_layout(heads).len()
            implies enabled_head_named(heads, #[trigger] enabled_layout(heads)[i].0) by {
            if i < rest.len() {
                assert(enabled_layout(heads)[i] == rest[i]);
                assert(enabled_head_named(init, rest[i].0));
                let w = choose|w: int| 0 <= w < init.len() && init[w].0 == rest[i].0 && init[w].1;
                assert(heads[w] == init[w]);
            } else {
                assert(heads[heads.len() - 1] == h);
            }
        }
    }
}

/// The index of the last monitor named `name`, or -1.
pub open spec fn last_index_named(monitors: Seq<MonitorView>, name: Seq<char>) -> int
    decreases monitors.len(),
{
    if monitors.len() == 0 {
        -1
    } else if monitors.last().0 == name {
        monitors.len() - 1
    } else {
        last_index_named(monitors.drop_last(), name)
    }
}

/// The entry a save writes under `name`: a table holding the position of the last
/// monitor of that name.
pub open spec fn saved_entry(monitors: Seq<MonitorView>, name: Seq<char>) -> (Seq<char>, TomlEntry) {
    (name, TomlEntry::Table(position_fields(monitors[last_index_named(monitors, name)].1)))
}

proof fn lemma_last_index_named(monitors: Seq<MonitorView>, name: Seq<char>)
    ensures
        -1 <= last_index_named(monitors, name) < monitors.len(),
        last_index_named(monitors, name) >= 0 ==> monitors[last_index_named(monitors, name)].0 == name,
        last_index_named(monitors, name) >= 0 <==> names_a_monitor(monitors, name),
    decreases monitors.len(),
{
    if monitors.len() > 0 {
        let init = monitors.drop_last();
        lemma_last_index_named(init, name);
        if monitors.last().0 != name {
            if names_a_monitor(monitors, name) {
                let i = choose|i: int| 0 <= i < monitors.len() && monitors[i].0 == name;
                assert(init[i].0 == name);
            }
            if names_a_monitor(init, name) {
                let i = choose|i: int| 0 <= i < init.len() && init[i].0 == name;
                assert(monitors[i].0 == name);
            }
        } else {
            assert(monitors[monitors.len() - 1].0 == name);
        }
    }
}

/// What a save does to a document whose keys are distinct, for any list of monitors
/// (names may repeat): the keys stay distinct; a slot whose key names a monitor now
/// holds the table of the last monitor of that name, and every other old slot is as it
/// was, in place; the slots added after the old ones are for monitor names the document
/// did not have, each holding the table of the last monitor of that name; and every
/// monitor's name has a slot. No other key appears.
pub proof fn lemma_merge_writes_last_of_each_name(entries: Entries, monitors: Seq<MonitorView>)
    requires
        keys_distinct(entries),
    ensures
        keys_distinct(merge_monitor_entries(entries, monitors)),
        merge_monitor_entries(entries, monitors).len() >= entries.len(),
        forall|j: int| #![trigger entries[j]] 0 <= j < entries.len() ==>
            merge_monitor_entries(entries, monitors)[j] == (if names_a_monitor(monitors, entries[j].0) {
                saved_entry(monitors, entries[j].0)
            } else {
                entries[j]
            }),
        forall|j: int| #![trigger merge_monitor_entries(entries, monitors)[j]]
            entries.len() <= j < merge_monitor_entries(entries, monitors).len() ==> {
                let key = merge_monitor_entries(entries, monitors)[j].0;
                &&& names_a_monitor(monitors, key)
                &&& index_of_key(entries, key) < 0
                &&& merge_monitor_entries(entries, monitors)[j] == saved_entry(monitors, key)
            },
        forall|i: int| #![trigger monitors[i]] 0 <= i < monitors.len() ==>
            index_of_key(merge_monitor_entries(entries, monitors), monitors[i].0) >= 0,
    decreases monitors.len(),
{
    if monitors.len() > 0 {
        let init = monitors.drop_last();
        let m = monitors.last();
        lemma_merge_writes_last_of_each_name(entries, init);
        let prev = merge_monitor_entries(entries, init);
        let cur = merge_monitor_entries(entries, monitors);
        let t = (m.0, TomlEntry::Table(position_fields(m.1)));
        lemma_index_of_key_has_key(prev, m.0);
        let idx = index_of_key(prev, m.0);
        assert(monitors[monitors.len() - 1] == m);
        assert forall|n: Seq<char>| n != m.0 implies
            #[trigger] names_a_monitor(monitors, n) == names_a_monitor(init, n)
            && (names_a_monitor(init, n) ==> saved_entry(monitors, n) == saved_entry(init, n)) by {
            lemma_last_index_named(init, n);
            lemma_last_index_named(monitors, n);
        }
        lemma_last_index_named(monitors, m.0);
        assert(names_a_monitor(monitors, m.0));
        assert(saved_entry(monitors, m.0) == t);
        if idx >= 0 {
            assert(cur == prev.update(idx, t));
            assert forall|j: int| 0 <= j < cur.len() && j != idx implies #[trigger] cur[j].0 != m.0 by {
                assert(prev[j].0 != prev[idx].0);
            }
            assert(keys_distinct(cur));
            assert forall|j: int| #![trigger entries[j]] 0 <= j < entries.len() implies
                cur[j] == (if names_a_monitor(monitors, entries[j].0) { saved_entry(monitors, entries[j].0) } else { entries[j] }) by {
                assert(prev[j].0 == entries[j].0);
                if entries[j].0 == m.0 {
                    assert(j == idx);
                } else {
                    assert(j != idx);
                    assert(names_a_monitor(monitors, entries[j].0) == names_a_monitor(init, entries[j].0));
                }
            }
            assert forall|j: int| #![trigger cur[j]] entries.len() <= j < cur.len() implies ({
                let key = cur[j].0;
                &&& names_a_monitor(monitors, key)
                &&& index_of_key(entries, key) < 0
                &&& cur[j] == saved_entry(monitors, key)
            }) by {
                assert(prev[j] == prev[j]);
                if j == idx {
                    assert(cur[j] == t);
                } else {
                    assert(cur[j] == prev[j]);
                    assert(prev[j].0 != m.0);
                    assert(names_a_monitor(monitors, prev[j].0) == names_a_monitor(init, prev[j].0));
                }
            }
            assert forall|i: int| #![trigger monitors[i]] 0 <= i < monitors.len() implies
                index_of_key(cur, monitors[i].0) >= 0 by {
                lemma_index_of_key_has_key(cur, monitors[i].0);
                if i == monitors.len() - 1 {
                    assert(cur[idx].0 == monitors[i].0);
                } else {
                    assert(init[i] == monitors[i]);
                    lemma_index_of_key_has_key(prev, init[i].0);
                    let w = index_of_key(prev, init[i].0);
                    assert(cur[w].0 == prev[w].0);
                }
            }
        } else {
            assert(cur == prev.push(t));
            assert forall|j: int| 0 <= j < prev.len() implies #[trigger] prev[j].0 != m.0 by {}
            assert(keys_distinct(cur));
            assert forall|j: int| #![trigger entries[j]] 0 <= j < entries.len() implies
                cur[j] == (if names_a_monitor(monitors, entries[j].0) { saved_entry(monitors, entries[j].0) } else { entries[j] }) by {
                assert(prev[j].0 == entries[j].0);
                assert(cur[j] == prev[j]);
                assert(entries[j].0 != m.0);
                assert(names_a_monitor(monitors, entries[j].0) == names_a_monitor(init, entries[j].0));
            }
            assert forall|j: int| #![trigger cur[j]] entries.len() <= j < cur.len() implies ({
                let key = cur[j].0;
                &&& names_a_monitor(monitors, key)
                &&& index_of_key(entries, key) < 0
                &&& cur[j] == saved_entry(monitors, key)
            }) by {
                if j == prev.len() {
                    assert(cur[j] == t);
                    lemma_index_of_key_has_key(entries, m.0);
                    if index_of_key(entries, m.0) >= 0 {
                        let w = index_of_key(entries, m.0);
                        assert(prev[w].0 == entries[w].0);
                    }
                } else {
                    assert(cur[j] == prev[j]);
                    assert(prev[j].0 != m.0);
                    assert(names_a_monitor(monitors, prev[j].0) == names_a_monitor(init, prev[j].0));
                }
            }
            assert forall|i: int| #![trigger monitors[i]] 0 <= i < monitors.len() implies
                index_of_key(cur, monitors[i].0) >= 0 by {
                lemma_index_of_key_has_key(cur, monitors[i].0);
                if i == monitors.len() - 1 {
                    assert(cur[prev.len() as int].0 == monitors[i].0);
                } else {
                    assert(init[i] == monitors[i]);
                    lemma_index_of_key_has_key(prev, init[i].0);
                    let w = index_of_key(prev, init[i].0);
                    assert(cur[w].0 == prev[w].0);
                }
            }
        }
    }
}

/// Saving the same monitors twice is the same as saving them once: merging them into a
/// document (with distinct keys) that already holds them changes nothing.
pub proof fn lemma_merge_is_idempotent(entries: Entries, monitors: Seq<MonitorView>)
    requires
        keys_distinct(entries),
    ensures
        merge_monitor_entries(merge_monitor_entries(entries, monitors), monitors)
            == merge_monitor_entries(entries, monitors),
{
    let once = merge_monitor_entries(entries, monitors);
    lemma_merge_writes_last_of_each_name(entries, monitors);
    lemma_merge_writes_last_of_each_name(once, monitors);
    let twice = merge_monitor_entries(once, monitors);
    if twice.len() > once.len() {
        let key = twice[once.len() as int].0;
        assert(names_a_monitor(monitors, key));
        let i = choose|i: int| 0 <= i < monitors.len() && monitors[i].0 == key;
        assert(index_of_key(once, monitors[i].0) >= 0);
        assert(false);
    }
    assert forall|j: int| 0 <= j < once.len() implies #[trigger] twice[j] == once[j] by {
        assert(twice[j] == (if names_a_monitor(monitors, once[j].0) { saved_entry(monitors, once[j].0) } else { once[j] }));
        if names_a_monitor(monitors, once[j].0) {
            if j < entries.len() {
                assert(once[j] == (if names_a_monitor(monitors, entries[j].0) { saved_entry(monitors, entries[j].0) } else { entries[j] }));
            } else {
                assert(once[j] == saved_entry(monitors, once[j].0));
            }
        }
    }
    assert(twice =~= once);
}

/// The document a save writes into a fresh file: one table per monitor, in order, when
/// the names are distinct.
pub open spec fn fresh_entries(monitors: Seq<MonitorView>) -> Entries {
    monitors.map_values(|m: MonitorView| (m.0, TomlEntry::Table(position_fields(m.1))))
}

proof fn lemma_merge_into_empty(monitors: Seq<MonitorView>)
    requires
        names_distinct(monitors),
    ensures
        merge_monitor_entries(Entries::empty(), monitors) == fresh_entries(monitors),
    decreases monitors.len(),
{
    if monitors.len() > 0 {
        let init = monitors.drop_last();
        let m = monitors.last();
        assert(names_distinct(init));
        lemma_merge_into_empty(init);
        let prev = fresh_entries(init);
        lemma_index_of_key_has_key(prev, m.0);
        if index_of_key(prev, m.0) >= 0 {
            let w = index_of_key(prev, m.0);
            assert(prev[w].0 == init[w].0);
            assert(monitors[w] == init[w]);
            assert(monitors[monitors.len() - 1] == m);
            assert(false);
        }
        assert(prev.push((m.0, TomlEntry::Table(position_fields(m.1)))) =~= fresh_entries(monitors));
    }
}

proof fn lemma_fresh_entries_load(monitors: Seq<MonitorView>)
    ensures
        monitors_in_entries(fresh_entries(monitors)) == monitors,
    decreases monitors.len(),
{
    if monitors.len() > 0 {
        let init = monitors.drop_last();
        lemma_fresh_entries_load(init);
        assert(fresh_entries(monitors).drop_last() =~= fresh_entries(init));
        lemma_position_fields_round_trip(monitors.last().0, monitors.last().1);
        assert(init.push(monitors.last()) =~= monitors);
    }
}

/// A layout saved into a fresh file is read back exactly: the same monitors, in the
/// same order, when their names are distinct. (This is stated over the document the
/// save builds; that re-parsing its text gives the same entries is `toml_edit`'s
/// concern, and its documentation does not promise it.)
pub proof fn lemma_fresh_save_loads_back_exactly(monitors: Seq<MonitorView>)
    requires
        names_distinct(monitors),
    ensures
        monitors_in_entries(merge_monitor_entries(Entries::empty(), monitors)) == monitors,
{
    lemma_merge_into_empty(monitors);
    lemma_fresh_entries_load(monitors);
}

/// The monitor `m` is the output `h`: same name, same position.
pub open spec fn placed_at(m: MonitorView, h: OutputHead) -> bool {
    m.0 == h.name@ && m.1.0 == h.position_x && m.1.1 == h.position_y
}

/// `m` is an enabled output among `heads`, at that output's position.
pub open spec fn is_enabled_output(m: MonitorView, heads: Seq<OutputHead>) -> bool {
    exists|j: int| 0 <= j < heads.len() && #[trigger] heads[j].enabled && placed_at(m, heads[j])
}

/// The output `h` is in the layout `st` with its name and position.
pub open spec fn in_layout(h: OutputHead, st: Seq<MonitorView>) -> bool {
    exists|i: int| 0 <= i < st.len() && placed_at(#[trigger] st[i], h)
}

proof fn lemma_layout_entry_from_head(heads: Seq<OutputHead>, st: Seq<MonitorView>, i: int)
    requires
        st == enabled_layout(heads_view(heads)),
        0 <= i < st.len(),
    ensures
        is_enabled_output(st[i], heads),
{
    let hv = heads_view(heads);
    lemma_layout_is_enabled_outputs(hv);
    assert(st[i] == enabled_layout(hv)[i]);
    let j = choose|j: int| #![trigger hv[j]] 0 <= j < hv.len() && hv[j].1 && enabled_layout(hv)[i] == (hv[j].0, hv[j].2);
    assert(hv[j] == heads[j]@);
    assert(heads[j].enabled);
    assert(placed_at(st[i], heads[j]));
}

proof fn lemma_layout_holds_head(heads: Seq<OutputHead>, st: Seq<MonitorView>, j: int)
    requires
        st == enabled_layout(heads_view(heads)),
        0 <= j < heads.len(),
        heads[j].enabled,
    ensures
        in_layout(heads[j], st),
{
    let hv = heads_view(heads);
    lemma_layout_is_enabled_outputs(hv);
    assert(hv[j] == heads[j]@);
    assert(hv[j].1);
    let i = choose|i: int| 0 <= i < enabled_layout(hv).len() && enabled_layout(hv)[i] == (hv[j].0, hv[j].2);
    assert(placed_at(st[i], heads[j]));
}

proof fn lemma_layout_of_heads(heads: Seq<OutputHead>, st: Seq<MonitorView>)
    requires
        st == enabled_layout(heads_view(heads)),
    ensures
        st == heads_view(heads).filter_map(|h: OutputHeadView| if h.1 { Some((h.0, h.2)) } else { None }),
        forall|i: int| 0 <= i < st.len() ==> is_enabled_output(#[trigger] st[i], heads),
        forall|j: int| 0 <= j < heads.len() && heads[j].enabled ==> in_layout(#[trigger] heads[j], st),
{
    assert(st == heads_view(heads).filter_map(|h: OutputHeadView| if h.1 { Some((h.0, h.2)) } else { None })) by {
        lemma_layout_is_enabled_outputs(heads_view(heads));
    }
    assert forall|i: int| 0 <= i < st.len() implies is_enabled_output(#[trigger] st[i], heads) by {
        lemma_layout_entry_from_head(heads, st, i);
    }
    assert forall|j: int| 0 <= j < heads.len() && heads[j].enabled implies in_layout(#[trigger] heads[j], st) by {
        lemma_layout_holds_head(heads, st, j);
    }
}

/// The layout taken from the outputs is exactly the enabled outputs, in order, each with
/// its name and both of its coordinates: every monitor of the layout is an enabled output
/// at that output's position, and every enabled output is in the layout at its position.
pub proof fn lemma_layout_is_enabled_outputs(heads: Seq<OutputHeadView>)
    ensures
        enabled_layout(heads) == heads.filter_map(|h: OutputHeadView| if h.1 { Some((h.0, h.2)) } else { None }),
        forall|i: int| #![trigger enabled_layout(heads)[i]] 0 <= i < enabled_layout(heads).len() ==> exists|j: int| #![trigger heads[j]]
            0 <= j < heads.len() && heads[j].1 && enabled_layout(heads)[i] == (heads[j].0, heads[j].2),
        forall|j: int| 0 <= j < heads.len() && #[trigger] heads[j].1 ==> exists|i: int|
            0 <= i < enabled_layout(heads).len() && enabled_layout(heads)[i] == (heads[j].0, heads[j].2),
    decreases heads.len(),
{
    if heads.len() > 0 {
        let init = heads.drop_last();
        let h = heads.last();
        lemma_layout_is_enabled_outputs(init);
        let rest = enabled_layout(init);
        let f = |x: OutputHeadView| if x.1 { Some((x.0, x.2)) } else { None };
        if h.1 {
            assert(init.filter_map(f) + seq![(h.0, h.2)] =~= rest.push((h.0, h.2)));
        }
        let lay = enabled_layout(heads);
        assert forall|i: int| #![trigger lay[i]] 0 <= i < lay.len() implies exists|j: int| #![trigger heads[j]]
            0 <= j < heads.len() && heads[j].1 && lay[i] == (heads[j].0, heads[j].2) by {
            if i < rest.len() {
                assert(lay[i] == rest[i]);
                let j = choose|j: int| #![trigger init[j]] 0 <= j < init.len() && init[j].1 && rest[i] == (init[j].0, init[j].2);
                assert(heads[j] == init[j]);
            } else {
                assert(heads[heads.len() - 1] == h);
            }
        }
        assert forall|j: int| 0 <= j < heads.len() && #[trigger] heads[j].1 implies exists|i: int|
            0 <= i < lay.len() && lay[i] == (heads[j].0, heads[j].2) by {
            if j < init.len() {
                assert(init[j] == heads[j]);
                assert(init[j].1);
                let i = choose|i: int| 0 <= i < rest.len() && rest[i] == (init[j].0, init[j].2);
                assert(lay[i] == rest[i]);
            } else {
                assert(heads[j] == h);
                assert(lay[rest.len() as int] == (h.0, h.2));
            }
        }
    }
}

/// Every monitor read from a document comes from a table entry of that name whose `x`
/// and `y` are integers, each cut to 32 bits; and every such table entry is read as a
/// monitor.
pub proof fn lemma_loaded_monitors_are_tables_with_coordinates(entries: Entries)
    ensures
        forall|i: int| 0 <= i < monitors_in_entries(entries).len() ==> exists|k: int|
            #![trigger entries[k]]
            0 <= k < entries.len() && table_describes(entries[k], #[trigger] monitors_in_entries(entries)[i]),
        forall|k: int| 0 <= k < entries.len() && #[trigger] table_with_coordinates(entries[k]) ==>
            monitors_in_entries(entries).contains(monitor_of_table(entries[k])),
    decreases entries.len(),
{
    reveal_strlit("x");
    reveal_strlit("y");
    if entries.len() > 0 {
        let init = entries.drop_last();
        lemma_loaded_monitors_are_tables_with_coordinates(init);
        let rest = monitors_in_entries(init);
        let all = monitors_in_entries(entries);
        let e = entries.last();
        assert(entries[entries.len() - 1] == e);
        assert forall|i: int| 0 <= i < all.len() implies exists|k: int|
            #![trigger entries[k]]
            0 <= k < entries.len() && table_describes(entries[k], #[trigger] all[i]) by {
            if i < rest.len() {
                assert(all[i] == rest[i]);
                let k = choose|k: int| #![trigger init[k]] 0 <= k < init.len() && table_describes(init[k], rest[i]);
                assert(entries[k] == init[k]);
            }
        }
        assert forall|k: int| 0 <= k < entries.len() && #[trigger] table_with_coordinates(entries[k]) implies
            all.contains(monitor_of_table(entries[k])) by {
            if k < init.len() {
                assert(entries[k] == init[k]);
                assert(rest.contains(monitor_of_table(init[k])));
                let w = choose|w: int| 0 <= w < rest.len() && rest[w] == monitor_of_table(init[k]);
                assert(all[w] == rest[w]);
            } else {
                assert(all[rest.len() as int] == monitor_of_table(e));
            }
        }
    }
}

/// The entry `e` is a table whose `x` and `y` are integers that, cut to 32 bits, are the
/// position of `m`, and whose key is `m`'s name.
pub open spec fn table_describes(e: (Seq<char>, TomlEntry), m: MonitorView) -> bool {
    &&& e.1 matches TomlEntry::Table(f)
    &&& f.contains_key("x"@)
    &&& f["x"@] is Some
    &&& m.1.0 == f["x"@].unwrap() as i32
    &&& f.contains_key("y"@)
    &&& f["y"@] is Some
    &&& m.1.1 == f["y"@].unwrap() as i32
    &&& m.0 == e.0
}

/// The entry `e` is a table whose `x` and `y` are integers.
pub open spec fn table_with_coordinates(e: (Seq<char>, TomlEntry)) -> bool {
    &&& e.1 matches TomlEntry::Table(f)
    &&& f.contains_key("x"@)
    &&& f["x"@] is Some
    &&& f.contains_key("y"@)
    &&& f["y"@] is Some
}

/// The monitor that a table with integer `x` and `y` stands for.
pub open spec fn monitor_of_table(e: (Seq<char>, TomlEntry)) -> MonitorView {
    let f = e.1->Table_0;
    (e.0, (f["x"@].unwrap() as i32, f["y"@].unwrap() as i32))
}

} // verus!
