//! The persisted form of the channel settings: a TOML document whose
//! `keyboards` array of tables holds, per channel, `octave`, `program_no`,
//! `reverb` and `chorus`. Velocities are not persisted.

use vstd::prelude::*;
use toml_edit::{ArrayOfTables, Document, Item, Table, Value};
use crate::settings::{
    all_wf, default_keyboard, keyboard_views, KeyboardSettings, KeyboardView, SynthesizerSettings,
    DEFAULT_OCTAVE, MAX_OCTAVE, MAX_PROGRAM,
};

verus! {

#[verifier::external_type_specification]
#[verifier::external_body]
pub struct ExDocument(Document);

#[verifier::external_type_specification]
#[verifier::external_body]
pub struct ExTable(Table);

#[verifier::external_type_specification]
#[verifier::external_body]
pub struct ExItem(Item);

#[verifier::external_type_specification]
#[verifier::external_body]
pub struct ExArrayOfTables(ArrayOfTables);

/// Key of the array of per-channel tables.
pub const KEYBOARDS_KEY: &'static str = "keyboards";

pub const OCTAVE_KEY: &'static str = "octave";

pub const PROGRAM_KEY: &'static str = "program_no";

pub const REVERB_KEY: &'static str = "reverb";

pub const CHORUS_KEY: &'static str = "chorus";

/// What one TOML item holds, as far as channel settings are concerned.
pub ghost enum TomlVal {
    Integer(i64),
    Bool(bool),
    /// An array of tables, each table as its keys and items.
    Tables(Seq<Map<Seq<char>, TomlVal>>),
    /// Any other kind of value or table.
    Other,
    /// An empty slot, which lookups do not report.
    Absent,
}

/// The root table that TOML text parses to, if it parses.
pub uninterp spec fn parsed(text: Seq<char>) -> Option<Map<Seq<char>, TomlVal>>;

/// What a document's root table holds.
pub uninterp spec fn document_view(d: Document) -> Map<Seq<char>, TomlVal>;

/// What a table holds: its keys and their items.
pub uninterp spec fn table_view(t: Table) -> Map<Seq<char>, TomlVal>;

/// What an array of tables holds, in order.
pub uninterp spec fn tables_view(a: ArrayOfTables) -> Seq<Map<Seq<char>, TomlVal>>;

/// What an item holds.
pub uninterp spec fn item_view(i: Item) -> TomlVal;

/// A table without keys.
pub open spec fn empty_table() -> Map<Seq<char>, TomlVal> {
    Map::empty()
}

/// Whether a lookup of `key` in a table holding `t` finds an item.
pub open spec fn has_item(t: Map<Seq<char>, TomlVal>, key: Seq<char>) -> bool {
    t.contains_key(key) && t[key] != TomlVal::Absent
}

/// Relies on `<toml_edit::Document as FromStr>::from_str`: parses TOML text;
/// the outcome depends on the text alone, and empty text is an empty
/// document.
#[verifier::external_body]
fn parse_document(text: &str) -> (r: Option<Document>)
    ensures
        r is Some == parsed(text@) is Some,
        r matches Some(d) ==> parsed(text@) == Some(document_view(d)),
        r is None ==> text@.len() != 0,
        r matches Some(d) ==> (text@.len() == 0 ==> document_view(d) == empty_table()),
{
    text.parse::<Document>().ok()
}

/// Relies on `toml_edit::Document::new`: an empty document.
#[verifier::external_body]
fn new_document() -> (r: Document)
    ensures
        document_view(r) == empty_table(),
{
    Document::new()
}

/// Relies on `toml_edit::Document::as_table`: the root table, which a
/// document always has.
#[verifier::external_body]
fn root(doc: &Document) -> (r: &Table)
    ensures
        table_view(*r) == document_view(*doc),
{
    doc.as_table()
}

/// Relies on `toml_edit::Document::as_table_mut`: the root table, which a
/// document always has.
#[verifier::external_body]
fn root_mut(doc: &mut Document) -> (r: &mut Table)
    ensures
        table_view(*r) == document_view(*old(doc)),
        document_view(*final(doc)) == table_view(*final(r)),
{
    doc.as_table_mut()
}

/// Relies on `toml_edit::Table::get`: the item under `key`, unless that
/// slot is empty.
#[verifier::external_body]
fn table_get<'a>(table: &'a Table, key: &str) -> (r: Option<&'a Item>)
    ensures
        r is Some == has_item(table_view(*table), key@),
        r matches Some(i) ==> item_view(*i) == table_view(*table)[key@],
{
    table.get(key)
}

/// Relies on `toml_edit::Table::get_mut`: the item under `key`, unless that
/// slot is empty; what is written through it lands under `key`.
#[verifier::external_body]
fn table_get_mut<'a>(table: &'a mut Table, key: &str) -> (r: Option<&'a mut Item>)
    ensures
        r is Some == has_item(table_view(*old(table)), key@),
        r matches Some(i) ==> item_view(*i) == table_view(*old(table))[key@] && table_view(
            *final(table),
        ) == table_view(*old(table)).insert(key@, item_view(*final(i))),
        r is None ==> *final(table) == *old(table),
{
    table.get_mut(key)
}

/// Relies on `toml_edit::Table::insert`: puts `item` under `key`, replacing
/// what was there.
#[verifier::external_body]
fn table_insert(table: &mut Table, key: &str, item: Item)
    ensures
        table_view(*final(table)) == table_view(*old(table)).insert(key@, item_view(item)),
{
    let _ = table.insert(key, item);
}

/// Relies on `toml_edit::Table::sort_values`: orders the table's keys,
/// keeping every key and item.
#[verifier::external_body]
fn sort_table(table: &mut Table)
    ensures
        table_view(*final(table)) == table_view(*old(table)),
{
    table.sort_values();
}

/// Relies on `toml_edit::Table::new`: an empty table.
#[verifier::external_body]
fn new_table() -> (r: Table)
    ensures
        table_view(r) == empty_table(),
{
    Table::new()
}

/// Relies on `toml_edit::Item::as_array_of_tables`.
#[verifier::external_body]
fn item_tables(item: &Item) -> (r: Option<&ArrayOfTables>)
    ensures
        r is Some == item_view(*item) is Tables,
        r matches Some(a) ==> item_view(*item) == TomlVal::Tables(tables_view(*a)),
{
    item.as_array_of_tables()
}

/// Relies on `toml_edit::Item::as_array_of_tables_mut`; what is written
/// through it stays in the item.
#[verifier::external_body]
fn item_tables_mut(item: &mut Item) -> (r: Option<&mut ArrayOfTables>)
    ensures
        r is Some == item_view(*old(item)) is Tables,
        r matches Some(a) ==> item_view(*old(item)) == TomlVal::Tables(tables_view(*a))
            && item_view(*final(item)) == TomlVal::Tables(tables_view(*final(a))),
        r is None ==> *final(item) == *old(item),
{
    item.as_array_of_tables_mut()
}

/// Relies on `toml_edit::Item::as_integer`.
#[verifier::external_body]
fn item_integer(item: &Item) -> (r: Option<i64>)
    ensures
        r == match item_view(*item) {
            TomlVal::Integer(v) => Some(v),
            _ => None::<i64>,
        },
{
    item.as_integer()
}

/// Relies on `toml_edit::Item::as_bool`.
#[verifier::external_body]
fn item_bool(item: &Item) -> (r: Option<bool>)
    ensures
        r == match item_view(*item) {
            TomlVal::Bool(b) => Some(b),
            _ => None::<bool>,
        },
{
    item.as_bool()
}

/// Relies on `toml_edit::ArrayOfTables::new`: an empty array of tables, as
/// an item.
#[verifier::external_body]
fn new_tables_item() -> (r: Item)
    ensures
        item_view(r) == TomlVal::Tables(Seq::empty()),
{
    Item::ArrayOfTables(ArrayOfTables::new())
}

/// Relies on `toml_edit::ArrayOfTables::len`.
#[verifier::external_body]
fn tables_len(tables: &ArrayOfTables) -> (r: usize)
    ensures
        r == tables_view(*tables).len(),
{
    tables.len()
}

/// Relies on `toml_edit::ArrayOfTables::get`: every element of an array of
/// tables is a table.
#[verifier::external_body]
fn tables_get(tables: &ArrayOfTables, idx: usize) -> (r: Option<&Table>)
    ensures
        r is Some == (idx < tables_view(*tables).len()),
        r matches Some(t) ==> table_view(*t) == tables_view(*tables)[idx as int],
{
    tables.get(idx)
}

/// Relies on `toml_edit::ArrayOfTables::get_mut`: every element of an array
/// of tables is a table; what is written through it stays in place.
#[verifier::external_body]
fn tables_get_mut(tables: &mut ArrayOfTables, idx: usize) -> (r: Option<&mut Table>)
    ensures
        r is Some == (idx < tables_view(*old(tables)).len()),
        r matches Some(t) ==> table_view(*t) == tables_view(*old(tables))[idx as int]
            && tables_view(*final(tables)) == tables_view(*old(tables)).update(
            idx as int,
            table_view(*final(t)),
        ),
        r is None ==> *final(tables) == *old(tables),
{
    tables.get_mut(idx)
}

/// Relies on `toml_edit::ArrayOfTables::push`: appends a table.
#[verifier::external_body]
fn tables_push(tables: &mut ArrayOfTables, table: Table)
    ensures
        tables_view(*final(tables)) == tables_view(*old(tables)).push(table_view(table)),
{
    tables.push(table);
}

/// Relies on `From<i64> for toml_edit::Value`: an integer value, as an item.
#[verifier::external_body]
fn integer_item(v: i64) -> (r: Item)
    ensures
        item_view(r) == TomlVal::Integer(v),
{
    Item::Value(Value::from(v))
}

/// Relies on `From<bool> for toml_edit::Value`: a boolean value, as an item.
#[verifier::external_body]
fn bool_item(v: bool) -> (r: Item)
    ensures
        item_view(r) == TomlVal::Bool(v),
{
    Item::Value(Value::from(v))
}

/// Relies on `toml_edit::Document`'s `Display`: the document as text.
#[verifier::external_body]
fn document_text(doc: &Document) -> String {
    doc.to_string()
}

/// The channel settings that stored fields describe: a missing or
/// out-of-range octave or program number takes its default, a missing flag
/// is off, and velocities take their default.
pub open spec fn keyboard_of_fields(
    octave: Option<i64>,
    program_no: Option<i64>,
    reverb: Option<bool>,
    chorus: Option<bool>,
) -> KeyboardView {
    KeyboardView {
        octave: match octave {
            Some(v) => if 0 <= v <= MAX_OCTAVE as i64 {
                v as u8
            } else {
                DEFAULT_OCTAVE
            },
            None => DEFAULT_OCTAVE,
        },
        program_no: match program_no {
            Some(v) => if 0 <= v <= MAX_PROGRAM as i64 {
                v as u8
            } else {
                0
            },
            None => 0,
        },
        reverb: match reverb {
            Some(b) => b,
            None => false,
        },
        chorus: match chorus {
            Some(b) => b,
            None => false,
        },
        ..default_keyboard()
    }
}

/// Channel settings from stored fields.
pub fn keyboard_from_fields(
    octave: Option<i64>,
    program_no: Option<i64>,
    reverb: Option<bool>,
    chorus: Option<bool>,
) -> (r: KeyboardSettings)
    ensures
        r@ == keyboard_of_fields(octave, program_no, reverb, chorus),
        r@.wf(),
{
    let o: u8 = match octave {
        Some(v) => if 0 <= v && v <= MAX_OCTAVE as i64 {
            v as u8
        } else {
            DEFAULT_OCTAVE
        },
        None => DEFAULT_OCTAVE,
    };
    let p: u8 = match program_no {
        Some(v) => if 0 <= v && v <= MAX_PROGRAM as i64 {
            v as u8
        } else {
            0
        },
        None => 0,
    };
    let rv = match reverb {
        Some(b) => b,
        None => false,
    };
    let ch = match chorus {
        Some(b) => b,
        None => false,
    };
    KeyboardSettings::with_fields(o, p, rv, ch)
}

/// The integer under `key`, if a lookup finds one.
pub open spec fn field_int(t: Map<Seq<char>, TomlVal>, key: Seq<char>) -> Option<i64> {
    if t.contains_key(key) {
        match t[key] {
            TomlVal::Integer(v) => Some(v),
            _ => None,
        }
    } else {
        None
    }
}

/// The boolean under `key`, if a lookup finds one.
pub open spec fn field_bool(t: Map<Seq<char>, TomlVal>, key: Seq<char>) -> Option<bool> {
    if t.contains_key(key) {
        match t[key] {
            TomlVal::Bool(b) => Some(b),
            _ => None,
        }
    } else {
        None
    }
}

/// The channel settings that a stored table describes.
pub open spec fn stored_keyboard(t: Map<Seq<char>, TomlVal>) -> KeyboardView {
    keyboard_of_fields(
        field_int(t, OCTAVE_KEY@),
        field_int(t, PROGRAM_KEY@),
        field_bool(t, REVERB_KEY@),
        field_bool(t, CHORUS_KEY@),
    )
}

/// The per-channel tables of a root table: its `keyboards` array of tables,
/// or none when there is no such array.
pub open spec fn stored_tables(root: Map<Seq<char>, TomlVal>) -> Seq<Map<Seq<char>, TomlVal>> {
    if root.contains_key(KEYBOARDS_KEY@) {
        match root[KEYBOARDS_KEY@] {
            TomlVal::Tables(s) => s,
            _ => Seq::empty(),
        }
    } else {
        Seq::empty()
    }
}

/// The channels that a root table describes, one per stored table.
pub open spec fn stored_keyboards(root: Map<Seq<char>, TomlVal>) -> Seq<KeyboardView> {
    stored_tables(root).map_values(|t: Map<Seq<char>, TomlVal>| stored_keyboard(t))
}

/// The channels that stored text describes: none when it is not TOML.
pub open spec fn loaded_keyboards(text: Seq<char>) -> Seq<KeyboardView> {
    match parsed(text) {
        Some(root) => stored_keyboards(root),
        None => Seq::empty(),
    }
}

/// Reads one channel's fields from its table.
fn keyboard_from_table(table: &Table) -> (r: KeyboardSettings)
    ensures
        r@ == stored_keyboard(table_view(*table)),
        r@.wf(),
{
    let octave = match table_get(table, OCTAVE_KEY) {
        Some(item) => item_integer(item),
        None => None,
    };
    let program_no = match table_get(table, PROGRAM_KEY) {
        Some(item) => item_integer(item),
        None => None,
    };
    let reverb = match table_get(table, REVERB_KEY) {
        Some(item) => item_bool(item),
        None => None,
    };
    let chorus = match table_get(table, CHORUS_KEY) {
        Some(item) => item_bool(item),
        None => None,
    };
    keyboard_from_fields(octave, program_no, reverb, chorus)
}

/// The channels that stored tables describe.
fn keyboards_from_tables(tables: &ArrayOfTables) -> (r: Vec<KeyboardSettings>)
    ensures
        keyboard_views(r@) == tables_view(*tables).map_values(
            |t: Map<Seq<char>, TomlVal>| stored_keyboard(t),
        ),
        all_wf(keyboard_views(r@)),
{
    let ghost ts = tables_view(*tables);
    let mut keyboards: Vec<KeyboardSettings> = Vec::new();
    let n = tables_len(tables);
    let mut i: usize = 0;
    while i < n
        invariant
            n == ts.len(),
            ts == tables_view(*tables),
            i <= n,
            keyboards@.len() == i,
            forall|j: int|
                0 <= j < i ==> (#[trigger] keyboards@[j])@ == stored_keyboard(ts[j])
                    && keyboards@[j]@.wf(),
        decreases n - i,
    {
        if let Some(table) = tables_get(tables, i) {
            keyboards.push(keyboard_from_table(table));
        }
        i += 1;
    }
    assert(keyboard_views(keyboards@) =~= ts.map_values(
        |t: Map<Seq<char>, TomlVal>| stored_keyboard(t),
    ));
    keyboards
}

impl SynthesizerSettings {
    /// Settings from the stored document `text`: one channel per table of
    /// its `keyboards` array, in order, each missing field taking its
    /// default. Text that is not TOML, empty text, or text without such an
    /// array gives no channels.
    pub fn load(text: &str) -> (r: SynthesizerSettings)
        ensures
            r@.keyboards == loaded_keyboards(text@),
            text@.len() == 0 ==> r@.keyboards.len() == 0,
            r@.stamp == 0,
            r@.queued is None,
            r@.wf(),
    {
        let keyboards: Vec<KeyboardSettings> = match parse_document(text) {
            Some(doc) => match table_get(root(&doc), KEYBOARDS_KEY) {
                Some(item) => match item_tables(item) {
                    Some(tables) => keyboards_from_tables(tables),
                    None => Vec::new(),
                },
                None => Vec::new(),
            },
            None => Vec::new(),
        };
        assert(keyboard_views(keyboards@) =~= loaded_keyboards(text@));
        SynthesizerSettings::from_keyboards(keyboards)
    }
}

/// A stored table with one channel's settings written into it; velocities
/// are not stored.
pub open spec fn written(t: Map<Seq<char>, TomlVal>, k: KeyboardView) -> Map<Seq<char>, TomlVal> {
    t.insert(OCTAVE_KEY@, TomlVal::Integer(k.octave as i64)).insert(
        PROGRAM_KEY@,
        TomlVal::Integer(k.program_no as i64),
    ).insert(REVERB_KEY@, TomlVal::Bool(k.reverb)).insert(CHORUS_KEY@, TomlVal::Bool(k.chorus))
}

/// The larger of two counts.
pub open spec fn max_len(a: int, b: int) -> int {
    if a > b {
        a
    } else {
        b
    }
}

/// The stored tables after saving channels `ks`: as many tables as there
/// were or as there are channels, whichever is more; table `i` of a channel
/// holds what it held (nothing, if it is new) with that channel's fields
/// written in; tables beyond the channels are kept.
pub open spec fn saved_tables(old: Seq<Map<Seq<char>, TomlVal>>, ks: Seq<KeyboardView>) -> Seq<
    Map<Seq<char>, TomlVal>,
> {
    Seq::new(
        max_len(old.len() as int, ks.len() as int) as nat,
        |j: int|
            if j < ks.len() {
                written(
                    if j < old.len() {
                        old[j]
                    } else {
                        Map::empty()
                    },
                    ks[j],
                )
            } else {
                old[j]
            },
    )
}

/// The root table after saving channels `ks`: every other key keeps its
/// item, and `keyboards` holds the saved tables (replacing a value of
/// another kind).
pub open spec fn saved_root(root: Map<Seq<char>, TomlVal>, ks: Seq<KeyboardView>) -> Map<
    Seq<char>,
    TomlVal,
> {
    root.insert(KEYBOARDS_KEY@, TomlVal::Tables(saved_tables(stored_tables(root), ks)))
}

/// What saving writes reads back: after channels `ks` are saved into a root
/// table that held `m` channel tables, it describes max(m, n) channels;
/// channel `i < n` reads back with `ks[i]`'s octave, program, reverb and
/// chorus and default velocities, and channels beyond `ks` read back as
/// they were.
pub proof fn lemma_saved_channels_read_back(root: Map<Seq<char>, TomlVal>, ks: Seq<KeyboardView>)
    requires
        all_wf(ks),
    ensures
        ({
            let back = stored_keyboards(saved_root(root, ks));
            let before = stored_keyboards(root);
            &&& back.len() == max_len(before.len() as int, ks.len() as int)
            &&& forall|i: int|
                0 <= i < ks.len() ==> #[trigger] back[i] == (KeyboardView {
                    velocity: default_keyboard().velocity,
                    ..ks[i]
                })
            &&& forall|i: int| ks.len() <= i < before.len() ==> #[trigger] back[i] == before[i]
        }),
{
    reveal_strlit("octave");
    reveal_strlit("program_no");
    reveal_strlit("reverb");
    reveal_strlit("chorus");
    reveal_strlit("keyboards");
    let saved = saved_root(root, ks);
    assert(stored_tables(saved) == saved_tables(stored_tables(root), ks));
    assert forall|i: int| 0 <= i < ks.len() implies #[trigger] stored_keyboards(saved)[i] == (
    KeyboardView { velocity: default_keyboard().velocity, ..ks[i] }) by {
        assert(ks[i].wf());
        assert(OCTAVE_KEY@ == "octave"@);
        assert(PROGRAM_KEY@ == "program_no"@);
        assert(REVERB_KEY@ == "reverb"@);
        assert(CHORUS_KEY@ == "chorus"@);
        assert(OCTAVE_KEY@[0] != PROGRAM_KEY@[0]);
        assert(OCTAVE_KEY@[0] != REVERB_KEY@[0]);
        assert(OCTAVE_KEY@[0] != CHORUS_KEY@[0]);
        assert(PROGRAM_KEY@[0] != REVERB_KEY@[0]);
        assert(PROGRAM_KEY@[0] != CHORUS_KEY@[0]);
        assert(REVERB_KEY@[0] != CHORUS_KEY@[0]);
    }
}

/// Puts an item under `key`, replacing an existing one in place.
fn put(table: &mut Table, key: &str, item: Item)
    ensures
        table_view(*final(table)) == table_view(*old(table)).insert(key@, item_view(item)),
{
    match table_get_mut(table, key) {
        Some(slot) => {
            *slot = item;
        },
        None => table_insert(table, key, item),
    }
}

/// Writes channels `keyboards` into an array of stored tables, adding tables
/// as needed.
fn fill_tables(tables: &mut ArrayOfTables, keyboards: &Vec<KeyboardSettings>)
    ensures
        tables_view(*final(tables)) == saved_tables(
            tables_view(*old(tables)),
            keyboard_views(keyboards@),
        ),
{
    let ghost old_ts = tables_view(*tables);
    let ghost ks = keyboard_views(keyboards@);
    let n = keyboards.len();
    let mut have = tables_len(tables);
    while have < n
        invariant
            have == tables_view(*tables).len(),
            old_ts.len() <= have,
            n < old_ts.len() ==> have == old_ts.len(),
            n >= old_ts.len() ==> have <= n,
            tables_view(*tables) =~= old_ts + Seq::new(
                (have - old_ts.len()) as nat,
                |j: int| empty_table(),
            ),
        decreases n - have,
    {
        tables_push(tables, new_table());
        have += 1;
        assert(tables_view(*tables) =~= old_ts + Seq::new(
            (have - old_ts.len()) as nat,
            |j: int| empty_table(),
        ));
    }
    let ghost padded = tables_view(*tables);
    let mut idx: usize = 0;
    while idx < n
        invariant
            n == keyboards@.len(),
            ks == keyboard_views(keyboards@),
            padded.len() == max_len(old_ts.len() as int, n as int),
            forall|j: int|
                0 <= j < padded.len() ==> #[trigger] padded[j] == if j < old_ts.len() {
                    old_ts[j]
                } else {
                    Map::empty()
                },
            idx <= n,
            tables_view(*tables).len() == padded.len(),
            forall|j: int|
                0 <= j < padded.len() ==> #[trigger] tables_view(*tables)[j] == if j < idx {
                    written(padded[j], ks[j])
                } else {
                    padded[j]
                },
        decreases n - idx,
    {
        let keyboard = &keyboards[idx];
        assert(keyboard@ == ks[idx as int]);
        if let Some(table) = tables_get_mut(tables, idx) {
            put(table, OCTAVE_KEY, integer_item(keyboard.octave() as i64));
            put(table, PROGRAM_KEY, integer_item(keyboard.program_no() as i64));
            put(table, REVERB_KEY, bool_item(keyboard.reverb()));
            put(table, CHORUS_KEY, bool_item(keyboard.chorus()));
            sort_table(table);
        }
        idx += 1;
    }
    assert(tables_view(*tables) =~= saved_tables(old_ts, ks));
}

/// Whether the root table has an array of tables under `keyboards`.
fn has_keyboards(doc: &Document) -> (r: bool)
    ensures
        r == (has_item(document_view(*doc), KEYBOARDS_KEY@) && document_view(
            *doc,
        )[KEYBOARDS_KEY@] is Tables),
{
    match table_get(root(doc), KEYBOARDS_KEY) {
        Some(item) => item_tables(item).is_some(),
        None => false,
    }
}

/// Writes channels `keyboards` into a stored document: see `saved_root`.
pub fn update_document(doc: &mut Document, keyboards: &Vec<KeyboardSettings>)
    ensures
        document_view(*final(doc)) == saved_root(
            document_view(*old(doc)),
            keyboard_views(keyboards@),
        ),
{
    if !has_keyboards(doc) {
        table_insert(root_mut(doc), KEYBOARDS_KEY, new_tables_item());
    }
    let ghost mid = document_view(*doc);
    assert(stored_tables(mid) == stored_tables(document_view(*old(doc))));
    let root = root_mut(doc);
    if let Some(item) = table_get_mut(root, KEYBOARDS_KEY) {
        if let Some(tables) = item_tables_mut(item) {
            fill_tables(tables, keyboards);
        }
    }
    sort_table(root_mut(doc));
    assert(document_view(*doc) =~= saved_root(
        document_view(*old(doc)),
        keyboard_views(keyboards@),
    ));
}

/// The stored document `existing` with channels `keyboards` written into it
/// (see `update_document`), as text; text that is not TOML is replaced.
pub fn render(existing: &str, keyboards: &Vec<KeyboardSettings>) -> String {
    let mut doc = match parse_document(existing) {
        Some(d) => d,
        None => new_document(),
    };
    update_document(&mut doc, keyboards);
    document_text(&doc)
}

} // verus!
