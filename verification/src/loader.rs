//! Readers that turn the node events of a profile's rotation and ability XML
//! files into fixed-size tables of decoded text.
//!
//! The XML reader itself is driven elsewhere; it hands each reader the local
//! name of every element start and element end, and the value of every text
//! node, in document order.

use vstd::prelude::*;
use crate::text::{
    chars_vec, lemma_replace_absent, lemma_replace_clear_prefix, lemma_replace_front, lowercase, occurs_at,
    replace_chars, replace_seq, str_eq, string_from_chars, to_lowercase,
};
use crate::xml::{
    decode_spec, decode_xml, encode_spec, law_decode_encode_round_trip, law_decode_encoded_prefix,
    lemma_decode_plain_front, PROFILE_SIZE,
};

verus! {

/// The part of `s` after its last `c` (all of `s` when there is none),
/// as `s.rsplit(c).next()` gives it.
pub open spec fn after_last(s: Seq<char>, c: char) -> Seq<char>
    decreases s.len(),
{
    if s.len() == 0 {
        s
    } else if s.last() == c {
        Seq::empty()
    } else {
        after_last(s.drop_last(), c).push(s.last())
    }
}

/// The part of `s` before its first `c` (all of `s` when there is none),
/// as `s.split(c).next()` gives it.
pub open spec fn before_first(s: Seq<char>, c: char) -> Seq<char>
    decreases s.len(),
{
    if s.len() == 0 {
        s
    } else if s[0] == c {
        Seq::empty()
    } else {
        seq![s[0]] + before_first(s.skip(1), c)
    }
}

/// The short profile name taken from a profile file's path: the file name
/// (after the last `\`) up to its first `_`.
pub open spec fn abbreviation_spec(path: Seq<char>) -> Seq<char> {
    before_first(after_last(path, '\\'), '_')
}

proof fn lemma_after_last_free(s: Seq<char>, c: char)
    ensures
        forall|i: int| 0 <= i < after_last(s, c).len() ==> after_last(s, c)[i] != c,
        forall|i: int| 0 <= i < after_last(s, c).len() ==> s.contains(#[trigger] after_last(s, c)[i]),
    decreases s.len(),
{
    if s.len() > 0 && s.last() != c {
        lemma_after_last_free(s.drop_last(), c);
        let r = after_last(s, c);
        assert forall|i: int| 0 <= i < r.len() implies r[i] != c && s.contains(#[trigger] r[i]) by {
            if i == r.len() - 1 {
                assert(s[s.len() - 1] == r[i]);
            } else {
                let t = s.drop_last();
                assert(t.contains(after_last(t, c)[i]));
                let j = choose|j: int| 0 <= j < t.len() && t[j] == after_last(t, c)[i];
                assert(s[j] == r[i]);
            }
        }
    }
}

proof fn lemma_before_first_free(s: Seq<char>, c: char)
    ensures
        forall|i: int| 0 <= i < before_first(s, c).len() ==> before_first(s, c)[i] != c,
        forall|i: int| 0 <= i < before_first(s, c).len() ==> s.contains(#[trigger] before_first(s, c)[i]),
    decreases s.len(),
{
    if s.len() > 0 && s[0] != c {
        lemma_before_first_free(s.skip(1), c);
        let r = before_first(s, c);
        assert forall|i: int| 0 <= i < r.len() implies r[i] != c && s.contains(#[trigger] r[i]) by {
            if i == 0 {
                assert(s[0] == r[0]);
            } else {
                let t = s.skip(1);
                assert(r[i] == before_first(t, c)[i - 1]);
                assert(t.contains(before_first(t, c)[i - 1]));
                let j = choose|j: int| 0 <= j < t.len() && t[j] == before_first(t, c)[i - 1];
                assert(s[j + 1] == r[i]);
            }
        }
    }
}

/// The short profile name holds neither a path separator `\` nor an underscore.
pub proof fn law_abbreviation_is_plain(path: Seq<char>)
    ensures
        forall|i: int|
            0 <= i < abbreviation_spec(path).len() ==> #[trigger] abbreviation_spec(path)[i] != '\\'
                && abbreviation_spec(path)[i] != '_',
{
    let a = after_last(path, '\\');
    lemma_after_last_free(path, '\\');
    lemma_before_first_free(a, '_');
    assert forall|i: int| 0 <= i < abbreviation_spec(path).len() implies #[trigger] abbreviation_spec(path)[i]
        != '\\' && abbreviation_spec(path)[i] != '_' by {
        let x = abbreviation_spec(path)[i];
        assert(a.contains(x));
        let j = choose|j: int| 0 <= j < a.len() && a[j] == x;
        assert(a[j] != '\\');
    }
}

/// Computes the short profile name of a profile file's path.
pub fn abbreviated_profile_name(xml_file: &str) -> (r: String)
    ensures
        r@ == abbreviation_spec(xml_file@),
{
    let s = chars_vec(xml_file);
    let mut i: usize = s.len();
    assert(s@.take(i as int) =~= s@);
    while i > 0 && s[i - 1] != '\\'
        invariant
            i <= s.len(),
            after_last(s@, '\\') == after_last(s@.take(i as int), '\\') + s@.skip(i as int),
        decreases i,
    {
        let ghost t = s@.take(i as int);
        assert(t.drop_last() =~= s@.take(i - 1));
        assert(s@.skip(i - 1) =~= seq![s@[i - 1]] + s@.skip(i as int));
        assert(after_last(t, '\\') == after_last(s@.take(i - 1), '\\').push(s@[i - 1]));
        assert(after_last(s@.take(i - 1), '\\').push(s@[i - 1]) + s@.skip(i as int)
            =~= after_last(s@.take(i - 1), '\\') + s@.skip(i - 1));
        i = i - 1;
    }
    proof {
        let t = s@.take(i as int);
        if i > 0 {
            assert(t.last() == '\\');
        }
        assert(after_last(t, '\\') =~= Seq::<char>::empty());
        assert(after_last(s@, '\\') =~= s@.skip(i as int));
    }
    let start = i;
    let mut j: usize = start;
    while j < s.len() && s[j] != '_'
        invariant
            start <= j <= s.len(),
            before_first(s@.skip(start as int), '_') == s@.subrange(start as int, j as int)
                + before_first(s@.skip(j as int), '_'),
        decreases s.len() - j,
    {
        assert(s@.skip(j as int).skip(1) =~= s@.skip(j + 1));
        assert(s@.subrange(start as int, j as int) + (seq![s@[j as int]] + before_first(
            s@.skip(j + 1),
            '_',
        )) =~= s@.subrange(start as int, j + 1) + before_first(s@.skip(j + 1), '_'));
        j = j + 1;
    }
    proof {
        assert(before_first(s@.skip(j as int), '_') =~= Seq::<char>::empty());
    }
    let mut out: Vec<char> = Vec::new();
    let mut k: usize = start;
    while k < j
        invariant
            start <= k <= j <= s.len(),
            out@ == s@.subrange(start as int, k as int),
        decreases j - k,
    {
        out.push(s[k]);
        assert(s@.subrange(start as int, k + 1) =~= s@.subrange(start as int, k as int).push(
            s@[k as int],
        ));
        k = k + 1;
    }
    assert(out@ =~= abbreviation_spec(xml_file@));
    string_from_chars(out.as_slice())
}

/// The contents of a table of strings, cell by cell.
pub open spec fn table_view(rows: Seq<Vec<String>>) -> Seq<Seq<Seq<char>>> {
    Seq::new(rows.len(), |i: int| Seq::new(rows[i]@.len(), |j: int| rows[i]@[j]@))
}

/// A reader's table: `PROFILE_SIZE` rows of `width` cells, filled from the
/// top: once a row's first cell is empty, that row and every later row are
/// wholly empty.
pub open spec fn table_wf(t: Seq<Seq<Seq<char>>>, width: int) -> bool {
    &&& t.len() == PROFILE_SIZE
    &&& forall|i: int| 0 <= i < t.len() ==> #[trigger] t[i].len() == width
    &&& forall|i: int, j: int, k: int|
        0 <= i <= j < t.len() && 0 <= k < width && #[trigger] t[i][0].len() == 0 ==> #[trigger] t[j][k].len()
            == 0
}

/// Row `i` is the first row of `t` whose first cell is empty.
pub open spec fn first_open_row(t: Seq<Seq<Seq<char>>>, i: int) -> bool {
    &&& 0 <= i < t.len()
    &&& t[i][0].len() == 0
    &&& forall|j: int| 0 <= j < i ==> #[trigger] t[j][0].len() > 0
}

/// Whether `t` still has a row whose first cell is empty.
pub open spec fn has_open_row(t: Seq<Seq<Seq<char>>>) -> bool {
    exists|i: int| 0 <= i < t.len() && #[trigger] t[i][0].len() == 0
}

/// The suffix that marks a name as coming from a given profile: ` (abbr)`.
pub open spec fn profile_suffix(abbr: Seq<char>) -> Seq<char> {
    " ("@ + abbr + ")"@
}

/// A table of `PROFILE_SIZE` rows of `width` empty strings.
fn empty_table(width: usize) -> (r: Vec<Vec<String>>)
    requires
        width > 0,
    ensures
        table_wf(table_view(r@), width as int),
        forall|i: int, k: int|
            0 <= i < PROFILE_SIZE && 0 <= k < width ==> #[trigger] table_view(r@)[i][k].len() == 0,
{
    let mut rows: Vec<Vec<String>> = Vec::new();
    let mut i: usize = 0;
    while i < PROFILE_SIZE
        invariant
            i <= PROFILE_SIZE,
            rows@.len() == i,
            forall|a: int| 0 <= a < i ==> #[trigger] rows@[a]@.len() == width,
            forall|a: int, k: int| 0 <= a < i && 0 <= k < width ==> #[trigger] rows@[a]@[k]@.len() == 0,
        decreases PROFILE_SIZE - i,
    {
        let mut row: Vec<String> = Vec::new();
        let mut k: usize = 0;
        while k < width
            invariant
                k <= width,
                row@.len() == k,
                forall|b: int| 0 <= b < k ==> #[trigger] row@[b]@.len() == 0,
            decreases width - k,
        {
            row.push(String::new());
            k = k + 1;
        }
        rows.push(row);
        i = i + 1;
    }
    rows
}

/// Index of the first row whose first cell is empty, if there is one.
fn find_open_row(rows: &Vec<Vec<String>>, width: Ghost<int>) -> (r: Option<usize>)
    requires
        table_wf(table_view(rows@), width@),
        width@ > 0,
    ensures
        match r {
            Some(i) => first_open_row(table_view(rows@), i as int),
            None => !has_open_row(table_view(rows@)),
        },
{
    let ghost t = table_view(rows@);
    let mut i: usize = 0;
    while i < rows.len()
        invariant
            t == table_view(rows@),
            table_wf(t, width@),
            width@ > 0,
            i <= rows@.len(),
            forall|j: int| 0 <= j < i ==> #[trigger] t[j][0].len() > 0,
        decreases rows.len() - i,
    {
        assert(t[i as int].len() == width@);
        assert(t[i as int][0] == rows@[i as int]@[0]@);
        if rows[i][0].as_str().is_empty() {
            return Some(i);
        }
        i = i + 1;
    }
    None
}

/// Reads the node events of a rotation file into a table whose rows hold,
/// in order: name (tagged with the profile's short name), default, list
/// (each entry tagged), require-combat and notes.
pub struct RotationReader {
    abbreviation: String,
    element: String,
    rotation_name: String,
    rotation_default: String,
    rotation_list: String,
    require_combat: String,
    rotation_notes: String,
    rows: Vec<Vec<String>>,
}

/// The row stored for a complete rotation element.
pub open spec fn rotation_row(
    name: Seq<char>,
    default: Seq<char>,
    list: Seq<char>,
    combat: Seq<char>,
    notes: Seq<char>,
    abbr: Seq<char>,
) -> Seq<Seq<char>> {
    seq![
        decode_spec(name) + profile_suffix(abbr),
        decode_spec(default),
        replace_seq(decode_spec(list), seq!['|'], " ("@ + abbr + ")|"@) + profile_suffix(abbr),
        decode_spec(combat),
        decode_spec(notes),
    ]
}

impl RotationReader {
    pub closed spec fn abbreviation(&self) -> Seq<char> {
        self.abbreviation@
    }

    pub closed spec fn element(&self) -> Seq<char> {
        self.element@
    }

    pub closed spec fn name(&self) -> Seq<char> {
        self.rotation_name@
    }

    pub closed spec fn default(&self) -> Seq<char> {
        self.rotation_default@
    }

    pub closed spec fn list(&self) -> Seq<char> {
        self.rotation_list@
    }

    pub closed spec fn combat(&self) -> Seq<char> {
        self.require_combat@
    }

    pub closed spec fn notes(&self) -> Seq<char> {
        self.rotation_notes@
    }

    /// The table read so far.
    pub closed spec fn rows(&self) -> Seq<Seq<Seq<char>>> {
        table_view(self.rows@)
    }

    pub closed spec fn wf(&self) -> bool {
        table_wf(self.rows(), 5)
    }

    /// A reader for the rotation file at `xml_file`: empty fields, an empty table.
    pub fn new(xml_file: &str) -> (r: Self)
        ensures
            r.wf(),
            r.abbreviation() == abbreviation_spec(xml_file@),
            r.element().len() == 0,
            r.name().len() == 0,
            r.default().len() == 0,
            r.list().len() == 0,
            r.combat().len() == 0,
            r.notes().len() == 0,
            forall|i: int, k: int|
                0 <= i < PROFILE_SIZE && 0 <= k < 5 ==> #[trigger] r.rows()[i][k].len() == 0,
    {
        RotationReader {
            abbreviation: abbreviated_profile_name(xml_file),
            element: String::new(),
            rotation_name: String::new(),
            rotation_default: String::new(),
            rotation_list: String::new(),
            require_combat: String::new(),
            rotation_notes: String::new(),
            rows: empty_table(5),
        }
    }

    /// An element starts: its local name becomes the current element.
    pub fn on_element(&mut self, name: &str)
        requires
            old(self).wf(),
        ensures
            final(self).wf(),
            final(self).element() == name@,
            final(self).abbreviation() == old(self).abbreviation(),
            final(self).name() == old(self).name(),
            final(self).default() == old(self).default(),
            final(self).list() == old(self).list(),
            final(self).combat() == old(self).combat(),
            final(self).notes() == old(self).notes(),
            final(self).rows() == old(self).rows(),
    {
        self.element = name.to_owned();
    }

    /// A text node: its value is stored in the field that the current
    /// element names, if it names one.
    pub fn on_text(&mut self, value: &str)
        requires
            old(self).wf(),
        ensures
            final(self).wf(),
            final(self).element() == old(self).element(),
            final(self).abbreviation() == old(self).abbreviation(),
            final(self).rows() == old(self).rows(),
            final(self).name() == if old(self).element() == "RotationName"@ {
                value@
            } else {
                old(self).name()
            },
            final(self).default() == if old(self).element() == "RotationDefault"@ {
                value@
            } else {
                old(self).default()
            },
            final(self).list() == if old(self).element() == "RotationList"@ {
                value@
            } else {
                old(self).list()
            },
            final(self).combat() == if old(self).element() == "RequireCombat"@ {
                value@
            } else {
                old(self).combat()
            },
            final(self).notes() == if old(self).element() == "RotationNotes"@ {
                value@
            } else {
                old(self).notes()
            },
    {
        proof {
            reveal_strlit("RotationName");
            reveal_strlit("RotationDefault");
            reveal_strlit("RotationList");
            reveal_strlit("RequireCombat");
            reveal_strlit("RotationNotes");
            assert("RotationName"@[8] != "RotationList"@[8]);
            assert("RequireCombat"@[1] != "RotationNotes"@[1]);
            assert("RotationNotes"@.len() == 13 && "RotationName"@.len() == 12);
            assert("RotationList"@.len() == 12 && "RotationDefault"@.len() == 15);
        }
        let e = self.element.as_str();
        if str_eq(e, "RotationName") {
            self.rotation_name = value.to_owned();
        } else if str_eq(e, "RotationDefault") {
            self.rotation_default = value.to_owned();
        } else if str_eq(e, "RotationList") {
            self.rotation_list = value.to_owned();
        } else if str_eq(e, "RequireCombat") {
            self.require_combat = value.to_owned();
        } else if str_eq(e, "RotationNotes") {
            self.rotation_notes = value.to_owned();
        }
    }

    /// An element ends. When a `Rotation` element ends with a name and a
    /// default, its fields fill the first open row of the table (if any is
    /// left) and are reset: name, default and list to empty, require-combat
    /// to `true`, notes to empty.
    pub fn on_end_element(&mut self, name: &str)
        requires
            old(self).wf(),
        ensures
            final(self).wf(),
            ({
                let o = *old(self);
                let f = *final(self);
                if name@ == "Rotation"@ && o.name().len() > 0 && o.default().len() > 0 && has_open_row(o.rows()) {
                    exists|i: int|
                        #[trigger] first_open_row(o.rows(), i) && f.rows() == o.rows().update(
                            i,
                            rotation_row(o.name(), o.default(), o.list(), o.combat(), o.notes(), o.abbreviation()),
                        ) && f.name().len() == 0 && f.default().len() == 0 && f.list().len() == 0
                            && f.combat() == "true"@ && f.notes().len() == 0 && f.element() == o.element()
                            && f.abbreviation() == o.abbreviation()
                } else {
                    f == o
                }
            }),
    {
        if !str_eq(name, "Rotation") || self.rotation_name.as_str().is_empty()
            || self.rotation_default.as_str().is_empty() {
            return;
        }
        let found = find_open_row(&self.rows, Ghost(5));
        match found {
            None => {},
            Some(i) => {
                let ghost o = *self;
                let suffix = {
                    let mut t = " (".to_owned();
                    t.append(self.abbreviation.as_str());
                    t.append(")");
                    t
                };
                let list_tag = {
                    let mut t = " (".to_owned();
                    t.append(self.abbreviation.as_str());
                    t.append(")|");
                    t
                };
                let mut c0 = decode_xml(self.rotation_name.clone());
                c0.append(suffix.as_str());
                let c1 = decode_xml(self.rotation_default.clone());
                let list = chars_vec(decode_xml(self.rotation_list.clone()).as_str());
                let mut bar: Vec<char> = Vec::new();
                bar.push('|');
                let tagged = replace_chars(&list, &bar, &chars_vec(list_tag.as_str()));
                let mut c2 = string_from_chars(tagged.as_slice());
                c2.append(suffix.as_str());
                let c3 = decode_xml(self.require_combat.clone());
                let c4 = decode_xml(self.rotation_notes.clone());
                let mut row: Vec<String> = Vec::new();
                row.push(c0);
                row.push(c1);
                row.push(c2);
                row.push(c3);
                row.push(c4);
                proof {
                    reveal_strlit(" (");
                    assert(bar@ =~= seq!['|']);
                }
                let ghost new_row = rotation_row(o.name(), o.default(), o.list(), o.combat(), o.notes(), o.abbreviation());
                assert(Seq::new(row@.len(), |j: int| row@[j]@) =~= new_row);
                self.rows.set(i, row);
                self.rotation_name = String::new();
                self.rotation_default = String::new();
                self.rotation_list = String::new();
                self.require_combat = "true".to_owned();
                self.rotation_notes = String::new();
                assert(self.rows() =~= o.rows().update(i as int, new_row));
                assert(first_open_row(o.rows(), i as int));
            },
        }
    }

    /// The table read so far.
    pub fn into_rows(self) -> (r: Vec<Vec<String>>)
        ensures
            table_view(r@) == self.rows(),
    {
        self.rows
    }
}

/// The value a text node leaves in a field: the node's value when the
/// current element is the field's own element, the old value otherwise.
pub open spec fn text_field(element: Seq<char>, key: Seq<char>, value: Seq<char>, old_value: Seq<char>) -> Seq<char> {
    if element == key {
        value
    } else {
        old_value
    }
}

/// However the events come, a rotation reader's table stays filled from the
/// top: once a row's first cell is empty, that row and all later rows are empty.
pub proof fn law_rotation_table_filled_from_top(r: RotationReader)
    requires
        r.wf(),
    ensures
        table_wf(r.rows(), 5),
{
}

/// Reads the node events of an abilities file into a table whose rows hold,
/// in order: name (tagged with the profile's short name), default, spell id,
/// actions, lua, recast delay, target (lower case), cancel-channel (lower
/// case), lua-before and lua-after.
pub struct AbilityReader {
    abbreviation: String,
    element: String,
    ability_name: String,
    ability_default: String,
    ability_spellid: String,
    ability_actions: String,
    ability_lua: String,
    ability_lua_before: String,
    ability_lua_after: String,
    ability_recast_delay: String,
    ability_self_cast: String,
    ability_cancel_channel: String,
    rows: Vec<Vec<String>>,
}

/// The fields of an ability under construction, in row order:
/// name, default, spell id, actions, lua, recast delay, target,
/// cancel-channel, lua-before, lua-after.
pub type AbilityFields = (Seq<char>, Seq<char>, Seq<char>, Seq<char>, Seq<char>, Seq<char>, Seq<char>, Seq<char>, Seq<char>, Seq<char>);

/// The row stored for a complete ability element.
pub open spec fn ability_row(f: AbilityFields, abbr: Seq<char>) -> Seq<Seq<char>> {
    seq![
        decode_spec(f.0) + profile_suffix(abbr),
        decode_spec(f.1),
        decode_spec(f.2),
        decode_spec(f.3),
        decode_spec(f.4),
        decode_spec(f.5),
        decode_spec(lowercase(f.6)),
        decode_spec(lowercase(f.7)),
        decode_spec(f.8),
        decode_spec(f.9),
    ]
}

impl AbilityReader {
    pub closed spec fn abbreviation(&self) -> Seq<char> {
        self.abbreviation@
    }

    pub closed spec fn element(&self) -> Seq<char> {
        self.element@
    }

    /// The fields read so far for the ability under construction.
    pub closed spec fn fields(&self) -> AbilityFields {
        (
            self.ability_name@,
            self.ability_default@,
            self.ability_spellid@,
            self.ability_actions@,
            self.ability_lua@,
            self.ability_recast_delay@,
            self.ability_self_cast@,
            self.ability_cancel_channel@,
            self.ability_lua_before@,
            self.ability_lua_after@,
        )
    }

    /// The table read so far.
    pub closed spec fn rows(&self) -> Seq<Seq<Seq<char>>> {
        table_view(self.rows@)
    }

    pub closed spec fn wf(&self) -> bool {
        table_wf(self.rows(), 10)
    }

    /// A reader for the abilities file at `xml_file`: empty fields but the
    /// target (`Target`) and cancel-channel (`False`), and an empty table.
    pub fn new(xml_file: &str) -> (r: Self)
        ensures
            r.wf(),
            r.abbreviation() == abbreviation_spec(xml_file@),
            r.element().len() == 0,
            r.fields() == (Seq::<char>::empty(), Seq::<char>::empty(), Seq::<char>::empty(),
                Seq::<char>::empty(), Seq::<char>::empty(), Seq::<char>::empty(), "Target"@,
                "False"@, Seq::<char>::empty(), Seq::<char>::empty()),
            forall|i: int, k: int|
                0 <= i < PROFILE_SIZE && 0 <= k < 10 ==> #[trigger] r.rows()[i][k].len() == 0,
    {
        AbilityReader {
            abbreviation: abbreviated_profile_name(xml_file),
            element: String::new(),
            ability_name: String::new(),
            ability_default: String::new(),
            ability_spellid: String::new(),
            ability_actions: String::new(),
            ability_lua: String::new(),
            ability_lua_before: String::new(),
            ability_lua_after: String::new(),
            ability_recast_delay: String::new(),
            ability_self_cast: "Target".to_owned(),
            ability_cancel_channel: "False".to_owned(),
            rows: empty_table(10),
        }
    }

    /// An element starts: its local name becomes the current element.
    pub fn on_element(&mut self, name: &str)
        requires
            old(self).wf(),
        ensures
            final(self).wf(),
            final(self).element() == name@,
            final(self).abbreviation() == old(self).abbreviation(),
            final(self).fields() == old(self).fields(),
            final(self).rows() == old(self).rows(),
    {
        self.element = name.to_owned();
    }

    /// A text node: its value is stored in the field that the current
    /// element names. Under `SelfCast` the target becomes `player` when the
    /// value is `True` and `target` otherwise; under `Target` it becomes the
    /// value itself.
    pub fn on_text(&mut self, value: &str)
        requires
            old(self).wf(),
        ensures
            final(self).wf(),
            final(self).element() == old(self).element(),
            final(self).abbreviation() == old(self).abbreviation(),
            final(self).rows() == old(self).rows(),
            ({
                let e = old(self).element();
                let o = old(self).fields();
                let v = value@;
                final(self).fields() == (
                    text_field(e, "Name"@, v, o.0),
                    text_field(e, "Default"@, v, o.1),
                    text_field(e, "SpellID"@, v, o.2),
                    text_field(e, "Actions"@, v, o.3),
                    text_field(e, "Lua"@, v, o.4),
                    text_field(e, "RecastDelay"@, v, o.5),
                    if e == "SelfCast"@ {
                        if v == "True"@ { "player"@ } else { "target"@ }
                    } else {
                        text_field(e, "Target"@, v, o.6)
                    },
                    text_field(e, "CancelChannel"@, v, o.7),
                    text_field(e, "LuaBefore"@, v, o.8),
                    text_field(e, "LuaAfter"@, v, o.9),
                )
            }),
    {
        proof {
            reveal_strlit("Name");
            reveal_strlit("Default");
            reveal_strlit("SpellID");
            reveal_strlit("Actions");
            reveal_strlit("Lua");
            reveal_strlit("LuaBefore");
            reveal_strlit("LuaAfter");
            reveal_strlit("RecastDelay");
            reveal_strlit("SelfCast");
            reveal_strlit("Target");
            reveal_strlit("CancelChannel");
            assert("Default"@[0] != "SpellID"@[0] && "Default"@[0] != "Actions"@[0] && "SpellID"@[0] != "Actions"@[0]);
            assert("LuaAfter"@[0] != "SelfCast"@[0]);
            assert("Name"@.len() == 4 && "Default"@.len() == 7 && "SpellID"@.len() == 7);
            assert("Actions"@.len() == 7 && "Lua"@.len() == 3 && "LuaBefore"@.len() == 9);
            assert("LuaAfter"@.len() == 8 && "RecastDelay"@.len() == 11 && "SelfCast"@.len() == 8);
            assert("Target"@.len() == 6 && "CancelChannel"@.len() == 13);
        }
        let e = self.element.as_str();
        if str_eq(e, "Name") {
            self.ability_name = value.to_owned();
        } else if str_eq(e, "Default") {
            self.ability_default = value.to_owned();
        } else if str_eq(e, "SpellID") {
            self.ability_spellid = value.to_owned();
        } else if str_eq(e, "Actions") {
            self.ability_actions = value.to_owned();
        } else if str_eq(e, "Lua") {
            self.ability_lua = value.to_owned();
        } else if str_eq(e, "LuaBefore") {
            self.ability_lua_before = value.to_owned();
        } else if str_eq(e, "LuaAfter") {
            self.ability_lua_after = value.to_owned();
        } else if str_eq(e, "RecastDelay") {
            self.ability_recast_delay = value.to_owned();
        } else if str_eq(e, "SelfCast") {
            if str_eq(value, "True") {
                self.ability_self_cast = "player".to_owned();
            } else {
                self.ability_self_cast = "target".to_owned();
            }
        } else if str_eq(e, "Target") {
            self.ability_self_cast = value.to_owned();
        } else if str_eq(e, "CancelChannel") {
            self.ability_cancel_channel = value.to_owned();
        }
    }

    /// An element ends. When an `Ability` element ends with a name, a
    /// default, a spell id and a lua script, its fields fill the first open
    /// row of the table (if any is left) and are reset: name, default, spell
    /// id, actions, lua, lua-before and lua-after to empty, recast delay to
    /// `0`, target to `Target`, cancel-channel to `False`, so that no field
    /// of one ability is carried over to the next.
    pub fn on_end_element(&mut self, name: &str)
        requires
            old(self).wf(),
        ensures
            final(self).wf(),
            ({
                let o = *old(self);
                let f = *final(self);
                let of = o.fields();
                if name@ == "Ability"@ && of.0.len() > 0 && of.1.len() > 0 && of.2.len() > 0
                    && of.4.len() > 0 && has_open_row(o.rows()) {
                    exists|i: int|
                        #[trigger] first_open_row(o.rows(), i) && f.rows() == o.rows().update(
                            i,
                            ability_row(of, o.abbreviation()),
                        ) && f.fields() == (Seq::<char>::empty(), Seq::<char>::empty(),
                            Seq::<char>::empty(), Seq::<char>::empty(), Seq::<char>::empty(), "0"@,
                            "Target"@, "False"@, Seq::<char>::empty(), Seq::<char>::empty()) && f.element() == o.element()
                            && f.abbreviation() == o.abbreviation()
                } else {
                    f == o
                }
            }),
    {
        if !str_eq(name, "Ability") || self.ability_name.as_str().is_empty()
            || self.ability_default.as_str().is_empty() || self.ability_spellid.as_str().is_empty()
            || self.ability_lua.as_str().is_empty() {
            return;
        }
        let found = find_open_row(&self.rows, Ghost(10));
        match found {
            None => {},
            Some(i) => {
                let ghost o = *self;
                let mut c0 = decode_xml(self.ability_name.clone());
                c0.append(" (");
                c0.append(self.abbreviation.as_str());
                c0.append(")");
                let mut row: Vec<String> = Vec::new();
                row.push(c0);
                row.push(decode_xml(self.ability_default.clone()));
                row.push(decode_xml(self.ability_spellid.clone()));
                row.push(decode_xml(self.ability_actions.clone()));
                row.push(decode_xml(self.ability_lua.clone()));
                row.push(decode_xml(self.ability_recast_delay.clone()));
                row.push(decode_xml(to_lowercase(self.ability_self_cast.as_str())));
                row.push(decode_xml(to_lowercase(self.ability_cancel_channel.as_str())));
                row.push(decode_xml(self.ability_lua_before.clone()));
                row.push(decode_xml(self.ability_lua_after.clone()));
                proof {
                    reveal_strlit(" (");
                }
                let ghost new_row = ability_row(o.fields(), o.abbreviation());
                assert(row@[0]@ =~= new_row[0]);
                assert(Seq::new(row@.len(), |j: int| row@[j]@) =~= new_row);
                self.rows.set(i, row);
                self.ability_name = String::new();
                self.ability_default = String::new();
                self.ability_spellid = String::new();
                self.ability_actions = String::new();
                self.ability_lua = String::new();
                self.ability_recast_delay = "0".to_owned();
                self.ability_self_cast = "Target".to_owned();
                self.ability_cancel_channel = "False".to_owned();
                self.ability_lua_before = String::new();
                self.ability_lua_after = String::new();
                assert(self.rows() =~= o.rows().update(i as int, new_row));
                assert(first_open_row(o.rows(), i as int));
            },
        }
    }

    /// The table read so far.
    pub fn into_rows(self) -> (r: Vec<Vec<String>>)
        ensures
            table_view(r@) == self.rows(),
    {
        self.rows
    }
}

/// However the events come, an ability reader's table stays filled from the
/// top: once a row's first cell is empty, that row and all later rows are empty.
pub proof fn law_ability_table_filled_from_top(r: AbilityReader)
    requires
        r.wf(),
    ensures
        table_wf(r.rows(), 10),
{
}

/// Whether `s` holds no `|`.
pub open spec fn no_bar(s: Seq<char>) -> bool {
    forall|i: int| 0 <= i < s.len() ==> s[i] != '|'
}

/// Encoding writes no `|` for text that has none.
proof fn lemma_encode_no_bar(s: Seq<char>)
    requires
        no_bar(s),
    ensures
        no_bar(encode_spec(s)),
    decreases s.len(),
{
    if s.len() > 0 {
        assert forall|i: int| 0 <= i < s.skip(1).len() implies s.skip(1)[i] != '|' by {
            assert(s.skip(1)[i] == s[i + 1]);
        }
        lemma_encode_no_bar(s.skip(1));
        let head = crate::xml::encode_char(s[0]);
        let tail = encode_spec(s.skip(1));
        let e = encode_spec(s);
        assert(e == head + tail);
        assert forall|i: int| 0 <= i < e.len() implies e[i] != '|' by {
            if i < head.len() {
                assert(e[i] == head[i]);
                if i == 0 {} else if i == 1 {} else if i == 2 {} else if i == 3 {} else if i == 4 {} else {}
            } else {
                assert(e[i] == tail[i - head.len()]);
            }
        }
    }
}

/// Text without `|` is left unchanged when `|` is replaced.
proof fn lemma_replace_no_bar(s: Seq<char>, rep: Seq<char>)
    requires
        no_bar(s),
    ensures
        replace_seq(s, seq!['|'], rep) == s,
{
    assert forall|i: int| !occurs_at(s, seq!['|'], i) by {
        if occurs_at(s, seq!['|'], i) {
            assert(s.subrange(i, i + 1)[0] == s[i]);
        }
    }
    lemma_replace_absent(s, seq!['|'], rep);
}

/// An ability whose fields were written XML-encoded is stored as the texts
/// themselves: the name followed by the profile's suffix, and the default,
/// spell id, actions, lua, recast delay, lua-before and lua-after as they
/// were before encoding; target and cancel-channel are lower-cased and then
/// decoded, so where their lower-cased text is an encoding, the cell is the
/// text it encodes. No entity is left in these cells.
pub proof fn law_ability_row_of_encoded(texts: Seq<Seq<char>>, f: AbilityFields, abbr: Seq<char>)
    requires
        texts.len() == 10,
        f.0 == encode_spec(texts[0]),
        f.1 == encode_spec(texts[1]),
        f.2 == encode_spec(texts[2]),
        f.3 == encode_spec(texts[3]),
        f.4 == encode_spec(texts[4]),
        f.5 == encode_spec(texts[5]),
        lowercase(f.6) == encode_spec(texts[6]),
        lowercase(f.7) == encode_spec(texts[7]),
        f.8 == encode_spec(texts[8]),
        f.9 == encode_spec(texts[9]),
    ensures
        ability_row(f, abbr).len() == 10,
        ability_row(f, abbr)[0] == texts[0] + profile_suffix(abbr),
        ability_row(f, abbr)[1] == texts[1],
        ability_row(f, abbr)[2] == texts[2],
        ability_row(f, abbr)[3] == texts[3],
        ability_row(f, abbr)[4] == texts[4],
        ability_row(f, abbr)[5] == texts[5],
        ability_row(f, abbr)[6] == texts[6],
        ability_row(f, abbr)[7] == texts[7],
        ability_row(f, abbr)[8] == texts[8],
        ability_row(f, abbr)[9] == texts[9],
{
    law_decode_encode_round_trip(texts[0]);
    law_decode_encode_round_trip(texts[1]);
    law_decode_encode_round_trip(texts[2]);
    law_decode_encode_round_trip(texts[3]);
    law_decode_encode_round_trip(texts[4]);
    law_decode_encode_round_trip(texts[5]);
    law_decode_encode_round_trip(texts[6]);
    law_decode_encode_round_trip(texts[7]);
    law_decode_encode_round_trip(texts[8]);
    law_decode_encode_round_trip(texts[9]);
}

/// The name and the lua of an ability are decoded alike: the same text in
/// both gives a name cell that is the lua cell followed by the profile's
/// suffix.
pub proof fn law_ability_name_decoded_like_lua(f: AbilityFields, abbr: Seq<char>)
    requires
        f.0 == f.4,
    ensures
        ability_row(f, abbr)[0] == ability_row(f, abbr)[4] + profile_suffix(abbr),
{
}

/// A rotation whose fields were written XML-encoded, with a list of one
/// entry, is stored as the texts themselves: the name and the entry each
/// followed by the profile's suffix.
pub proof fn law_rotation_row_of_encoded(
    name: Seq<char>,
    default: Seq<char>,
    entry: Seq<char>,
    combat: Seq<char>,
    notes: Seq<char>,
    abbr: Seq<char>,
)
    requires
        no_bar(entry),
    ensures
        rotation_row(
            encode_spec(name),
            encode_spec(default),
            encode_spec(entry),
            encode_spec(combat),
            encode_spec(notes),
            abbr,
        ) == seq![name + profile_suffix(abbr), default, entry + profile_suffix(abbr), combat, notes],
{
    law_decode_encode_round_trip(name);
    law_decode_encode_round_trip(default);
    law_decode_encode_round_trip(entry);
    law_decode_encode_round_trip(combat);
    law_decode_encode_round_trip(notes);
    lemma_replace_no_bar(entry, " ("@ + abbr + ")|"@);
}

/// Each entry of a rotation's list is decoded and then tagged: a list that
/// begins with an encoded entry and `|` is stored as that entry, the
/// profile's ` (abbr)|`, then what the rest of the list is stored as.
pub proof fn law_rotation_list_entries(
    name: Seq<char>,
    default: Seq<char>,
    entry: Seq<char>,
    rest: Seq<char>,
    combat: Seq<char>,
    notes: Seq<char>,
    abbr: Seq<char>,
)
    requires
        no_bar(entry),
    ensures
        rotation_row(name, default, encode_spec(entry) + seq!['|'] + rest, combat, notes, abbr)[2] == entry
            + " ("@ + abbr + ")|"@ + rotation_row(name, default, rest, combat, notes, abbr)[2],
{
    let rep = " ("@ + abbr + ")|"@;
    let bar_rest = seq!['|'] + rest;
    assert(encode_spec(entry) + seq!['|'] + rest =~= encode_spec(entry) + bar_rest);
    law_decode_encoded_prefix(entry, bar_rest);
    assert(bar_rest[0] == '|');
    assert(bar_rest.skip(1) =~= rest);
    lemma_decode_plain_front(bar_rest);
    let d = decode_spec(rest);
    assert(entry + decode_spec(bar_rest) =~= entry + (seq!['|'] + d));
    lemma_replace_clear_prefix(entry, seq!['|'] + d, seq!['|'], rep);
    lemma_replace_front(seq!['|'], d, rep);
    assert(entry + (rep + replace_seq(d, seq!['|'], rep)) + profile_suffix(abbr) =~= entry + rep + (
    replace_seq(d, seq!['|'], rep) + profile_suffix(abbr)));
}

/// An entry of a rotation's list is stored exactly as the ability reader
/// stores the name of an ability written with the same encoded text, so the
/// two can be matched.
pub proof fn law_rotation_entry_is_ability_name(
    name: Seq<char>,
    default: Seq<char>,
    entry: Seq<char>,
    combat: Seq<char>,
    notes: Seq<char>,
    f: AbilityFields,
    abbr: Seq<char>,
)
    requires
        no_bar(entry),
        f.0 == encode_spec(entry),
    ensures
        rotation_row(name, default, encode_spec(entry), combat, notes, abbr)[2] == ability_row(f, abbr)[0],
{
    law_decode_encode_round_trip(entry);
    lemma_replace_no_bar(entry, " ("@ + abbr + ")|"@);
}

} // verus!
