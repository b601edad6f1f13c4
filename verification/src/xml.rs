//! Profile XML text handling: entity encoding and decoding, and the
//! serialisation of rotation and ability tables.

use vstd::prelude::*;
use crate::text::{chars_vec, matches_at, occurs_at, string_from_chars};

verus! {

/// Number of rows in a rotation or ability table.
pub const PROFILE_SIZE: usize = 1024;

pub open spec fn lt_entity() -> Seq<char> { seq!['&', 'l', 't', ';'] }
pub open spec fn gt_entity() -> Seq<char> { seq!['&', 'g', 't', ';'] }
pub open spec fn amp_entity() -> Seq<char> { seq!['&', 'a', 'm', 'p', ';'] }
pub open spec fn apos_entity() -> Seq<char> { seq!['&', 'a', 'p', 'o', 's', ';'] }
pub open spec fn quot_entity() -> Seq<char> { seq!['&', 'q', 'u', 'o', 't', ';'] }

/// Whether `s` begins with `p`.
pub open spec fn starts_with(s: Seq<char>, p: Seq<char>) -> bool {
    p.len() <= s.len() && s.take(p.len() as int) == p
}

/// What `decode_xml` returns: one pass from left to right in which each of
/// the five predefined entities becomes its character and every other
/// character is kept. Decoded text is not scanned again, so `&amp;lt;`
/// becomes `&lt;`.
pub open spec fn decode_spec(s: Seq<char>) -> Seq<char>
    decreases s.len(),
{
    if s.len() == 0 {
        Seq::empty()
    } else if starts_with(s, lt_entity()) {
        seq!['<'] + decode_spec(s.skip(4))
    } else if starts_with(s, gt_entity()) {
        seq!['>'] + decode_spec(s.skip(4))
    } else if starts_with(s, amp_entity()) {
        seq!['&'] + decode_spec(s.skip(5))
    } else if starts_with(s, apos_entity()) {
        seq!['\''] + decode_spec(s.skip(6))
    } else if starts_with(s, quot_entity()) {
        seq!['"'] + decode_spec(s.skip(6))
    } else {
        seq![s[0]] + decode_spec(s.skip(1))
    }
}

/// How one character is encoded: each of `<`, `>`, `&`, `"`, `'` as its
/// entity, any other character as itself.
pub open spec fn encode_char(c: char) -> Seq<char> {
    if c == '<' {
        lt_entity()
    } else if c == '>' {
        gt_entity()
    } else if c == '&' {
        amp_entity()
    } else if c == '"' {
        quot_entity()
    } else if c == '\'' {
        apos_entity()
    } else {
        seq![c]
    }
}

/// What `encode_xml` returns: every character encoded once, in order.
pub open spec fn encode_spec(s: Seq<char>) -> Seq<char>
    decreases s.len(),
{
    if s.len() == 0 {
        Seq::empty()
    } else {
        encode_char(s[0]) + encode_spec(s.skip(1))
    }
}

fn lt_vec() -> (v: Vec<char>)
    ensures
        v@ == lt_entity(),
{
    let mut v: Vec<char> = Vec::new();
    v.push('&');
    v.push('l');
    v.push('t');
    v.push(';');
    assert(v@ =~= lt_entity());
    v
}

fn gt_vec() -> (v: Vec<char>)
    ensures
        v@ == gt_entity(),
{
    let mut v: Vec<char> = Vec::new();
    v.push('&');
    v.push('g');
    v.push('t');
    v.push(';');
    assert(v@ =~= gt_entity());
    v
}

fn amp_vec() -> (v: Vec<char>)
    ensures
        v@ == amp_entity(),
{
    let mut v: Vec<char> = Vec::new();
    v.push('&');
    v.push('a');
    v.push('m');
    v.push('p');
    v.push(';');
    assert(v@ =~= amp_entity());
    v
}

fn apos_vec() -> (v: Vec<char>)
    ensures
        v@ == apos_entity(),
{
    let mut v: Vec<char> = Vec::new();
    v.push('&');
    v.push('a');
    v.push('p');
    v.push('o');
    v.push('s');
    v.push(';');
    assert(v@ =~= apos_entity());
    v
}

fn quot_vec() -> (v: Vec<char>)
    ensures
        v@ == quot_entity(),
{
    let mut v: Vec<char> = Vec::new();
    v.push('&');
    v.push('q');
    v.push('u');
    v.push('o');
    v.push('t');
    v.push(';');
    assert(v@ =~= quot_entity());
    v
}


/// The characters that `encode_char(c)` stands for.
fn encode_char_vec(c: char) -> (v: Vec<char>)
    ensures
        v@ == encode_char(c),
{
    if c == '<' {
        lt_vec()
    } else if c == '>' {
        gt_vec()
    } else if c == '&' {
        amp_vec()
    } else if c == '"' {
        quot_vec()
    } else if c == '\'' {
        apos_vec()
    } else {
        let mut v: Vec<char> = Vec::new();
        v.push(c);
        assert(v@ =~= seq![c]);
        v
    }
}

/// An occurrence of `p` at `i` in `s` is a prefix of the rest of `s` from `i`.
proof fn lemma_occurs_at_rest(s: Seq<char>, p: Seq<char>, i: int)
    requires
        0 <= i <= s.len(),
    ensures
        occurs_at(s, p, i) <==> starts_with(s.skip(i), p),
        i + p.len() <= s.len() ==> s.skip(i).skip(p.len() as int) == s.skip(i + p.len()),
{
    if i + p.len() <= s.len() {
        assert(s.skip(i).take(p.len() as int) =~= s.subrange(i, i + p.len()));
        assert(s.skip(i).skip(p.len() as int) =~= s.skip(i + p.len()));
    }
}

/// Decodes the five predefined XML entities of `xml_input` in one pass
/// from left to right.
pub fn decode_xml(xml_input: String) -> (r: String)
    ensures
        r@ == decode_spec(xml_input@),
{
    let s = chars_vec(xml_input.as_str());
    let lt = lt_vec();
    let gt = gt_vec();
    let amp = amp_vec();
    let apos = apos_vec();
    let quot = quot_vec();
    let mut out: Vec<char> = Vec::new();
    let mut i: usize = 0;
    assert(s@.skip(0) =~= s@);
    while i < s.len()
        invariant
            i <= s.len(),
            s@ == xml_input@,
            lt@ == lt_entity(),
            gt@ == gt_entity(),
            amp@ == amp_entity(),
            apos@ == apos_entity(),
            quot@ == quot_entity(),
            out@ + decode_spec(s@.skip(i as int)) == decode_spec(s@),
        decreases s.len() - i,
    {
        let ghost rest = s@.skip(i as int);
        let ghost before = out@;
        proof {
            lemma_occurs_at_rest(s@, lt_entity(), i as int);
            lemma_occurs_at_rest(s@, gt_entity(), i as int);
            lemma_occurs_at_rest(s@, amp_entity(), i as int);
            lemma_occurs_at_rest(s@, apos_entity(), i as int);
            lemma_occurs_at_rest(s@, quot_entity(), i as int);
        }
        let step: usize;
        if matches_at(&s, &lt, i) {
            out.push('<');
            step = 4;
        } else if matches_at(&s, &gt, i) {
            out.push('>');
            step = 4;
        } else if matches_at(&s, &amp, i) {
            out.push('&');
            step = 5;
        } else if matches_at(&s, &apos, i) {
            out.push('\'');
            step = 6;
        } else if matches_at(&s, &quot, i) {
            out.push('"');
            step = 6;
        } else {
            out.push(s[i]);
            assert(rest.skip(1) =~= s@.skip(i + 1));
            step = 1;
        }
        assert(out@ + decode_spec(s@.skip(i + step)) =~= before + decode_spec(rest));
        i = i + step;
    }
    assert(s@.skip(i as int) =~= Seq::<char>::empty());
    assert(out@ + Seq::<char>::empty() =~= out@);
    string_from_chars(out.as_slice())
}

/// Encodes each of `<`, `>`, `&`, `"`, `'` in `xml_input` as its XML entity.
pub fn encode_xml(xml_input: &str) -> (r: String)
    ensures
        r@ == encode_spec(xml_input@),
{
    let s = chars_vec(xml_input);
    let mut out: Vec<char> = Vec::new();
    let mut i: usize = 0;
    assert(s@.skip(0) =~= s@);
    while i < s.len()
        invariant
            i <= s.len(),
            s@ == xml_input@,
            out@ + encode_spec(s@.skip(i as int)) == encode_spec(s@),
        decreases s.len() - i,
    {
        let ghost rest = s@.skip(i as int);
        let ghost before = out@;
        assert(rest[0] == s@[i as int]);
        assert(rest.skip(1) =~= s@.skip(i + 1));
        let mut e = encode_char_vec(s[i]);
        out.append(&mut e);
        assert(out@ + encode_spec(s@.skip(i + 1)) =~= before + encode_spec(rest));
        i = i + 1;
    }
    assert(s@.skip(i as int) =~= Seq::<char>::empty());
    assert(out@ + Seq::<char>::empty() =~= out@);
    string_from_chars(out.as_slice())
}

/// The XML declaration that opens every serialised table.
pub open spec fn xml_declaration() -> Seq<char> {
    "<?xml version=\"1.0\" encoding=\"utf-8\" ?>"@
}

/// Whether row `i` of a table is in use: its first column is not empty.
pub open spec fn row_used(rows: Seq<Vec<&str>>, i: int) -> bool {
    rows[i]@[0]@.len() > 0
}

/// The child element names of a rotation, one per column.
pub open spec fn rotation_tags() -> Seq<Seq<char>> {
    seq!["RotationName"@, "RotationDefault"@, "RotationList"@, "RequireCombat"@, "RotationNotes"@]
}

/// The child element names of an ability, one per column.
pub open spec fn ability_tags() -> Seq<Seq<char>> {
    seq![
        "Name"@,
        "Default"@,
        "SpellID"@,
        "Actions"@,
        "Lua"@,
        "RecastDelay"@,
        "Target"@,
        "CancelChannel"@,
        "LuaBefore"@,
        "LuaAfter"@,
    ]
}

/// One column as an element: `<tag>`, the encoded value, `</tag>`.
pub open spec fn field_element(tag: Seq<char>, value: Seq<char>) -> Seq<char> {
    "<"@ + tag + ">"@ + encode_spec(value) + "</"@ + tag + ">"@
}

/// The elements of the first `k` columns of `row`, named by `tags`.
pub open spec fn row_fields(tags: Seq<Seq<char>>, row: Seq<&str>, k: int) -> Seq<char>
    decreases k,
{
    if k <= 0 {
        Seq::empty()
    } else {
        row_fields(tags, row, k - 1) + field_element(tags[k - 1], row[k - 1]@)
    }
}

/// A row as an element named `element` holding one child per tag.
pub open spec fn row_element(element: Seq<char>, tags: Seq<Seq<char>>, row: Seq<&str>) -> Seq<char> {
    "<"@ + element + ">"@ + row_fields(tags, row, tags.len() as int) + "</"@ + element + ">"@
}

/// The row elements of every used row among the first `n` rows,
/// concatenated in row order.
pub open spec fn table_body(
    rows: Seq<Vec<&str>>,
    n: int,
    element: Seq<char>,
    tags: Seq<Seq<char>>,
) -> Seq<char>
    decreases n,
{
    if n <= 0 {
        Seq::empty()
    } else {
        table_body(rows, n - 1, element, tags) + if row_used(rows, n - 1) {
            row_element(element, tags, rows[n - 1]@)
        } else {
            Seq::empty()
        }
    }
}

/// A table that can be serialised: it has at least `PROFILE_SIZE` rows, each
/// row has a first column, and every used row has at least `width` columns.
pub open spec fn table_shape(rows: Seq<Vec<&str>>, width: int) -> bool {
    &&& rows.len() >= PROFILE_SIZE
    &&& forall|i: int|
        0 <= i < PROFILE_SIZE ==> #[trigger] rows[i]@.len() >= 1 && (row_used(rows, i)
            ==> rows[i]@.len() >= width)
}

/// The document written for a table: the declaration, then the class element
/// holding the body.
pub open spec fn table_document(class: Seq<char>, body: Seq<char>) -> Seq<char> {
    xml_declaration() + "<"@ + class + ">"@ + body + "</"@ + class + ">"@
}

/// Whether the names in `tags` are those of `spec_tags`.
pub open spec fn tags_named(tags: Seq<&str>, spec_tags: Seq<Seq<char>>) -> bool {
    tags.len() == spec_tags.len() && forall|k: int| 0 <= k < tags.len() ==> #[trigger] tags[k]@ == spec_tags[k]
}

fn rotation_tag_names() -> (v: Vec<&'static str>)
    ensures
        tags_named(v@, rotation_tags()),
{
    let mut v: Vec<&'static str> = Vec::new();
    v.push("RotationName");
    v.push("RotationDefault");
    v.push("RotationList");
    v.push("RequireCombat");
    v.push("RotationNotes");
    v
}

fn ability_tag_names() -> (v: Vec<&'static str>)
    ensures
        tags_named(v@, ability_tags()),
{
    let mut v: Vec<&'static str> = Vec::new();
    v.push("Name");
    v.push("Default");
    v.push("SpellID");
    v.push("Actions");
    v.push("Lua");
    v.push("RecastDelay");
    v.push("Target");
    v.push("CancelChannel");
    v.push("LuaBefore");
    v.push("LuaAfter");
    v
}

/// Writes one row as an element named `element` with one encoded child per tag.
fn serialise_row(row: &Vec<&str>, element: &str, tags: &Vec<&str>, spec_tags: Ghost<Seq<Seq<char>>>) -> (r: String)
    requires
        tags_named(tags@, spec_tags@),
        row.len() >= tags.len(),
    ensures
        r@ == row_element(element@, spec_tags@, row@),
{
    let mut out = "<".to_owned();
    out.append(element);
    out.append(">");
    let ghost open_tag = "<"@ + element@ + ">"@;
    let mut k: usize = 0;
    while k < tags.len()
        invariant
            k <= tags.len(),
            tags_named(tags@, spec_tags@),
            row.len() >= tags.len(),
            open_tag == "<"@ + element@ + ">"@,
            out@ == open_tag + row_fields(spec_tags@, row@, k as int),
        decreases tags.len() - k,
    {
        let ghost before = out@;
        let tag = tags[k];
        assert(tag@ == spec_tags@[k as int]);
        out.append("<");
        out.append(tag);
        out.append(">");
        let cell = encode_xml(row[k]);
        out.append(cell.as_str());
        out.append("</");
        out.append(tag);
        out.append(">");
        assert(out@ =~= before + field_element(spec_tags@[k as int], row@[k as int]@));
        k = k + 1;
    }
    out.append("</");
    out.append(element);
    out.append(">");
    out
}

/// Writes the row element of each used row among the first `PROFILE_SIZE`
/// rows and concatenates them.
fn serialise_table(rows: &Vec<Vec<&str>>, element: &str, tags: &Vec<&str>, spec_tags: Ghost<Seq<Seq<char>>>) -> (r: String)
    requires
        tags_named(tags@, spec_tags@),
        table_shape(rows@, tags.len() as int),
    ensures
        r@ == table_body(rows@, PROFILE_SIZE as int, element@, spec_tags@),
{
    let mut body = "".to_owned();
    proof {
        reveal_strlit("");
    }
    let mut i: usize = 0;
    while i < PROFILE_SIZE
        invariant
            i <= PROFILE_SIZE,
            tags_named(tags@, spec_tags@),
            table_shape(rows@, tags.len() as int),
            body@ == table_body(rows@, i as int, element@, spec_tags@),
        decreases PROFILE_SIZE - i,
    {
        assert(rows@[i as int]@.len() >= 1);
        if !rows[i][0].is_empty() {
            assert(row_used(rows@, i as int));
            let row = serialise_row(&rows[i], element, tags, spec_tags);
            body.append(row.as_str());
        }
        i = i + 1;
    }
    body
}

/// Writes the document of a table whose body is already serialised.
fn wrap_document(player_class: &str, body: &str) -> (r: String)
    ensures
        r@ == table_document(player_class@, body@),
{
    let mut r = "<?xml version=\"1.0\" encoding=\"utf-8\" ?>".to_owned();
    r.append("<");
    r.append(player_class);
    r.append(">");
    r.append(body);
    r.append("</");
    r.append(player_class);
    r.append(">");
    r
}

/// Serialises a rotation table: one `Rotation` element per used row (a row
/// whose name is not empty), in row order, each with the five columns as
/// encoded child elements, inside an element named after the class.
pub fn translate_rot_to_xml(player_class: &str, rotation_array: Vec<Vec<&str>>) -> (r: String)
    requires
        table_shape(rotation_array@, 5),
    ensures
        r@ == table_document(
            player_class@,
            table_body(rotation_array@, PROFILE_SIZE as int, "Rotation"@, rotation_tags()),
        ),
{
    let tags = rotation_tag_names();
    let body = serialise_table(&rotation_array, "Rotation", &tags, Ghost(rotation_tags()));
    wrap_document(player_class, body.as_str())
}

/// Serialises an ability table: one `Ability` element per used row (a row
/// whose name is not empty), in row order, each with the ten columns as
/// encoded child elements, inside an element named after the class.
pub fn translate_ability_to_xml(player_class: &str, ability_array: Vec<Vec<&str>>) -> (r: String)
    requires
        table_shape(ability_array@, 10),
    ensures
        r@ == table_document(
            player_class@,
            table_body(ability_array@, PROFILE_SIZE as int, "Ability"@, ability_tags()),
        ),
{
    let tags = ability_tag_names();
    let body = serialise_table(&ability_array, "Ability", &tags, Ghost(ability_tags()));
    wrap_document(player_class, body.as_str())
}

/// The lua column (index 4) of an ability row.
pub fn extract_lua_from_ability(player_rotation: Vec<String>) -> (r: String)
    requires
        player_rotation.len() > 4,
    ensures
        r@ == player_rotation@[4]@,
{
    player_rotation[4].clone()
}

/// The name column (index 0) of a rotation or ability row.
pub fn extract_abilities_name_from_rotation(player_rotation: Vec<String>) -> (r: String)
    requires
        player_rotation.len() > 0,
    ensures
        r@ == player_rotation@[0]@,
{
    player_rotation[0].clone()
}


/// Whether `c` is one of the characters that `encode_xml` escapes into an
/// entity besides `&`.
pub open spec fn is_markup(c: char) -> bool {
    c == '<' || c == '>' || c == '"' || c == '\''
}

/// `x + r` begins with `x`, and what follows it is `r`.
proof fn lemma_prefix_parts(x: Seq<char>, r: Seq<char>)
    ensures
        starts_with(x + r, x),
        (x + r).skip(x.len() as int) == r,
{
    assert((x + r).take(x.len() as int) =~= x);
    assert((x + r).skip(x.len() as int) =~= r);
}

/// `s` does not begin with `p` when they differ at position `k`.
proof fn lemma_not_prefix(s: Seq<char>, p: Seq<char>, k: int)
    requires
        0 <= k < p.len(),
        k < s.len(),
        s[k] != p[k],
    ensures
        !starts_with(s, p),
{
    if starts_with(s, p) {
        assert(s.take(p.len() as int)[k] == s[k]);
    }
}

/// A character that is not `&` starts no entity, so decoding keeps it.
pub(crate) proof fn lemma_decode_plain_front(s: Seq<char>)
    requires
        s.len() > 0,
        s[0] != '&',
    ensures
        decode_spec(s) == seq![s[0]] + decode_spec(s.skip(1)),
{
    lemma_not_prefix(s, lt_entity(), 0);
    lemma_not_prefix(s, gt_entity(), 0);
    lemma_not_prefix(s, amp_entity(), 0);
    lemma_not_prefix(s, apos_entity(), 0);
    lemma_not_prefix(s, quot_entity(), 0);
}

/// Decoding turns the encoding of `c`, followed by any text, back into `c`
/// followed by the decoding of that text.
proof fn lemma_decode_encoded_char(c: char, r: Seq<char>)
    ensures
        decode_spec(encode_char(c) + r) == seq![c] + decode_spec(r),
{
    let x = encode_char(c);
    let s = x + r;
    lemma_prefix_parts(x, r);
    if c == '<' {
    } else if c == '>' {
        lemma_not_prefix(s, lt_entity(), 1);
    } else if c == '&' {
        lemma_not_prefix(s, lt_entity(), 1);
        lemma_not_prefix(s, gt_entity(), 1);
    } else if c == '"' {
        lemma_not_prefix(s, lt_entity(), 1);
        lemma_not_prefix(s, gt_entity(), 1);
        lemma_not_prefix(s, amp_entity(), 1);
        lemma_not_prefix(s, apos_entity(), 1);
    } else if c == '\'' {
        lemma_not_prefix(s, lt_entity(), 1);
        lemma_not_prefix(s, gt_entity(), 1);
        lemma_not_prefix(s, amp_entity(), 2);
    } else {
        assert(s[0] == c);
        lemma_decode_plain_front(s);
    }
}

/// Decoding undoes encoding: for every text `s`, decoding the encoding of
/// `s` gives `s` back.
pub proof fn law_decode_encode_round_trip(s: Seq<char>)
    ensures
        decode_spec(encode_spec(s)) == s,
    decreases s.len(),
{
    if s.len() > 0 {
        law_decode_encode_round_trip(s.skip(1));
        lemma_decode_encoded_char(s[0], encode_spec(s.skip(1)));
        assert(s =~= seq![s[0]] + s.skip(1));
    }
}

/// Encoded text holds none of the markup characters `<`, `>`, `"`, `'`.
pub proof fn law_encoded_has_no_markup(s: Seq<char>)
    ensures
        forall|i: int| 0 <= i < encode_spec(s).len() ==> !is_markup(#[trigger] encode_spec(s)[i]),
    decreases s.len(),
{
    if s.len() > 0 {
        law_encoded_has_no_markup(s.skip(1));
        let head = encode_char(s[0]);
        let tail = encode_spec(s.skip(1));
        assert forall|i: int| 0 <= i < head.len() implies !is_markup(head[i]) by {
            if i == 0 {} else if i == 1 {} else if i == 2 {} else if i == 3 {} else if i == 4 {} else {}
        }
        assert forall|i: int| 0 <= i < encode_spec(s).len() implies !is_markup(#[trigger] encode_spec(s)[i]) by {
            if i >= head.len() {
                assert(encode_spec(s)[i] == tail[i - head.len()]);
            } else {
                assert(encode_spec(s)[i] == head[i]);
            }
        }
    }
}

/// Text without markup characters or `&` is left unchanged by encoding.
pub proof fn law_encode_plain_text(s: Seq<char>)
    requires
        forall|i: int| 0 <= i < s.len() ==> !is_markup(s[i]) && s[i] != '&',
    ensures
        encode_spec(s) == s,
    decreases s.len(),
{
    if s.len() > 0 {
        assert(!is_markup(s[0]) && s[0] != '&');
        assert forall|i: int| 0 <= i < s.skip(1).len() implies !is_markup(s.skip(1)[i]) && s.skip(1)[i] != '&' by {
            assert(s.skip(1)[i] == s[i + 1]);
        }
        law_encode_plain_text(s.skip(1));
        assert(s =~= seq![s[0]] + s.skip(1));
    }
}

/// Text without `&` is left unchanged by decoding.
pub proof fn law_decode_plain_text(s: Seq<char>)
    requires
        forall|i: int| 0 <= i < s.len() ==> s[i] != '&',
    ensures
        decode_spec(s) == s,
    decreases s.len(),
{
    if s.len() > 0 {
        assert(s[0] != '&');
        lemma_decode_plain_front(s);
        assert forall|i: int| 0 <= i < s.skip(1).len() implies s.skip(1)[i] != '&' by {
            assert(s.skip(1)[i] == s[i + 1]);
        }
        law_decode_plain_text(s.skip(1));
        assert(s =~= seq![s[0]] + s.skip(1));
    }
}

/// Whether one of the five entities begins at position `i` of `t`.
pub open spec fn entity_at(t: Seq<char>, i: int) -> bool {
    let r = t.skip(i);
    starts_with(r, lt_entity()) || starts_with(r, gt_entity()) || starts_with(r, amp_entity())
        || starts_with(r, apos_entity()) || starts_with(r, quot_entity())
}

/// Whether `t` is well-formed escaped text: it holds no `<`, `>`, `"` or `'`,
/// and every `&` in it begins one of the five entities.
pub open spec fn escaped(t: Seq<char>) -> bool {
    forall|i: int| 0 <= i < t.len() ==> !is_markup(#[trigger] t[i]) && (t[i] == '&' ==> entity_at(t, i))
}

/// Encoding is character by character: the encoding of `a` followed by `b`
/// is the encoding of `a` followed by the encoding of `b`.
pub proof fn law_encode_concat(a: Seq<char>, b: Seq<char>)
    ensures
        encode_spec(a + b) == encode_spec(a) + encode_spec(b),
    decreases a.len(),
{
    if a.len() == 0 {
        assert(a + b =~= b);
        assert(encode_spec(a) + encode_spec(b) =~= encode_spec(b));
    } else {
        assert((a + b)[0] == a[0]);
        assert((a + b).skip(1) =~= a.skip(1) + b);
        law_encode_concat(a.skip(1), b);
        assert(encode_char(a[0]) + (encode_spec(a.skip(1)) + encode_spec(b)) =~= (encode_char(a[0])
            + encode_spec(a.skip(1))) + encode_spec(b));
    }
}

/// The encoding of a single character: `<`, `>`, `&`, `"` and `'` become
/// `&lt;`, `&gt;`, `&amp;`, `&quot;` and `&apos;`; any other character is
/// written as itself.
pub proof fn law_encode_single(c: char)
    ensures
        c == '<' ==> encode_spec(seq![c]) == seq!['&', 'l', 't', ';'],
        c == '>' ==> encode_spec(seq![c]) == seq!['&', 'g', 't', ';'],
        c == '&' ==> encode_spec(seq![c]) == seq!['&', 'a', 'm', 'p', ';'],
        c == '"' ==> encode_spec(seq![c]) == seq!['&', 'q', 'u', 'o', 't', ';'],
        c == '\'' ==> encode_spec(seq![c]) == seq!['&', 'a', 'p', 'o', 's', ';'],
        !is_markup(c) && c != '&' ==> encode_spec(seq![c]) == seq![c],
{
    let s = seq![c];
    assert(s[0] == c);
    assert(s.skip(1) =~= Seq::<char>::empty());
    assert(encode_spec(s.skip(1)) =~= Seq::<char>::empty());
    assert(encode_spec(s) == encode_char(c) + encode_spec(s.skip(1)));
    assert(encode_char(c) + Seq::<char>::empty() =~= encode_char(c));
}

/// Encoded text is well-formed escaped text: no raw `<`, `>`, `"`, `'`, and
/// every `&` begins an entity.
pub proof fn law_encoded_is_escaped(s: Seq<char>)
    ensures
        escaped(encode_spec(s)),
    decreases s.len(),
{
    law_encoded_has_no_markup(s);
    if s.len() > 0 {
        law_encoded_is_escaped(s.skip(1));
        let head = encode_char(s[0]);
        let tail = encode_spec(s.skip(1));
        let e = encode_spec(s);
        assert(e == head + tail);
        assert forall|i: int| 0 <= i < e.len() implies !is_markup(#[trigger] e[i]) && (e[i] == '&'
            ==> entity_at(e, i)) by {
            if i < head.len() {
                assert(e[i] == head[i]);
                if e[i] == '&' {
                    if i == 0 {} else if i == 1 {} else if i == 2 {} else if i == 3 {} else if i == 4 {} else {}
                    assert(i == 0);
                    lemma_prefix_parts(head, tail);
                    assert(e.skip(0) =~= e);
                }
            } else {
                assert(e[i] == tail[i - head.len()]);
                if e[i] == '&' {
                    assert(entity_at(tail, i - head.len()));
                    assert(e.skip(i) =~= tail.skip(i - head.len()));
                }
            }
        }
    }
}

/// Decoding turns encoded text back into its text and then goes on with
/// what follows: `decode(encode(s) + x) == s + decode(x)`.
pub proof fn law_decode_encoded_prefix(s: Seq<char>, x: Seq<char>)
    ensures
        decode_spec(encode_spec(s) + x) == s + decode_spec(x),
    decreases s.len(),
{
    if s.len() == 0 {
        assert(encode_spec(s) + x =~= x);
        assert(s + decode_spec(x) =~= decode_spec(x));
    } else {
        law_decode_encode_round_trip(s);
        law_decode_encoded_prefix(s.skip(1), x);
        let t = encode_spec(s.skip(1)) + x;
        assert(encode_spec(s) + x =~= encode_char(s[0]) + t);
        lemma_decode_encoded_char(s[0], t);
        assert(seq![s[0]] + (s.skip(1) + decode_spec(x)) =~= s + decode_spec(x));
    }
}

/// Each column of a written row is one child element whose text is
/// well-formed escaped text that decodes back to the cell: appending
/// column `k` to the first `k` columns adds `<tag>`, that text, `</tag>`.
pub proof fn law_row_cell_escaped(tags: Seq<Seq<char>>, row: Seq<&str>, k: int)
    requires
        0 <= k,
    ensures
        ({
            let t = encode_spec(row[k]@);
            &&& row_fields(tags, row, k + 1) == row_fields(tags, row, k) + "<"@ + tags[k] + ">"@ + t + "</"@
                + tags[k] + ">"@
            &&& escaped(t)
            &&& decode_spec(t) == row[k]@
        }),
{
    law_encoded_is_escaped(row[k]@);
    law_decode_encode_round_trip(row[k]@);
    let t = encode_spec(row[k]@);
    assert(row_fields(tags, row, k + 1) =~= row_fields(tags, row, k) + "<"@ + tags[k] + ">"@ + t + "</"@
        + tags[k] + ">"@);
}

} // verus!
