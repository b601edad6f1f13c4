use rust_wow::xml::{
    decode_xml, encode_xml, extract_abilities_name_from_rotation, extract_lua_from_ability,
    translate_ability_to_xml, translate_rot_to_xml, PROFILE_SIZE,
};

#[test]
fn decode_all_entities() {
    let r = decode_xml("&lt;a&gt; &amp; &apos;b&apos; &quot;c&quot;".to_string());
    assert_eq!(r, "<a> & 'b' \"c\"");
}

#[test]
fn decode_plain_text_unchanged() {
    assert_eq!(decode_xml("plain text; no entities".to_string()), "plain text; no entities");
    assert_eq!(decode_xml(String::new()), "");
}

#[test]
fn decode_is_a_single_pass() {
    // Each entity is decoded once: an escaped entity decodes one level only.
    assert_eq!(decode_xml("&amp;lt;".to_string()), "&lt;");
    assert_eq!(decode_xml("&amp;apos;".to_string()), "&apos;");
    assert_eq!(decode_xml("&amp;lt;&amp;quot;".to_string()), "&lt;&quot;");
    // An incomplete entity is kept as it is.
    assert_eq!(decode_xml("&lt &amp".to_string()), "&lt &amp");
}

#[test]
fn encode_escapes_each_character_once() {
    assert_eq!(encode_xml("<"), "&lt;");
    assert_eq!(encode_xml(">"), "&gt;");
    assert_eq!(encode_xml("\""), "&quot;");
    assert_eq!(encode_xml("'"), "&apos;");
    assert_eq!(encode_xml("&"), "&amp;");
    assert_eq!(encode_xml("a<b"), "a&lt;b");
    assert_eq!(encode_xml("<a>"), "&lt;a&gt;");
    assert_eq!(encode_xml("&lt;"), "&amp;lt;");
}

#[test]
fn encode_plain_text_unchanged() {
    assert_eq!(encode_xml("CastSpellByName(x)"), "CastSpellByName(x)");
    assert_eq!(encode_xml(""), "");
}

#[test]
fn encoded_text_has_no_markup() {
    let e = encode_xml("if a < b and c > d then print(\"x\", 'y') end");
    assert!(!e.contains('<') && !e.contains('>') && !e.contains('"') && !e.contains('\''));
}

#[test]
fn round_trip_without_angle_brackets_or_ampersand() {
    let s = "say(\"hi\") -- it's fine";
    assert_eq!(decode_xml(encode_xml(s)), s);
}

#[test]
fn round_trip_with_angle_brackets() {
    for s in ["<", ">", "<a>", "if a < b and c > d then x() end"] {
        assert_eq!(decode_xml(encode_xml(s)), s, "input {s:?}");
    }
}

#[test]
fn non_ascii_text_survives() {
    assert_eq!(decode_xml(encode_xml("Éclair ☃")), "Éclair ☃");
}

fn table(width: usize, used: &[(usize, Vec<&'static str>)]) -> Vec<Vec<&'static str>> {
    let mut rows: Vec<Vec<&'static str>> = vec![vec![""; width]; PROFILE_SIZE];
    for (i, row) in used {
        rows[*i] = row.clone();
    }
    rows
}

#[test]
fn rotation_document_holds_used_rows() {
    let rows = table(
        5,
        &[
            (0, vec!["Main", "true", "A|B", "true", "n<1>"]),
            (3, vec!["Alt", "false", "C", "false", "n2"]),
        ],
    );
    let xml = translate_rot_to_xml("Warrior", rows);
    assert_eq!(
        xml,
        r#"<?xml version="1.0" encoding="utf-8" ?><Warrior><Rotation><RotationName>Main</RotationName><RotationDefault>true</RotationDefault><RotationList>A|B</RotationList><RequireCombat>true</RequireCombat><RotationNotes>n&lt;1&gt;</RotationNotes></Rotation><Rotation><RotationName>Alt</RotationName><RotationDefault>false</RotationDefault><RotationList>C</RotationList><RequireCombat>false</RequireCombat><RotationNotes>n2</RotationNotes></Rotation></Warrior>"#
    );
}

#[test]
fn rotation_document_of_one_row() {
    let mut rows = vec![vec![""]; PROFILE_SIZE];
    rows[0] = vec!["a", "b", "c", "d", "e"];
    let xml = translate_rot_to_xml("Mage", rows);
    assert_eq!(
        xml,
        r#"<?xml version="1.0" encoding="utf-8" ?><Mage><Rotation><RotationName>a</RotationName><RotationDefault>b</RotationDefault><RotationList>c</RotationList><RequireCombat>d</RequireCombat><RotationNotes>e</RotationNotes></Rotation></Mage>"#
    );
}

#[test]
fn rotation_document_of_empty_table() {
    let rows = vec![vec![""]; PROFILE_SIZE];
    let xml = translate_rot_to_xml("Mage", rows);
    assert_eq!(xml, "<?xml version=\"1.0\" encoding=\"utf-8\" ?><Mage></Mage>");
}

#[test]
fn ability_document_holds_used_rows() {
    let rows = table(
        10,
        &[(1, vec!["Strike", "true", "78", "", "Cast()", "0", "target", "false", "", "after&"])],
    );
    let xml = translate_ability_to_xml("Rogue", rows);
    assert_eq!(
        xml,
        r#"<?xml version="1.0" encoding="utf-8" ?><Rogue><Ability><Name>Strike</Name><Default>true</Default><SpellID>78</SpellID><Actions></Actions><Lua>Cast()</Lua><RecastDelay>0</RecastDelay><Target>target</Target><CancelChannel>false</CancelChannel><LuaBefore></LuaBefore><LuaAfter>after&amp;</LuaAfter></Ability></Rogue>"#
    );
}

#[test]
fn ability_document_of_one_row() {
    let mut rows = vec![vec![""]; PROFILE_SIZE];
    rows[0] = vec!["a", "b", "c", "d", "e", "f", "g", "h", "i", "j"];
    let xml = translate_ability_to_xml("M", rows);
    assert_eq!(
        xml,
        r#"<?xml version="1.0" encoding="utf-8" ?><M><Ability><Name>a</Name><Default>b</Default><SpellID>c</SpellID><Actions>d</Actions><Lua>e</Lua><RecastDelay>f</RecastDelay><Target>g</Target><CancelChannel>h</CancelChannel><LuaBefore>i</LuaBefore><LuaAfter>j</LuaAfter></Ability></M>"#
    );
}

#[test]
fn ability_document_keeps_row_order() {
    let mut rows = vec![vec![""; 10]; PROFILE_SIZE];
    rows[0][0] = "a";
    rows[3][0] = "b";
    let xml = translate_ability_to_xml("M", rows);
    assert_eq!(xml.matches("<Ability>").count(), 2);
    let a = xml.find("<Name>a</Name>").unwrap();
    let b = xml.find("<Name>b</Name>").unwrap();
    assert!(a < b);
}

#[test]
fn extract_columns() {
    let row: Vec<String> = (0..10).map(|i| format!("c{i}")).collect();
    assert_eq!(extract_lua_from_ability(row.clone()), "c4");
    assert_eq!(extract_abilities_name_from_rotation(row), "c0");
}

#[test]
fn round_trip_with_ampersands_and_quotes() {
    for s in ["a & b", "&amp;", "&lt;", "it's \"quoted\" & more", "&&'\"", "&apos", "&quot ;"] {
        assert_eq!(decode_xml(encode_xml(s)), s, "input {s:?}");
    }
}

#[test]
fn round_trip_with_literal_entities() {
    for s in ["&apos;", "&quot;", "&lt;&gt;", "&amp;amp;"] {
        assert_eq!(decode_xml(encode_xml(s)), s, "input {s:?}");
    }
}
