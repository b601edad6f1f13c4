use rust_wow::loader::{abbreviated_profile_name, AbilityReader, RotationReader};
use rust_wow::xml::PROFILE_SIZE;

#[test]
fn abbreviation_of_windows_path() {
    assert_eq!(
        abbreviated_profile_name("C:\\Profiles\\Warrior\\Warr_Arms_Rotations.xml"),
        "Warr"
    );
}

#[test]
fn abbreviation_without_separators() {
    assert_eq!(abbreviated_profile_name("Mage.xml"), "Mage.xml");
    assert_eq!(abbreviated_profile_name("a\\b\\"), "");
    assert_eq!(abbreviated_profile_name("_x"), "");
    assert_eq!(abbreviated_profile_name(""), "");
}

fn feed_rotation(r: &mut RotationReader, tag: &str, value: &str) {
    r.on_element(tag);
    r.on_text(value);
    r.on_end_element(tag);
}

#[test]
fn rotation_rows_are_decoded_and_tagged() {
    let mut r = RotationReader::new("C:\\P\\Rog_Combat_Rotations.xml");
    r.on_element("Rotation");
    feed_rotation(&mut r, "RotationName", "Combat &amp; more");
    feed_rotation(&mut r, "RotationDefault", "true");
    feed_rotation(&mut r, "RotationList", "A|B|C");
    feed_rotation(&mut r, "RequireCombat", "false");
    feed_rotation(&mut r, "RotationNotes", "&lt;notes&gt;");
    r.on_end_element("Rotation");
    let rows = r.into_rows();
    assert_eq!(rows.len(), PROFILE_SIZE);
    assert_eq!(
        rows[0],
        vec![
            "Combat & more (Rog)".to_string(),
            "true".to_string(),
            "A (Rog)|B (Rog)|C (Rog)".to_string(),
            "false".to_string(),
            "<notes>".to_string(),
        ]
    );
    assert!(rows[1].iter().all(|c| c.is_empty()));
}

#[test]
fn rotation_needs_name_and_default() {
    let mut r = RotationReader::new("x\\A_R.xml");
    feed_rotation(&mut r, "RotationName", "Only name");
    r.on_end_element("Rotation");
    let rows = r.into_rows();
    assert!(rows.iter().all(|row| row[0].is_empty()));
}

#[test]
fn rotation_fields_reset_after_use() {
    let mut r = RotationReader::new("x\\A_R.xml");
    feed_rotation(&mut r, "RotationName", "One");
    feed_rotation(&mut r, "RotationDefault", "d1");
    feed_rotation(&mut r, "RotationNotes", "note");
    r.on_end_element("Rotation");
    feed_rotation(&mut r, "RotationName", "Two");
    feed_rotation(&mut r, "RotationDefault", "d2");
    r.on_end_element("Rotation");
    let rows = r.into_rows();
    assert_eq!(rows[0][0], "One (A)");
    assert_eq!(rows[0][3], "");
    assert_eq!(rows[0][4], "note");
    assert_eq!(rows[1][0], "Two (A)");
    assert_eq!(rows[1][2], " (A)");
    assert_eq!(rows[1][3], "true");
    assert_eq!(rows[1][4], "");
}

#[test]
fn rotation_text_outside_known_elements_is_ignored() {
    let mut r = RotationReader::new("x\\A_R.xml");
    feed_rotation(&mut r, "Other", "ignored");
    feed_rotation(&mut r, "RotationName", "N");
    feed_rotation(&mut r, "RotationDefault", "D");
    r.on_end_element("NotRotation");
    let rows = r.into_rows();
    assert!(rows[0][0].is_empty());
}

fn feed_ability(r: &mut AbilityReader, tag: &str, value: &str) {
    r.on_element(tag);
    r.on_text(value);
    r.on_end_element(tag);
}

#[test]
fn ability_rows_are_decoded_and_lowercased() {
    let mut r = AbilityReader::new("C:\\P\\Pal_Ret_Abilities.xml");
    feed_ability(&mut r, "Name", "Judgement");
    feed_ability(&mut r, "Default", "true");
    feed_ability(&mut r, "SpellID", "20271");
    feed_ability(&mut r, "Actions", "act");
    feed_ability(&mut r, "Lua", "return x &lt; 3");
    feed_ability(&mut r, "RecastDelay", "500");
    feed_ability(&mut r, "SelfCast", "True");
    feed_ability(&mut r, "CancelChannel", "TRUE");
    feed_ability(&mut r, "LuaBefore", "b");
    feed_ability(&mut r, "LuaAfter", "a");
    r.on_end_element("Ability");
    let rows = r.into_rows();
    assert_eq!(
        rows[0],
        vec![
            "Judgement (Pal)", "true", "20271", "act", "return x < 3", "500", "player", "true",
            "b", "a",
        ]
        .into_iter()
        .map(String::from)
        .collect::<Vec<_>>()
    );
}

#[test]
fn ability_defaults_and_resets() {
    let mut r = AbilityReader::new("P_Abilities.xml");
    feed_ability(&mut r, "Name", "First");
    feed_ability(&mut r, "Default", "d");
    feed_ability(&mut r, "SpellID", "1");
    feed_ability(&mut r, "Lua", "l");
    feed_ability(&mut r, "LuaAfter", "kept");
    r.on_end_element("Ability");
    feed_ability(&mut r, "Name", "Second");
    feed_ability(&mut r, "Default", "d");
    feed_ability(&mut r, "SpellID", "2");
    feed_ability(&mut r, "Lua", "l2");
    feed_ability(&mut r, "SelfCast", "no");
    r.on_end_element("Ability");
    let rows = r.into_rows();
    assert_eq!(rows[0][0], "First (P)");
    assert_eq!(rows[0][5], "");
    assert_eq!(rows[0][6], "target");
    assert_eq!(rows[0][7], "false");
    assert_eq!(rows[0][9], "kept");
    assert_eq!(rows[1][5], "0");
    assert_eq!(rows[1][6], "target");
    assert_eq!(rows[1][9], "");
}

#[test]
fn ability_lua_before_and_after_are_not_inherited() {
    let mut r = AbilityReader::new("P_Abilities.xml");
    feed_ability(&mut r, "Name", "First");
    feed_ability(&mut r, "Default", "d");
    feed_ability(&mut r, "SpellID", "1");
    feed_ability(&mut r, "Lua", "l");
    feed_ability(&mut r, "LuaBefore", "before");
    feed_ability(&mut r, "LuaAfter", "after");
    r.on_end_element("Ability");
    feed_ability(&mut r, "Name", "Second");
    feed_ability(&mut r, "Default", "d");
    feed_ability(&mut r, "SpellID", "2");
    feed_ability(&mut r, "Lua", "l2");
    r.on_end_element("Ability");
    let rows = r.into_rows();
    assert_eq!(rows[0][8], "before");
    assert_eq!(rows[0][9], "after");
    assert_eq!(rows[1][8], "");
    assert_eq!(rows[1][9], "");
}

#[test]
fn ability_target_element_sets_target() {
    let mut r = AbilityReader::new("P_A.xml");
    feed_ability(&mut r, "Name", "N");
    feed_ability(&mut r, "Default", "d");
    feed_ability(&mut r, "SpellID", "1");
    feed_ability(&mut r, "Lua", "l");
    feed_ability(&mut r, "Target", "Focus");
    r.on_end_element("Ability");
    assert_eq!(r.into_rows()[0][6], "focus");
}

#[test]
fn ability_needs_lua() {
    let mut r = AbilityReader::new("P_A.xml");
    feed_ability(&mut r, "Name", "N");
    feed_ability(&mut r, "Default", "d");
    feed_ability(&mut r, "SpellID", "1");
    r.on_end_element("Ability");
    assert!(r.into_rows()[0][0].is_empty());
}

#[test]
fn full_table_keeps_its_rows() {
    let mut r = RotationReader::new("x\\A_R.xml");
    for i in 0..PROFILE_SIZE + 2 {
        feed_rotation(&mut r, "RotationName", &format!("r{i}"));
        feed_rotation(&mut r, "RotationDefault", "d");
        r.on_end_element("Rotation");
    }
    let rows = r.into_rows();
    assert_eq!(rows[PROFILE_SIZE - 1][0], format!("r{} (A)", PROFILE_SIZE - 1));
    assert_eq!(rows[0][0], "r0 (A)");
}
