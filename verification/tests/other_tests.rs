use rust_wow::d3d9::D3d9;
use rust_wow::process::Process;
use rust_wow::profiles::{Profile, ProfileListing, Profiles};
use rust_wow::stubs::{absolute_call, jump_stub, nop_patch, script_detour};
use rust_wow::wow::{WowCheats, FRAME_SCRIPT_EXECUTE};

#[test]
fn endscene_is_entry_42() {
    let table: Vec<usize> = (0..119).map(|i| 0x1000 + i * 4).collect();
    let d = D3d9::new(table);
    assert_eq!(d.get_endscene(), 0x1000 + 42 * 4);
}

#[test]
fn stub_encodings() {
    assert_eq!(jump_stub(0x12345678), vec![0xB8, 0x78, 0x56, 0x34, 0x12, 0xFF, 0xE0]);
    assert_eq!(absolute_call(0xDEADBEEF), vec![0xBA, 0xEF, 0xBE, 0xAD, 0xDE, 0xFF, 0xD2]);
    assert_eq!(nop_patch(3), vec![0x90, 0x90, 0x90]);
    assert_eq!(nop_patch(300), vec![0x90; 300]);
    assert!(nop_patch(0).is_empty());
}

#[test]
fn script_detour_layout() {
    let displaced = vec![1, 2, 3, 4, 5, 6, 7];
    let code = script_detour(0x0A0B0C0D, 0x00819210, &displaced, 0x11223344, 0x55667788);
    assert_eq!(
        code,
        vec![
            0xB8, 0x0D, 0x0C, 0x0B, 0x0A, 0x6A, 0x00, 0x50, 0x50, 0xB8, 0x10, 0x92, 0x81, 0x00,
            0xFF, 0xD0, 0x83, 0xC4, 0x0C, 1, 2, 3, 4, 5, 6, 7, 0xB8, 0x44, 0x33, 0x22, 0x11, 0xC7,
            0x05, 0x88, 0x77, 0x66, 0x55, 0x01, 0x00, 0x00, 0x00, 0xFF, 0xE0,
        ]
    );
}

#[test]
fn wow_detour_resumes_after_displaced_bytes() {
    let w = WowCheats::new(Process::new(1, 2), 0x6000_0000);
    assert_eq!(w.end_scene_ptr(), 0x6000_0000);
    assert_eq!(w.wow_process().process_id(), 2);
    let code = w.script_detour(0x100, 0x200, &vec![0x90; 7]);
    let expected = script_detour(0x100, FRAME_SCRIPT_EXECUTE as u32, &vec![0x90; 7], 0x6000_0007, 0x200);
    assert_eq!(code, expected);
}

#[test]
fn script_rewriting() {
    assert_eq!(WowCheats::prepare_script("PQR_Hello(PQR)"), "dx9_Hello(dx9)");
    assert_eq!(WowCheats::prepare_script("PPQRR"), "Pdx9R");
    assert_eq!(WowCheats::prepare_script("pqr"), "pqr");
}

fn listing(path: &str, name: Option<&str>, children: &[&str]) -> ProfileListing {
    ProfileListing {
        path: path.to_string(),
        dir_name: name.map(|s| s.to_string()),
        children: children.iter().map(|s| s.to_string()).collect(),
    }
}

#[test]
fn profile_from_folder() {
    let l = listing(
        "C:\\Profiles\\Warrior",
        Some("Warrior"),
        &[
            "C:\\Profiles\\Warrior\\Warr_Abilities.xml",
            "C:\\Profiles\\Warrior\\Warr_Rotations.xml",
            "C:\\Profiles\\Warrior\\readme.txt",
        ],
    );
    let p = Profile::new(l.path, l.dir_name, l.children);
    assert_eq!(p.get_profile_name(), "Warrior");
    assert_eq!(p.get_profile_path(), "C:\\Profiles\\Warrior");
    assert_eq!(p.get_abilities_path(), "C:\\Profiles\\Warrior\\Warr_Abilities.xml");
    assert_eq!(p.get_rotation_path(), "C:\\Profiles\\Warrior\\Warr_Rotations.xml");
}

#[test]
fn profile_last_entry_wins_and_abilities_first() {
    let p = Profile::new(
        "d".to_string(),
        Some("d".to_string()),
        vec![
            "a_Abilities.xml".to_string(),
            "b_Abilities.xml".to_string(),
            "Rotations_Abilities.xml".to_string(),
            "x_Rotations.xml".to_string(),
        ],
    );
    assert_eq!(p.get_abilities_path(), "Rotations_Abilities.xml");
    assert_eq!(p.get_rotation_path(), "x_Rotations.xml");
}

#[test]
fn empty_profile_folder_has_no_name() {
    let p = Profile::new("C:\\P\\Empty".to_string(), Some("Empty".to_string()), vec![]);
    assert_eq!(p.get_profile_name(), "");
    assert_eq!(p.get_rotation_path(), "");
    assert_eq!(p.get_abilities_path(), "");
    let d = Profile::default();
    assert_eq!(d.get_profile_name(), "");
    assert_eq!(d.get_profile_path(), "");
}

#[test]
fn profiles_in_listing_order() {
    let ps = Profiles::new(vec![
        listing("A", Some("A"), &["A\\x_Rotations.xml"]),
        listing("B", Some("B"), &["B\\y_Abilities.xml"]),
    ]);
    let list = ps.get_profiles();
    assert_eq!(list.len(), 2);
    assert_eq!(list[0].get_profile_name(), "A");
    assert_eq!(list[0].get_rotation_path(), "A\\x_Rotations.xml");
    assert_eq!(list[1].get_abilities_path(), "B\\y_Abilities.xml");
}

#[test]
fn prepared_script_has_no_marker() {
    for s in ["PQPQRR", "PQRQR", "PPQRQRR", "xPQRyPQR"] {
        let p = WowCheats::prepare_script(s);
        assert!(!p.contains("PQR"), "input {s:?} gave {p:?}");
    }
    assert_eq!(WowCheats::prepare_script("PQPQRR"), "PQdx9R");
}
