use gmhelper::naming::{
    compute_gm_folder_path, derive_sprite_name, folder_path_from, sprite_name_from,
};
use gmhelper::text::{chars_of, convert_to_pascal_case, string_of, to_camel_case};
use std::path::PathBuf;

#[test]
fn camel_case_capitalizes_each_part() {
    assert_eq!(to_camel_case("player_idle"), "PlayerIdle");
    assert_eq!(to_camel_case("big-BOSS.final form"), "BigBossFinalForm");
    assert_eq!(to_camel_case("__a__"), "A");
    assert_eq!(to_camel_case(""), "");
    assert_eq!(to_camel_case("_-. "), "");
    assert_eq!(to_camel_case("x"), "X");
    assert_eq!(to_camel_case("tab\there"), "Tab\there");
}

#[test]
fn camel_case_follows_unicode_case_mappings() {
    assert_eq!(to_camel_case("\u{df}a_\u{e9}T\u{c9}"), "SSa\u{c9}t\u{e9}");
    assert_eq!(to_camel_case("\u{3c3}\u{391}\u{3a3}"), "\u{3a3}\u{3b1}\u{3c2}");
}

#[test]
fn pascal_case_capitalizes_each_word_and_keeps_the_rest() {
    assert_eq!(convert_to_pascal_case("hello world"), "HelloWorld");
    assert_eq!(convert_to_pascal_case("  my  bossTHEME\tsong\n"), "MyBossTHEMESong");
    assert_eq!(convert_to_pascal_case("song_1"), "Song_1");
    assert_eq!(convert_to_pascal_case(""), "");
    assert_eq!(convert_to_pascal_case(" \u{a0}\u{3000}"), "");
    assert_eq!(convert_to_pascal_case("\u{e9}t\u{e9} a"), "\u{c9}t\u{e9}A");
}

#[test]
fn chars_and_strings_convert_back_and_forth() {
    let chars = chars_of("h\u{e9}llo");
    assert_eq!(chars, vec!['h', '\u{e9}', 'l', 'l', 'o']);
    assert_eq!(string_of(&chars, 1, 4), "\u{e9}ll");
    assert_eq!(string_of(&chars, 2, 2), "");
}

#[test]
fn sprite_name_joins_file_and_tag() {
    assert_eq!(sprite_name_from("player", "idle"), "sPlayerIdle");
    assert_eq!(sprite_name_from("big_boss", "walk left"), "sBigBossWalkLeft");
    assert_eq!(sprite_name_from("", ""), "s");
}

#[test]
fn sprite_name_comes_from_the_file_stem() {
    let path = PathBuf::from("art/characters/player_one.aseprite");
    assert_eq!(derive_sprite_name(&path, "run"), Ok("sPlayerOneRun".to_string()));
    assert_eq!(
        derive_sprite_name(&PathBuf::from("/"), "run"),
        Err("Could not extract filename from Aseprite path".to_string())
    );
    assert_eq!(
        derive_sprite_name(&PathBuf::from("a/.."), "run"),
        Err("Could not extract filename from Aseprite path".to_string())
    );
}

#[test]
fn folder_path_joins_the_directories_below_sprites() {
    assert_eq!(folder_path_from(&Vec::new()), "Sprites");
    assert_eq!(folder_path_from(&vec!["characters".to_string()]), "Sprites/Characters");
    assert_eq!(
        folder_path_from(&vec!["big_bosses".to_string(), "__".to_string(), "x".to_string()]),
        "Sprites/BigBosses//X"
    );
}

#[test]
fn folder_path_mirrors_the_directories_below_the_watched_one() {
    let watch = PathBuf::from("/work/art");
    let file = PathBuf::from("/work/art/characters/evil_enemies/bat.aseprite");
    assert_eq!(compute_gm_folder_path(&watch, &file), "Sprites/Characters/EvilEnemies");
    assert_eq!(compute_gm_folder_path(&watch, &PathBuf::from("/work/art/bat.aseprite")), "Sprites");
    assert_eq!(compute_gm_folder_path(&watch, &PathBuf::from("/else/bat.aseprite")), "Sprites");
    assert_eq!(compute_gm_folder_path(&watch, &PathBuf::from("/")), "Sprites");
}
