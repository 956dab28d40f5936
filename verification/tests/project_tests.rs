use gmhelper::json::{load_document, save_document, DocumentError, Json};
use gmhelper::project::{ensure_folder_chain, split_on, upsert_resource, GMFolder};

fn folder_paths(doc: &Json) -> Vec<String> {
    doc.get("Folders")
        .and_then(|f| f.as_array())
        .expect("a folder list")
        .iter()
        .map(|f| f.get("folderPath").and_then(|p| p.as_text()).expect("a path").clone())
        .collect()
}

fn resource_names(doc: &Json) -> Vec<String> {
    doc.get("resources")
        .and_then(|r| r.as_array())
        .expect("a resource list")
        .iter()
        .map(|r| {
            r.get("id").and_then(|id| id.get("name")).and_then(|n| n.as_text()).expect("a name").clone()
        })
        .collect()
}

#[test]
fn folder_record_has_the_fields_of_a_project_folder() {
    let folder = GMFolder::new("Enemies", "folders/Sprites/Enemies.yy");
    assert_eq!(folder.gm_folder, "");
    assert_eq!(folder.name_field, "Enemies");
    assert_eq!(folder.folder_path, "folders/Sprites/Enemies.yy");
    assert_eq!(folder.name, "Enemies");
    assert_eq!(folder.resource_type, "GMFolder");
    assert_eq!(folder.resource_version, "2.0");
    let text = save_document(&folder.to_json()).expect("prints");
    assert_eq!(
        text,
        "{\n  \"$GMFolder\": \"\",\n  \"%Name\": \"Enemies\",\n  \"folderPath\": \"folders/Sprites/Enemies.yy\",\n  \"name\": \"Enemies\",\n  \"resourceType\": \"GMFolder\",\n  \"resourceVersion\": \"2.0\"\n}"
    );
}

#[test]
fn split_cuts_at_every_separator() {
    assert_eq!(split_on("A/B/C", '/'), vec!["A", "B", "C"]);
    assert_eq!(split_on("Sprites", '/'), vec!["Sprites"]);
    assert_eq!(split_on("", '/'), vec![""]);
    assert_eq!(split_on("/A//", '/'), vec!["", "A", "", ""]);
}

#[test]
fn folder_chain_adds_parent_before_child() {
    let mut doc = load_document("{\"Folders\": [], \"resources\": []}").expect("parses");
    ensure_folder_chain(&mut doc, "A/B/C").expect("has a folder list");
    assert_eq!(folder_paths(&doc), vec!["folders/A.yy", "folders/A/B.yy", "folders/A/B/C.yy"]);
    let folders = doc.get("Folders").and_then(|f| f.as_array()).expect("a list");
    assert_eq!(folders[1].get("name").and_then(|n| n.as_text()), Some(&"B".to_string()));
    assert_eq!(folders[2].get("%Name").and_then(|n| n.as_text()), Some(&"C".to_string()));
}

#[test]
fn folder_chain_twice_adds_nothing() {
    let mut doc = load_document("{\"Folders\": [], \"resources\": []}").expect("parses");
    ensure_folder_chain(&mut doc, "Sprites/Flags").expect("has a folder list");
    let once = save_document(&doc).expect("prints");
    ensure_folder_chain(&mut doc, "Sprites/Flags").expect("has a folder list");
    assert_eq!(save_document(&doc).expect("prints"), once);
    assert_eq!(folder_paths(&doc), vec!["folders/Sprites.yy", "folders/Sprites/Flags.yy"]);
}

#[test]
fn folder_chain_keeps_what_is_there_and_adds_what_is_missing() {
    let text = "{\"Folders\": [{\"folderPath\": \"folders/Sprites.yy\", \"name\": \"Sprites\", \"extra\": 5,},], \"resources\": [], \"other\": {\"k\": 1}}";
    let mut doc = load_document(text).expect("parses");
    ensure_folder_chain(&mut doc, "Sprites/Enemies").expect("has a folder list");
    assert_eq!(folder_paths(&doc), vec!["folders/Sprites.yy", "folders/Sprites/Enemies.yy"]);
    let folders = doc.get("Folders").and_then(|f| f.as_array()).expect("a list");
    assert_eq!(folders[0].integer_field("extra"), Some(5));
    assert_eq!(doc.get("other").expect("kept").integer_field("k"), Some(1));
}

#[test]
fn folder_chain_needs_a_folder_list() {
    let mut doc = load_document("{\"resources\": []}").expect("parses");
    assert!(matches!(ensure_folder_chain(&mut doc, "A"), Err(DocumentError::MissingFolders)));
    let mut doc = load_document("{\"Folders\": {}, \"resources\": []}").expect("parses");
    assert!(matches!(ensure_folder_chain(&mut doc, "A"), Err(DocumentError::MissingFolders)));
    assert_eq!(doc, load_document("{\"Folders\": {}, \"resources\": []}").expect("parses"));
    let mut doc = load_document("[]").expect("parses");
    assert!(matches!(ensure_folder_chain(&mut doc, "A"), Err(DocumentError::MissingFolders)));
}

#[test]
fn upsert_appends_a_new_entry() {
    let mut doc = load_document("{\"resources\": [{\"id\": {\"name\": \"a\", \"path\": \"p\"}}]}")
        .expect("parses");
    upsert_resource(&mut doc, "sHero", "sprites/sHero/sHero.yy").expect("has a resource list");
    assert_eq!(resource_names(&doc), vec!["a", "sHero"]);
    let resources = doc.get("resources").and_then(|r| r.as_array()).expect("a list");
    let path = resources[1].get("id").and_then(|id| id.get("path")).and_then(|p| p.as_text());
    assert_eq!(path, Some(&"sprites/sHero/sHero.yy".to_string()));
}

#[test]
fn upsert_twice_leaves_one_entry_of_that_name() {
    let mut doc = load_document("{\"resources\": []}").expect("parses");
    upsert_resource(&mut doc, "sHero", "first").expect("has a resource list");
    upsert_resource(&mut doc, "other", "o").expect("has a resource list");
    upsert_resource(&mut doc, "sHero", "second").expect("has a resource list");
    assert_eq!(resource_names(&doc), vec!["other", "sHero"]);
    let resources = doc.get("resources").and_then(|r| r.as_array()).expect("a list");
    let path = resources[1].get("id").and_then(|id| id.get("path")).and_then(|p| p.as_text());
    assert_eq!(path, Some(&"second".to_string()));
}

#[test]
fn upsert_removes_every_earlier_entry_of_that_name() {
    let text = "{\"resources\": [{\"id\": {\"name\": \"x\"}}, {\"id\": {\"name\": \"y\"}}, {\"id\": {\"name\": \"x\"}}, {\"id\": 3}, {\"other\": 1}]}";
    let mut doc = load_document(text).expect("parses");
    upsert_resource(&mut doc, "x", "p").expect("has a resource list");
    let resources = doc.get("resources").and_then(|r| r.as_array()).expect("a list");
    assert_eq!(resources.len(), 4);
    assert_eq!(resources[0].get("id").and_then(|i| i.get("name")).and_then(|n| n.as_text()), Some(&"y".to_string()));
    assert_eq!(resources[1].get("id").and_then(|i| i.as_i64()), Some(3));
    assert_eq!(resources[2].integer_field("other"), Some(1));
    assert_eq!(resources[3].get("id").and_then(|i| i.get("name")).and_then(|n| n.as_text()), Some(&"x".to_string()));
}

#[test]
fn upsert_needs_a_resource_list() {
    let mut doc = load_document("{\"Folders\": []}").expect("parses");
    assert!(matches!(upsert_resource(&mut doc, "a", "p"), Err(DocumentError::MissingResources)));
    let mut doc = load_document("{\"resources\": 1}").expect("parses");
    assert!(matches!(upsert_resource(&mut doc, "a", "p"), Err(DocumentError::MissingResources)));
}
