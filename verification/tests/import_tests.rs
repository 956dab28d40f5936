use gmhelper::frame::Frame;
use gmhelper::import::{
    identifiers_distinct, import_sprite_to_project, overrides_from_document, plan_import,
    read_sprite_overrides, ImportError, SpriteOverrides,
};
use gmhelper::json::{load_document, DocumentError, Json};

const EMPTY_PROJECT: &str = "{\n  \"resources\": [],\n  \"Folders\": [],\n  \"name\": \"game\",\n}";

fn solid(width: u32, height: u32, rgba: (u8, u8, u8, u8)) -> Frame {
    let mut bytes = Vec::new();
    for _ in 0..width * height {
        bytes.extend_from_slice(&[rgba.0, rgba.1, rgba.2, rgba.3]);
    }
    Frame::new(width, height, bytes).expect("buffer fits the dimensions")
}

fn with_block(width: u32, height: u32, left: u32, top: u32, right: u32, bottom: u32) -> Frame {
    let mut bytes = vec![0u8; (width * height * 4) as usize];
    for y in top..=bottom {
        for x in left..=right {
            bytes[((y * width + x) * 4 + 3) as usize] = 255;
        }
    }
    Frame::new(width, height, bytes).expect("buffer fits the dimensions")
}

fn descriptor(width: i64, height: i64, bbox: (i64, i64, i64, i64)) -> String {
    format!(
        "{{\"bboxMode\": 2, \"bbox_bottom\": {}, \"bbox_left\": {}, \"bbox_right\": {}, \"bbox_top\": {}, \"height\": {}, \"origin\": 4, \"sequence\": {{\"xorigin\": 8, \"yorigin\": 9,}}, \"width\": {},}}",
        bbox.3, bbox.0, bbox.2, bbox.1, height, width
    )
}

fn guids(n: usize) -> Vec<String> {
    (0..n).map(|i| format!("frame-{}", i)).collect()
}

fn names_under(doc: &Json, list: &str, key: &str) -> Vec<String> {
    doc.get(list)
        .and_then(|l| l.as_array())
        .expect("a list")
        .iter()
        .map(|e| e.get(key).and_then(|p| p.as_text()).expect("a text").clone())
        .collect()
}

#[test]
fn overrides_are_read_when_the_dimensions_agree() {
    let ov = read_sprite_overrides(&descriptor(16, 16, (2, 2, 13, 13)), 16, 16);
    assert_eq!(
        ov,
        Some(SpriteOverrides {
            bbox_mode: 2,
            bbox_bottom: 13,
            bbox_left: 2,
            bbox_right: 13,
            bbox_top: 2,
            origin: 4,
            xorigin: 8,
            yorigin: 9,
        })
    );
}

#[test]
fn overrides_are_dropped_when_a_dimension_differs() {
    let text = descriptor(16, 16, (2, 2, 13, 13));
    assert_eq!(read_sprite_overrides(&text, 32, 32), None);
    assert_eq!(read_sprite_overrides(&text, 16, 17), None);
    assert_eq!(read_sprite_overrides(&text, 15, 16), None);
}

#[test]
fn overrides_need_every_setting_and_a_readable_text() {
    assert_eq!(read_sprite_overrides("not json", 16, 16), None);
    assert_eq!(read_sprite_overrides("{\"width\": 16, \"height\": 16}", 16, 16), None);
    let no_origin = descriptor(16, 16, (2, 2, 13, 13)).replace("\"origin\": 4,", "");
    assert_eq!(read_sprite_overrides(&no_origin, 16, 16), None);
    let text_width = descriptor(16, 16, (2, 2, 13, 13)).replace("\"width\": 16", "\"width\": \"16\"");
    assert_eq!(read_sprite_overrides(&text_width, 16, 16), None);
    let doc = load_document(&descriptor(8, 4, (0, 1, 2, 3))).expect("parses");
    assert_eq!(overrides_from_document(&doc, 8, 4).map(|o| o.bbox_right), Some(2));
    assert_eq!(overrides_from_document(&doc, 4, 8), None);
}

#[test]
fn reimport_with_the_same_dimensions_keeps_the_earlier_bbox() {
    let frames = vec![solid(16, 16, (255, 0, 0, 255))];
    let old = descriptor(16, 16, (2, 2, 13, 13));
    let plan = plan_import(
        EMPTY_PROJECT,
        Some(&old),
        "sHero",
        &frames,
        "Sprites",
        16,
        16,
        "layer".to_string(),
        guids(1),
    )
    .expect("plans");
    assert!(plan.kept_overrides);
    let s = &plan.sprite;
    assert_eq!((s.bbox_left, s.bbox_top, s.bbox_right, s.bbox_bottom), (2, 2, 13, 13));
    assert_eq!((s.bbox_mode, s.origin, s.sequence.xorigin, s.sequence.yorigin), (2, 4, 8, 9));
    assert_eq!((s.width, s.height), (16, 16));
}

#[test]
fn reimport_with_other_dimensions_computes_a_fresh_bbox() {
    let frames = vec![with_block(32, 32, 5, 6, 20, 30)];
    let old = descriptor(16, 16, (2, 2, 13, 13));
    let plan = plan_import(
        EMPTY_PROJECT,
        Some(&old),
        "sHero",
        &frames,
        "Sprites",
        32,
        32,
        "layer".to_string(),
        guids(1),
    )
    .expect("plans");
    assert!(!plan.kept_overrides);
    let s = &plan.sprite;
    assert_eq!((s.bbox_left, s.bbox_top, s.bbox_right, s.bbox_bottom), (5, 6, 20, 30));
    assert_eq!((s.bbox_mode, s.origin, s.sequence.xorigin, s.sequence.yorigin), (0, 0, 0, 0));
}

#[test]
fn import_of_transparent_frames_takes_the_whole_frame_as_bbox() {
    let frames = vec![solid(10, 6, (0, 0, 0, 0))];
    let plan = plan_import(
        EMPTY_PROJECT,
        None,
        "sGhost",
        &frames,
        "Sprites",
        10,
        6,
        "layer".to_string(),
        guids(1),
    )
    .expect("plans");
    let s = &plan.sprite;
    assert_eq!((s.bbox_left, s.bbox_top, s.bbox_right, s.bbox_bottom), (0, 0, 9, 5));
}

#[test]
fn import_of_frames_without_pixels_goes_on() {
    let frames = vec![Frame::new(0, 3, Vec::new()).expect("no pixels")];
    let plan =
        plan_import(EMPTY_PROJECT, None, "sNone", &frames, "Sprites", 0, 3, "l".to_string(), guids(1))
            .expect("plans");
    let s = &plan.sprite;
    assert_eq!((s.width, s.height), (0, 3));
    assert_eq!((s.bbox_left, s.bbox_top, s.bbox_right, s.bbox_bottom), (0, 0, -1, 2));
}

#[test]
fn import_of_two_red_frames_into_an_empty_project() {
    let frames = vec![solid(8, 8, (255, 0, 0, 255)), solid(8, 8, (255, 0, 0, 255))];
    let plan = import_sprite_to_project(EMPTY_PROJECT, None, "sFlag", &frames, "Sprites/Flags", 8, 8)
        .expect("plans");
    assert_eq!(
        names_under(&plan.project, "Folders", "folderPath"),
        vec!["folders/Sprites.yy", "folders/Sprites/Flags.yy"]
    );
    assert_eq!(names_under(&plan.project, "Folders", "name"), vec!["Sprites", "Flags"]);
    let resources = plan.project.get("resources").and_then(|r| r.as_array()).expect("a list");
    assert_eq!(resources.len(), 1);
    let id = resources[0].get("id").expect("an id");
    assert_eq!(id.get("name").and_then(|n| n.as_text()), Some(&"sFlag".to_string()));
    assert_eq!(
        id.get("path").and_then(|n| n.as_text()),
        Some(&"sprites/sFlag/sFlag.yy".to_string())
    );
    assert_eq!(plan.project.get("name").and_then(|n| n.as_text()), Some(&"game".to_string()));
    assert_eq!(plan.frame_guids.len(), 2);
    assert_eq!(plan.frame_files.len(), 2);
    for (guid, files) in plan.frame_guids.iter().zip(plan.frame_files.iter()) {
        assert_eq!(guid.len(), 36);
        assert_eq!(files.image, format!("sprites/sFlag/{}.png", guid));
        assert_eq!(
            files.layer_image,
            format!("sprites/sFlag/layers/{}/{}.png", guid, plan.layer_guid)
        );
    }
    assert_ne!(plan.frame_guids[0], plan.frame_guids[1]);
    assert_ne!(plan.frame_guids[0], plan.layer_guid);
    assert_eq!(plan.layer_guid.len(), 36);
    assert_eq!(plan.sprite_dir, "sprites/sFlag");
    assert_eq!(plan.descriptor_path, "sprites/sFlag/sFlag.yy");
    let s = &plan.sprite;
    assert_eq!((s.bbox_left, s.bbox_top, s.bbox_right, s.bbox_bottom), (0, 0, 7, 7));
    assert_eq!((s.origin, s.sequence.xorigin, s.sequence.yorigin), (0, 0, 0));
    assert_eq!(s.name, "sFlag");
    assert_eq!(s.frames.len(), 2);
    assert_eq!(s.frames[1].name, plan.frame_guids[1]);
    assert_eq!(s.layers.len(), 1);
    assert_eq!(s.layers[0].name, plan.layer_guid);
    assert_eq!(s.parent.name, "Flags");
    assert_eq!(s.parent.path, "folders/Sprites/Flags.yy");
    assert_eq!(s.sequence.length, 2);
    assert_eq!(s.sequence.tracks.len(), 1);
    let keyframes = &s.sequence.tracks[0].keyframes.keyframes;
    assert_eq!(keyframes.len(), 2);
    assert_eq!((keyframes[0].key, keyframes[0].length), (0, 1));
    assert_eq!((keyframes[1].key, keyframes[1].length), (1, 1));
    assert_eq!(keyframes[1].channels.channel_0.id.name, plan.frame_guids[1]);
    assert_eq!(keyframes[1].channels.channel_0.id.path, "sprites/sFlag/sFlag.yy");
    let reread = load_document(&plan.project_text).expect("the new text parses");
    assert_eq!(reread, plan.project);
}

#[test]
fn import_again_replaces_the_entry_and_repeats_no_folder() {
    let frames = vec![solid(8, 8, (255, 0, 0, 255))];
    let first = import_sprite_to_project(EMPTY_PROJECT, None, "sFlag", &frames, "Sprites/Flags", 8, 8)
        .expect("plans");
    let second =
        import_sprite_to_project(&first.project_text, None, "sFlag", &frames, "Sprites/Flags", 8, 8)
            .expect("plans again");
    assert_eq!(second.project, first.project);
    assert_eq!(second.project_text, first.project_text);
    assert_ne!(second.frame_guids[0], first.frame_guids[0]);
}

#[test]
fn import_reports_the_first_fault() {
    let frames = vec![solid(4, 4, (1, 1, 1, 255))];
    let none: Vec<Frame> = Vec::new();
    let run = |text: &str, frames: &Vec<Frame>, w: u32, h: u32, ids: usize| {
        plan_import(text, None, "s", frames, "A", w, h, "l".to_string(), guids(ids))
    };
    assert!(matches!(
        run("{", &none, 0, 0, 0),
        Err(ImportError::Document(DocumentError::Malformed(_)))
    ));
    assert!(matches!(run(EMPTY_PROJECT, &none, 0, 0, 3), Err(ImportError::NoFrames)));
    assert!(matches!(run(EMPTY_PROJECT, &frames, 0, 4, 1), Err(ImportError::FrameMismatch(0))));
    assert!(matches!(
        run(EMPTY_PROJECT, &frames, 0x8000_0000, 4, 1),
        Err(ImportError::DimensionsTooLarge)
    ));
    assert!(matches!(
        run(EMPTY_PROJECT, &frames, 4, 0x8000_0000, 1),
        Err(ImportError::DimensionsTooLarge)
    ));
    assert!(matches!(run(EMPTY_PROJECT, &frames, 4, 5, 1), Err(ImportError::FrameMismatch(0))));
    assert!(matches!(run(EMPTY_PROJECT, &frames, 4, 4, 2), Err(ImportError::IdentifierCount)));
    assert!(matches!(
        run("{\"resources\": []}", &frames, 4, 4, 1),
        Err(ImportError::Document(DocumentError::MissingFolders))
    ));
    assert!(matches!(
        run("{\"Folders\": []}", &frames, 4, 4, 1),
        Err(ImportError::Document(DocumentError::MissingResources))
    ));
    assert!(matches!(
        run("{\"resources\": []}", &frames, 4, 4, 2),
        Err(ImportError::Document(DocumentError::MissingFolders))
    ));
    assert!(run(EMPTY_PROJECT, &frames, 4, 4, 1).is_ok());
}

#[test]
fn import_needs_identifiers_that_all_differ() {
    let frames = vec![solid(2, 2, (1, 1, 1, 255)), solid(2, 2, (2, 2, 2, 255))];
    let run = |layer: &str, ids: [&str; 2]| {
        let ids = ids.iter().map(|s| s.to_string()).collect();
        plan_import(EMPTY_PROJECT, None, "s", &frames, "A", 2, 2, layer.to_string(), ids)
    };
    assert!(matches!(run("l", ["a", "a"]), Err(ImportError::DuplicateIdentifier)));
    assert!(matches!(run("a", ["a", "b"]), Err(ImportError::DuplicateIdentifier)));
    assert!(matches!(run("b", ["a", "b"]), Err(ImportError::DuplicateIdentifier)));
    assert!(run("l", ["a", "b"]).is_ok());
    let ids = |v: &[&str]| v.iter().map(|s| s.to_string()).collect::<Vec<String>>();
    assert!(identifiers_distinct(&"l".to_string(), &ids(&[])));
    assert!(identifiers_distinct(&"l".to_string(), &ids(&["a", "b", "c"])));
    assert!(!identifiers_distinct(&"l".to_string(), &ids(&["a", "b", "a"])));
    assert!(!identifiers_distinct(&"c".to_string(), &ids(&["a", "b", "c"])));
}

#[test]
fn errors_say_what_went_wrong() {
    assert_eq!(ImportError::NoFrames.message(), "No frames to import");
    assert_eq!(
        ImportError::Document(DocumentError::MissingFolders).message(),
        "Missing 'Folders' array in .yyp"
    );
    assert_eq!(DocumentError::MissingResources.message(), "Missing 'resources' array in .yyp");
    assert_eq!(
        DocumentError::Malformed("EOF at line 1".to_string()).message(),
        "Failed to parse .yyp JSON: EOF at line 1"
    );
    assert_eq!(
        DocumentError::Unprintable("why".to_string()).message(),
        "Failed to serialize .yyp: why"
    );
    assert_eq!(
        ImportError::FrameMismatch(3).message(),
        "A frame does not have the given width and height"
    );
    assert_eq!(
        ImportError::DimensionsTooLarge.message(),
        "Frame width and height must not exceed 2147483647"
    );
    assert_eq!(
        ImportError::IdentifierCount.message(),
        "There must be one identifier for each frame"
    );
    assert_eq!(ImportError::DuplicateIdentifier.message(), "No two identifiers may be the same");
}

#[test]
fn import_refuses_a_frame_whose_buffer_does_not_fit() {
    let broken = Frame { width: 4, height: 4, pixels: vec![0u8; 10] };
    let result =
        import_sprite_to_project(EMPTY_PROJECT, None, "s", &vec![broken], "Sprites", 4, 4);
    assert!(matches!(result, Err(ImportError::FrameMismatch(0))));
}
