use gmhelper::bbox::BBox;
use gmhelper::import::SpriteOverrides;
use gmhelper::json::Json;
use gmhelper::sprite_model::{sprite_descriptor_path, GMSpriteModel, ResourceReference};

fn model(bbox: Option<BBox>) -> GMSpriteModel {
    GMSpriteModel::new(
        "sHero",
        16,
        12,
        &vec!["f0".to_string(), "f1".to_string(), "f2".to_string()],
        "layer",
        ResourceReference::new("Enemies", "folders/Sprites/Enemies.yy"),
        bbox,
    )
}

#[test]
fn descriptor_lies_in_the_directory_of_its_sprite() {
    assert_eq!(sprite_descriptor_path("sHero"), "sprites/sHero/sHero.yy");
}

#[test]
fn new_model_has_the_engine_defaults() {
    let m = model(None);
    assert_eq!(m.gmsprite, "");
    assert_eq!((m.name_field.as_str(), m.name.as_str()), ("sHero", "sHero"));
    assert_eq!((m.collision_kind, m.collision_tolerance, m.sprite_type), (1, 0, 0));
    assert!(!m.dynamic_texture_page && !m.edge_filtering && !m.for_3d);
    assert!(!m.h_tile && !m.v_tile && !m.pre_multiply_alpha);
    assert_eq!((m.grid_x, m.grid_y), (0, 0));
    assert_eq!((m.width, m.height), (16, 12));
    assert!(m.nine_slice.is_none() && m.swatch_colours.is_none());
    assert_eq!((m.resource_type.as_str(), m.resource_version.as_str()), ("GMSprite", "2.0"));
    assert_eq!(m.texture_group_id.name, "Default");
    assert_eq!(m.texture_group_id.path, "texturegroups/Default");
    assert_eq!((m.parent.name.as_str(), m.parent.path.as_str()), ("Enemies", "folders/Sprites/Enemies.yy"));
}

#[test]
fn new_model_lists_frames_layer_and_timeline() {
    let m = model(None);
    let names: Vec<&str> = m.frames.iter().map(|f| f.name.as_str()).collect();
    assert_eq!(names, vec!["f0", "f1", "f2"]);
    assert_eq!(m.frames[0].resource_type, "GMSpriteFrame");
    assert_eq!(m.frames[2].name_field, "f2");
    assert_eq!(m.layers.len(), 1);
    let layer = &m.layers[0];
    assert_eq!((layer.name.as_str(), layer.display_name.as_str()), ("layer", "default"));
    assert_eq!((layer.opacity, layer.blend_mode, layer.visible, layer.is_locked), (100, 0, true, false));
    let s = &m.sequence;
    assert_eq!((s.gmsequence.as_str(), s.name.as_str()), ("v1", "sHero"));
    assert_eq!((s.length, s.playback, s.playback_speed, s.time_units, s.volume), (3, 1, 30, 1, 1));
    assert_eq!((s.seq_width, s.seq_height), (16, 12));
    assert_eq!((s.backdrop_width, s.backdrop_height), (1366, 768));
    assert_eq!(s.event_to_function, Json::Object(Vec::new()));
    assert!(s.events.keyframes.is_empty() && s.moments.keyframes.is_empty());
    assert_eq!(s.events.resource_type, "KeyframeStore<MessageEventKeyframe>");
    assert_eq!(s.moments.resource_type, "KeyframeStore<MomentsEventKeyframe>");
    let track = &s.tracks[0];
    assert_eq!((track.name.as_str(), track.interpolation, track.inherits_track_colour), ("frames", 1, true));
    assert_eq!(track.keyframes.resource_type, "KeyframeStore<SpriteFrameKeyframe>");
    for (i, keyframe) in track.keyframes.keyframes.iter().enumerate() {
        assert_eq!((keyframe.key, keyframe.length), (i, 1));
        assert_eq!(keyframe.id, format!("f{}", i));
        assert_eq!(keyframe.channels.channel_0.id.name, format!("f{}", i));
        assert_eq!(keyframe.channels.channel_0.id.path, "sprites/sHero/sHero.yy");
        assert_eq!(keyframe.channels.channel_0.resource_type, "SpriteFrameKeyframe");
        assert_eq!(keyframe.resource_type, "Keyframe<SpriteFrameKeyframe>");
        assert!(!keyframe.disabled && !keyframe.is_creation_key && !keyframe.stretch);
    }
}

#[test]
fn new_model_takes_the_given_bbox_or_the_whole_frame() {
    let m = model(Some(BBox { left: 3, top: 4, right: 9, bottom: 10 }));
    assert_eq!((m.bbox_left, m.bbox_top, m.bbox_right, m.bbox_bottom), (3, 4, 9, 10));
    assert_eq!((m.bbox_mode, m.origin, m.sequence.xorigin, m.sequence.yorigin), (0, 0, 0, 0));
    let m = model(None);
    assert_eq!((m.bbox_left, m.bbox_top, m.bbox_right, m.bbox_bottom), (0, 0, 15, 11));
}

#[test]
fn overrides_replace_bbox_and_origin_only() {
    let mut m = model(None);
    m.apply_overrides(SpriteOverrides {
        bbox_mode: 2,
        bbox_bottom: 8,
        bbox_left: 1,
        bbox_right: 7,
        bbox_top: 2,
        origin: 9,
        xorigin: 5,
        yorigin: 6,
    });
    assert_eq!((m.bbox_left, m.bbox_top, m.bbox_right, m.bbox_bottom), (1, 2, 7, 8));
    assert_eq!((m.bbox_mode, m.origin, m.sequence.xorigin, m.sequence.yorigin), (2, 9, 5, 6));
    assert_eq!((m.width, m.height, m.frames.len(), m.sequence.length), (16, 12, 3, 3));
    assert_eq!(m.name, "sHero");
}
