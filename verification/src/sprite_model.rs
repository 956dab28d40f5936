//! The descriptor of a sprite resource and the records it is made of.
//! Measures that the project files write as decimal fractions are held here
//! as whole numbers; the engine constants that are true fractions are added
//! where a descriptor is written.

use vstd::prelude::*;
use crate::bbox::BBox;
use crate::json::{lemma_object_view, member_views, Json, JsonView};
use crate::project::string_views;

verus! {

/// A reference to another resource of the project: its name and the path of
/// its descriptor.
#[derive(Debug, Clone)]
pub struct ResourceReference {
    pub name: String,
    pub path: String,
}

/// One frame of a sprite, known by its identifier.
#[derive(Debug, Clone)]
pub struct GMSpriteFrame {
    pub gmsprite_frame: String,
    pub name_field: String,
    pub name: String,
    pub resource_type: String,
    pub resource_version: String,
}

/// The image layer that all frames of a sprite share. `opacity` is in percent.
#[derive(Debug, Clone)]
pub struct GMImageLayer {
    pub gmimage_layer: String,
    pub name_field: String,
    pub blend_mode: i32,
    pub display_name: String,
    pub is_locked: bool,
    pub name: String,
    pub opacity: u32,
    pub resource_type: String,
    pub resource_version: String,
    pub visible: bool,
}

/// What a keyframe shows: the frame it refers to.
#[derive(Debug, Clone)]
pub struct SpriteFrameKeyframeChannel {
    pub sprite_frame_keyframe: String,
    pub id: ResourceReference,
    pub resource_type: String,
    pub resource_version: String,
}

/// The channels of a keyframe; a sprite uses channel 0 only.
#[derive(Debug, Clone)]
pub struct KeyframeChannels {
    pub channel_0: SpriteFrameKeyframeChannel,
}

/// One step of a sprite's timeline: at time `key`, for `length` units, show
/// the frame of channel 0.
#[derive(Debug, Clone)]
pub struct SpriteFrameKeyframe {
    pub keyframe_sprite_frame_keyframe: String,
    pub channels: KeyframeChannels,
    pub disabled: bool,
    pub id: String,
    pub is_creation_key: bool,
    pub key: usize,
    pub length: usize,
    pub resource_type: String,
    pub resource_version: String,
    pub stretch: bool,
}

/// The keyframes of the frames track.
#[derive(Debug, Clone)]
pub struct SpriteFrameKeyframeStore {
    pub keyframe_store: String,
    pub keyframes: Vec<SpriteFrameKeyframe>,
    pub resource_type: String,
    pub resource_version: String,
}

/// The message events of a sequence; a sprite has none.
#[derive(Debug)]
pub struct MessageEventKeyframeStore {
    pub keyframe_store: String,
    pub keyframes: Vec<Json>,
    pub resource_type: String,
    pub resource_version: String,
}

/// The moment events of a sequence; a sprite has none.
#[derive(Debug)]
pub struct MomentsEventKeyframeStore {
    pub keyframe_store: String,
    pub keyframes: Vec<Json>,
    pub resource_type: String,
    pub resource_version: String,
}

/// The one track of a sprite's sequence: its frames in order.
#[derive(Debug)]
pub struct GMSpriteFramesTrack {
    pub gmsprite_frames_track: String,
    pub builtin_name: i32,
    pub events: Vec<Json>,
    pub inherits_track_colour: bool,
    pub interpolation: i32,
    pub is_creation_track: bool,
    pub keyframes: SpriteFrameKeyframeStore,
    pub modifiers: Vec<Json>,
    pub name: String,
    pub resource_type: String,
    pub resource_version: String,
    pub sprite_id: Option<Json>,
    pub track_colour: i32,
    pub tracks: Vec<Json>,
    pub traits: i32,
}

/// The timeline of a sprite. `length` counts frames; `playback_speed` is in
/// frames per second; `seq_width` and `seq_height` are in pixels.
#[derive(Debug)]
pub struct GMSequence {
    pub gmsequence: String,
    pub name_field: String,
    pub auto_record: bool,
    pub backdrop_height: i32,
    pub backdrop_image_path: String,
    pub backdrop_width: i32,
    pub backdrop_x_offset: i32,
    pub backdrop_y_offset: i32,
    pub events: MessageEventKeyframeStore,
    pub event_stub_script: Option<Json>,
    pub event_to_function: Json,
    pub length: usize,
    pub lock_origin: bool,
    pub moments: MomentsEventKeyframeStore,
    pub name: String,
    pub playback: i32,
    pub playback_speed: u32,
    pub playback_speed_type: i32,
    pub resource_type: String,
    pub resource_version: String,
    pub seq_height: i32,
    pub seq_width: i32,
    pub show_backdrop: bool,
    pub show_backdrop_image: bool,
    pub time_units: i32,
    pub tracks: Vec<GMSpriteFramesTrack>,
    pub visible_range: Option<Json>,
    pub volume: u32,
    pub xorigin: i32,
    pub yorigin: i32,
}

/// The descriptor of a sprite resource.
#[derive(Debug)]
pub struct GMSpriteModel {
    pub gmsprite: String,
    pub name_field: String,
    pub bbox_mode: i32,
    pub bbox_bottom: i32,
    pub bbox_left: i32,
    pub bbox_right: i32,
    pub bbox_top: i32,
    pub collision_kind: i32,
    pub collision_tolerance: i32,
    pub dynamic_texture_page: bool,
    pub edge_filtering: bool,
    pub for_3d: bool,
    pub frames: Vec<GMSpriteFrame>,
    pub grid_x: i32,
    pub grid_y: i32,
    pub height: i32,
    pub h_tile: bool,
    pub layers: Vec<GMImageLayer>,
    pub name: String,
    pub nine_slice: Option<Json>,
    pub origin: i32,
    pub parent: ResourceReference,
    pub pre_multiply_alpha: bool,
    pub resource_type: String,
    pub resource_version: String,
    pub sequence: GMSequence,
    pub swatch_colours: Option<Json>,
    pub texture_group_id: ResourceReference,
    pub sprite_type: i32,
    pub v_tile: bool,
    pub width: i32,
}

/// Where the descriptor of the sprite `name` lies inside its project.
pub open spec fn descriptor_path(name: Seq<char>) -> Seq<char> {
    "sprites/"@ + name + "/"@ + name + ".yy"@
}

/// Where the descriptor of the sprite `name` lies inside its project.
pub fn sprite_descriptor_path(name: &str) -> (p: String)
    ensures
        p@ == descriptor_path(name@),
{
    let mut p = "sprites/".to_owned();
    p.append(name);
    p.append("/");
    p.append(name);
    p.append(".yy");
    p
}

impl ResourceReference {
    /// The reference names `name` at `path`.
    pub open spec fn is(&self, name: Seq<char>, path: Seq<char>) -> bool {
        self.name@ == name && self.path@ == path
    }

    /// A reference to the resource `name` at `path`.
    pub fn new(name: &str, path: &str) -> (r: Self)
        ensures
            r.is(name@, path@),
    {
        ResourceReference { name: name.to_owned(), path: path.to_owned() }
    }
}

impl GMSpriteFrame {
    /// The frame record of the frame `guid`.
    pub open spec fn is_for(&self, guid: Seq<char>) -> bool {
        &&& self.gmsprite_frame@ == Seq::<char>::empty()
        &&& self.name_field@ == guid
        &&& self.name@ == guid
        &&& self.resource_type@ == "GMSpriteFrame"@
        &&& self.resource_version@ == "2.0"@
    }

    /// The frame record of the frame `guid`.
    pub fn new(guid: &str) -> (f: Self)
        ensures
            f.is_for(guid@),
    {
        GMSpriteFrame {
            gmsprite_frame: String::new(),
            name_field: guid.to_owned(),
            name: guid.to_owned(),
            resource_type: "GMSpriteFrame".to_owned(),
            resource_version: "2.0".to_owned(),
        }
    }
}

impl GMImageLayer {
    /// The default, fully opaque and visible layer `guid`.
    pub open spec fn is_for(&self, guid: Seq<char>) -> bool {
        &&& self.gmimage_layer@ == Seq::<char>::empty()
        &&& self.name_field@ == guid
        &&& self.blend_mode == 0
        &&& self.display_name@ == "default"@
        &&& !self.is_locked
        &&& self.name@ == guid
        &&& self.opacity == 100
        &&& self.resource_type@ == "GMImageLayer"@
        &&& self.resource_version@ == "2.0"@
        &&& self.visible
    }

    /// The default, fully opaque and visible layer `guid`.
    pub fn new(guid: &str) -> (l: Self)
        ensures
            l.is_for(guid@),
    {
        GMImageLayer {
            gmimage_layer: String::new(),
            name_field: guid.to_owned(),
            blend_mode: 0,
            display_name: "default".to_owned(),
            is_locked: false,
            name: guid.to_owned(),
            opacity: 100,
            resource_type: "GMImageLayer".to_owned(),
            resource_version: "2.0".to_owned(),
            visible: true,
        }
    }
}

impl SpriteFrameKeyframe {
    /// The keyframe that shows frame `guid` of sprite `sprite` for one unit
    /// of time from time `index` on.
    pub open spec fn is_for(&self, sprite: Seq<char>, guid: Seq<char>, index: int) -> bool {
        &&& self.keyframe_sprite_frame_keyframe@ == Seq::<char>::empty()
        &&& self.channels.channel_0.sprite_frame_keyframe@ == Seq::<char>::empty()
        &&& self.channels.channel_0.id.is(guid, descriptor_path(sprite))
        &&& self.channels.channel_0.resource_type@ == "SpriteFrameKeyframe"@
        &&& self.channels.channel_0.resource_version@ == "2.0"@
        &&& !self.disabled
        &&& self.id@ == guid
        &&& !self.is_creation_key
        &&& self.key == index
        &&& self.length == 1
        &&& self.resource_type@ == "Keyframe<SpriteFrameKeyframe>"@
        &&& self.resource_version@ == "2.0"@
        &&& !self.stretch
    }

    /// The keyframe that shows frame `guid` of sprite `sprite` for one unit
    /// of time from time `index` on.
    pub fn new(sprite: &str, guid: &str, index: usize) -> (k: Self)
        ensures
            k.is_for(sprite@, guid@, index as int),
    {
        let path = sprite_descriptor_path(sprite);
        SpriteFrameKeyframe {
            keyframe_sprite_frame_keyframe: String::new(),
            channels: KeyframeChannels {
                channel_0: SpriteFrameKeyframeChannel {
                    sprite_frame_keyframe: String::new(),
                    id: ResourceReference::new(guid, path.as_str()),
                    resource_type: "SpriteFrameKeyframe".to_owned(),
                    resource_version: "2.0".to_owned(),
                },
            },
            disabled: false,
            id: guid.to_owned(),
            is_creation_key: false,
            key: index,
            length: 1,
            resource_type: "Keyframe<SpriteFrameKeyframe>".to_owned(),
            resource_version: "2.0".to_owned(),
            stretch: false,
        }
    }
}

impl GMSpriteFramesTrack {
    /// The frames track of sprite `sprite`: one keyframe per frame, the
    /// `i`-th at time `i`, and nothing else.
    pub open spec fn is_for(&self, sprite: Seq<char>, guids: Seq<Seq<char>>) -> bool {
        &&& self.gmsprite_frames_track@ == Seq::<char>::empty()
        &&& self.builtin_name == 0
        &&& self.events@.len() == 0
        &&& self.inherits_track_colour
        &&& self.interpolation == 1
        &&& !self.is_creation_track
        &&& self.keyframes.keyframe_store@ == Seq::<char>::empty()
        &&& self.keyframes.keyframes@.len() == guids.len()
        &&& forall|i: int|
            0 <= i < guids.len() ==> (#[trigger] self.keyframes.keyframes@[i]).is_for(
                sprite,
                guids[i],
                i,
            )
        &&& self.keyframes.resource_type@ == "KeyframeStore<SpriteFrameKeyframe>"@
        &&& self.keyframes.resource_version@ == "2.0"@
        &&& self.modifiers@.len() == 0
        &&& self.name@ == "frames"@
        &&& self.resource_type@ == "GMSpriteFramesTrack"@
        &&& self.resource_version@ == "2.0"@
        &&& self.sprite_id is None
        &&& self.track_colour == 0
        &&& self.tracks@.len() == 0
        &&& self.traits == 0
    }

    /// The frames track of sprite `sprite` over the frames `guids`.
    pub fn new(sprite: &str, guids: &Vec<String>) -> (t: Self)
        ensures
            t.is_for(sprite@, string_views(guids@)),
    {
        let mut keyframes: Vec<SpriteFrameKeyframe> = Vec::new();
        let mut i: usize = 0;
        while i < guids.len()
            invariant
                i <= guids.len(),
                keyframes@.len() == i,
                forall|j: int|
                    0 <= j < i ==> (#[trigger] keyframes@[j]).is_for(
                        sprite@,
                        string_views(guids@)[j],
                        j,
                    ),
            decreases guids.len() - i,
        {
            let keyframe = SpriteFrameKeyframe::new(sprite, guids[i].as_str(), i);
            keyframes.push(keyframe);
            i += 1;
        }
        GMSpriteFramesTrack {
            gmsprite_frames_track: String::new(),
            builtin_name: 0,
            events: Vec::new(),
            inherits_track_colour: true,
            interpolation: 1,
            is_creation_track: false,
            keyframes: SpriteFrameKeyframeStore {
                keyframe_store: String::new(),
                keyframes,
                resource_type: "KeyframeStore<SpriteFrameKeyframe>".to_owned(),
                resource_version: "2.0".to_owned(),
            },
            modifiers: Vec::new(),
            name: "frames".to_owned(),
            resource_type: "GMSpriteFramesTrack".to_owned(),
            resource_version: "2.0".to_owned(),
            sprite_id: None,
            track_colour: 0,
            tracks: Vec::new(),
            traits: 0,
        }
    }
}

impl GMSequence {
    /// The timeline of sprite `sprite`: as long as it has frames, sized as
    /// its frames are, with the origin at the top left corner and the one
    /// track that shows the frames in order.
    pub open spec fn is_for(
        &self,
        sprite: Seq<char>,
        width: i32,
        height: i32,
        guids: Seq<Seq<char>>,
    ) -> bool {
        &&& self.gmsequence@ == "v1"@
        &&& self.name_field@ == sprite
        &&& self.auto_record
        &&& self.backdrop_height == 768
        &&& self.backdrop_image_path@ == Seq::<char>::empty()
        &&& self.backdrop_width == 1366
        &&& self.backdrop_x_offset == 0
        &&& self.backdrop_y_offset == 0
        &&& self.events.keyframe_store@ == Seq::<char>::empty()
        &&& self.events.keyframes@.len() == 0
        &&& self.events.resource_type@ == "KeyframeStore<MessageEventKeyframe>"@
        &&& self.events.resource_version@ == "2.0"@
        &&& self.event_stub_script is None
        &&& self.event_to_function@ == JsonView::Object(Seq::empty())
        &&& self.length == guids.len()
        &&& !self.lock_origin
        &&& self.moments.keyframe_store@ == Seq::<char>::empty()
        &&& self.moments.keyframes@.len() == 0
        &&& self.moments.resource_type@ == "KeyframeStore<MomentsEventKeyframe>"@
        &&& self.moments.resource_version@ == "2.0"@
        &&& self.name@ == sprite
        &&& self.playback == 1
        &&& self.playback_speed == 30
        &&& self.playback_speed_type == 0
        &&& self.resource_type@ == "GMSequence"@
        &&& self.resource_version@ == "2.0"@
        &&& self.seq_height == height
        &&& self.seq_width == width
        &&& self.show_backdrop
        &&& !self.show_backdrop_image
        &&& self.time_units == 1
        &&& self.tracks@.len() == 1
        &&& self.tracks@[0].is_for(sprite, guids)
        &&& self.visible_range is None
        &&& self.volume == 1
    }

    /// The timeline of sprite `sprite` over the frames `guids`, with the
    /// origin at the top left corner.
    pub fn new(sprite: &str, width: i32, height: i32, guids: &Vec<String>) -> (s: Self)
        ensures
            s.is_for(sprite@, width, height, string_views(guids@)),
            s.xorigin == 0,
            s.yorigin == 0,
    {
        let mut tracks: Vec<GMSpriteFramesTrack> = Vec::new();
        tracks.push(GMSpriteFramesTrack::new(sprite, guids));
        let members: Vec<(String, Json)> = Vec::new();
        proof {
            lemma_object_view(members);
            assert(member_views(members@) =~= Seq::empty());
        }
        GMSequence {
            gmsequence: "v1".to_owned(),
            name_field: sprite.to_owned(),
            auto_record: true,
            backdrop_height: 768,
            backdrop_image_path: String::new(),
            backdrop_width: 1366,
            backdrop_x_offset: 0,
            backdrop_y_offset: 0,
            events: MessageEventKeyframeStore {
                keyframe_store: String::new(),
                keyframes: Vec::new(),
                resource_type: "KeyframeStore<MessageEventKeyframe>".to_owned(),
                resource_version: "2.0".to_owned(),
            },
            event_stub_script: None,
            event_to_function: Json::Object(members),
            length: guids.len(),
            lock_origin: false,
            moments: MomentsEventKeyframeStore {
                keyframe_store: String::new(),
                keyframes: Vec::new(),
                resource_type: "KeyframeStore<MomentsEventKeyframe>".to_owned(),
                resource_version: "2.0".to_owned(),
            },
            name: sprite.to_owned(),
            playback: 1,
            playback_speed: 30,
            playback_speed_type: 0,
            resource_type: "GMSequence".to_owned(),
            resource_version: "2.0".to_owned(),
            seq_height: height,
            seq_width: width,
            show_backdrop: true,
            show_backdrop_image: false,
            time_units: 1,
            tracks,
            visible_range: None,
            volume: 1,
            xorigin: 0,
            yorigin: 0,
        }
    }
}

impl GMSpriteModel {
    /// Everything in the descriptor that neither a bounding box nor an
    /// origin decides: the identity of the sprite, its frames, its layer, its
    /// timeline, its folder, and the engine's defaults.
    pub open spec fn describes(
        &self,
        sprite: Seq<char>,
        width: i32,
        height: i32,
        guids: Seq<Seq<char>>,
        layer: Seq<char>,
        parent_name: Seq<char>,
        parent_path: Seq<char>,
    ) -> bool {
        &&& self.gmsprite@ == Seq::<char>::empty()
        &&& self.name_field@ == sprite
        &&& self.collision_kind == 1
        &&& self.collision_tolerance == 0
        &&& !self.dynamic_texture_page
        &&& !self.edge_filtering
        &&& !self.for_3d
        &&& self.frames@.len() == guids.len()
        &&& forall|i: int| 0 <= i < guids.len() ==> (#[trigger] self.frames@[i]).is_for(guids[i])
        &&& self.grid_x == 0
        &&& self.grid_y == 0
        &&& self.height == height
        &&& !self.h_tile
        &&& self.layers@.len() == 1
        &&& self.layers@[0].is_for(layer)
        &&& self.name@ == sprite
        &&& self.nine_slice is None
        &&& self.parent.is(parent_name, parent_path)
        &&& !self.pre_multiply_alpha
        &&& self.resource_type@ == "GMSprite"@
        &&& self.resource_version@ == "2.0"@
        &&& self.sequence.is_for(sprite, width, height, guids)
        &&& self.swatch_colours is None
        &&& self.texture_group_id.is("Default"@, "texturegroups/Default"@)
        &&& self.sprite_type == 0
        &&& !self.v_tile
        &&& self.width == width
    }

    /// The collision box is `b`, computed from the pixels, and the origin is
    /// the top left corner.
    pub open spec fn has_bbox(&self, b: BBox) -> bool {
        &&& self.bbox_mode == 0
        &&& self.bbox_left == b.left
        &&& self.bbox_top == b.top
        &&& self.bbox_right == b.right
        &&& self.bbox_bottom == b.bottom
        &&& self.origin == 0
        &&& self.sequence.xorigin == 0
        &&& self.sequence.yorigin == 0
    }

    /// A fresh descriptor for the sprite `sprite_name` with the given frames
    /// and layer, filed under `parent`. Its collision box is `bbox`, or the
    /// whole frame where there is none; its origin is the top left corner.
    pub fn new(
        sprite_name: &str,
        width: i32,
        height: i32,
        frame_guids: &Vec<String>,
        layer_guid: &str,
        parent: ResourceReference,
        bbox: Option<BBox>,
    ) -> (m: Self)
        requires
            i32::MIN < width,
            i32::MIN < height,
        ensures
            m.describes(
                sprite_name@,
                width,
                height,
                string_views(frame_guids@),
                layer_guid@,
                parent.name@,
                parent.path@,
            ),
            m.has_bbox(
                match bbox {
                    Some(b) => b,
                    None => BBox::whole(width as int, height as int),
                },
            ),
    {
        let mut frames: Vec<GMSpriteFrame> = Vec::new();
        let mut i: usize = 0;
        while i < frame_guids.len()
            invariant
                i <= frame_guids.len(),
                frames@.len() == i,
                forall|j: int|
                    0 <= j < i ==> (#[trigger] frames@[j]).is_for(string_views(frame_guids@)[j]),
            decreases frame_guids.len() - i,
        {
            frames.push(GMSpriteFrame::new(frame_guids[i].as_str()));
            i += 1;
        }
        let mut layers: Vec<GMImageLayer> = Vec::new();
        layers.push(GMImageLayer::new(layer_guid));
        let b = match bbox {
            Some(b) => b,
            None => BBox { left: 0, top: 0, right: width - 1, bottom: height - 1 },
        };
        GMSpriteModel {
            gmsprite: String::new(),
            name_field: sprite_name.to_owned(),
            bbox_mode: 0,
            bbox_bottom: b.bottom,
            bbox_left: b.left,
            bbox_right: b.right,
            bbox_top: b.top,
            collision_kind: 1,
            collision_tolerance: 0,
            dynamic_texture_page: false,
            edge_filtering: false,
            for_3d: false,
            frames,
            grid_x: 0,
            grid_y: 0,
            height,
            h_tile: false,
            layers,
            name: sprite_name.to_owned(),
            nine_slice: None,
            origin: 0,
            parent,
            pre_multiply_alpha: false,
            resource_type: "GMSprite".to_owned(),
            resource_version: "2.0".to_owned(),
            sequence: GMSequence::new(sprite_name, width, height, frame_guids),
            swatch_colours: None,
            texture_group_id: ResourceReference::new("Default", "texturegroups/Default"),
            sprite_type: 0,
            v_tile: false,
            width,
        }
    }
}

} // verus!
