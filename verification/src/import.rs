//! Importing a stack of frames into a project as a sprite resource: what
//! to carry over from an earlier version, and the plan of what to write.

use vstd::prelude::*;
use crate::bbox::{
    all_transparent, calculate_tight_bbox, first_missized, frames_sized, is_first_missized,
    is_tight_bbox, BBox,
};
use crate::frame::Frame;
use crate::json::{
    document_of, document_text, load_document, pretty_text, save_document, DocumentError, Json,
    JsonView,
};
use crate::project::{
    ensure_folder_chain, folder_file, resource_record, split, split_on, string_views,
    upsert_resource, upserted, with_folder_chain,
};
use crate::sprite_model::{
    descriptor_path, sprite_descriptor_path, GMSpriteModel, ResourceReference,
};

verus! {

/// The settings of a sprite that an operator may have changed by hand: how
/// its collision box is found, the box itself, and the origin.
#[derive(Debug, Clone, Copy, PartialEq, Eq, Structural)]
pub struct SpriteOverrides {
    pub bbox_mode: i32,
    pub bbox_bottom: i32,
    pub bbox_left: i32,
    pub bbox_right: i32,
    pub bbox_top: i32,
    pub origin: i32,
    pub xorigin: i32,
    pub yorigin: i32,
}

/// The settings that a descriptor holds now.
pub open spec fn sprite_settings(m: GMSpriteModel) -> SpriteOverrides {
    SpriteOverrides {
        bbox_mode: m.bbox_mode,
        bbox_bottom: m.bbox_bottom,
        bbox_left: m.bbox_left,
        bbox_right: m.bbox_right,
        bbox_top: m.bbox_top,
        origin: m.origin,
        xorigin: m.sequence.xorigin,
        yorigin: m.sequence.yorigin,
    }
}

/// The settings of a fresh sprite whose collision box is `b`.
pub open spec fn settings_for(b: BBox) -> SpriteOverrides {
    SpriteOverrides {
        bbox_mode: 0,
        bbox_bottom: b.bottom,
        bbox_left: b.left,
        bbox_right: b.right,
        bbox_top: b.top,
        origin: 0,
        xorigin: 0,
        yorigin: 0,
    }
}

/// The descriptor records all eight settings as integers.
pub open spec fn has_settings(doc: JsonView) -> bool {
    &&& doc.integer_field("bboxMode"@) is Some
    &&& doc.integer_field("bbox_bottom"@) is Some
    &&& doc.integer_field("bbox_left"@) is Some
    &&& doc.integer_field("bbox_right"@) is Some
    &&& doc.integer_field("bbox_top"@) is Some
    &&& doc.integer_field("origin"@) is Some
    &&& doc.get("sequence"@) is Some
    &&& doc.get("sequence"@)->0.integer_field("xorigin"@) is Some
    &&& doc.get("sequence"@)->0.integer_field("yorigin"@) is Some
}

/// The settings that a descriptor records.
pub open spec fn recorded_settings(doc: JsonView) -> SpriteOverrides {
    SpriteOverrides {
        bbox_mode: doc.integer_field("bboxMode"@)->0 as i32,
        bbox_bottom: doc.integer_field("bbox_bottom"@)->0 as i32,
        bbox_left: doc.integer_field("bbox_left"@)->0 as i32,
        bbox_right: doc.integer_field("bbox_right"@)->0 as i32,
        bbox_top: doc.integer_field("bbox_top"@)->0 as i32,
        origin: doc.integer_field("origin"@)->0 as i32,
        xorigin: doc.get("sequence"@)->0.integer_field("xorigin"@)->0 as i32,
        yorigin: doc.get("sequence"@)->0.integer_field("yorigin"@)->0 as i32,
    }
}

/// The descriptor is of a sprite that is `width` by `height` pixels.
pub open spec fn same_dimensions(doc: JsonView, width: u32, height: u32) -> bool {
    doc.integer_field("width"@) == Some(width as i64) && doc.integer_field("height"@) == Some(
        height as i64,
    )
}

/// The settings to carry over from the descriptor of an earlier version of a
/// sprite that is now `width` by `height` pixels: those it records, if its
/// dimensions are the same; none otherwise, for they are in pixels.
pub open spec fn overrides_of(doc: JsonView, width: u32, height: u32) -> Option<SpriteOverrides> {
    if same_dimensions(doc, width, height) && has_settings(doc) {
        Some(recorded_settings(doc))
    } else {
        None
    }
}

/// The settings to carry over from the text of an earlier descriptor, if
/// there is one and it can be read.
pub open spec fn carried_overrides(existing: Option<Seq<char>>, width: u32, height: u32) -> Option<
    SpriteOverrides,
> {
    match existing {
        Some(text) => match document_of(text) {
            Some(doc) => overrides_of(doc, width, height),
            None => None,
        },
        None => None,
    }
}

/// Settings are carried over exactly when the old and the new dimensions
/// agree, for a descriptor that records all of them.
pub proof fn lemma_overrides_iff_same_dimensions(doc: JsonView, width: u32, height: u32)
    requires
        has_settings(doc),
    ensures
        overrides_of(doc, width, height) is Some <==> same_dimensions(doc, width, height),
        same_dimensions(doc, width, height) ==> overrides_of(doc, width, height) == Some(
            recorded_settings(doc),
        ),
{
}

/// Reads the settings to carry over from an earlier descriptor.
pub fn overrides_from_document(doc: &Json, new_width: u32, new_height: u32) -> (r: Option<
    SpriteOverrides,
>)
    ensures
        r == overrides_of(doc@, new_width, new_height),
{
    let old_width = doc.integer_field("width");
    let old_height = doc.integer_field("height");
    match (old_width, old_height) {
        (Some(w), Some(h)) => {
            if w != new_width as i64 || h != new_height as i64 {
                return None;
            }
        },
        _ => {
            return None;
        },
    }
    let seq = match doc.get("sequence") {
        Some(seq) => seq,
        None => {
            return None;
        },
    };
    let bbox_mode = doc.integer_field("bboxMode");
    let bbox_bottom = doc.integer_field("bbox_bottom");
    let bbox_left = doc.integer_field("bbox_left");
    let bbox_right = doc.integer_field("bbox_right");
    let bbox_top = doc.integer_field("bbox_top");
    let origin = doc.integer_field("origin");
    let xorigin = seq.integer_field("xorigin");
    let yorigin = seq.integer_field("yorigin");
    match (bbox_mode, bbox_bottom, bbox_left, bbox_right, bbox_top, origin, xorigin, yorigin) {
        (Some(m), Some(b), Some(l), Some(r), Some(t), Some(o), Some(x), Some(y)) => Some(
            SpriteOverrides {
                bbox_mode: m as i32,
                bbox_bottom: b as i32,
                bbox_left: l as i32,
                bbox_right: r as i32,
                bbox_top: t as i32,
                origin: o as i32,
                xorigin: x as i32,
                yorigin: y as i32,
            },
        ),
        _ => None,
    }
}

/// Reads the settings to carry over from the text of an earlier descriptor.
/// A text that cannot be read carries nothing over.
pub fn read_sprite_overrides(existing: &str, new_width: u32, new_height: u32) -> (r: Option<
    SpriteOverrides,
>)
    ensures
        r == carried_overrides(Some(existing@), new_width, new_height),
{
    match load_document(existing) {
        Ok(doc) => overrides_from_document(&doc, new_width, new_height),
        Err(_) => None,
    }
}

impl GMSpriteModel {
    /// Puts carried-over settings in place of the computed ones; nothing
    /// else changes.
    pub fn apply_overrides(&mut self, ov: SpriteOverrides)
        ensures
            *final(self) == (GMSpriteModel {
                bbox_mode: ov.bbox_mode,
                bbox_bottom: ov.bbox_bottom,
                bbox_left: ov.bbox_left,
                bbox_right: ov.bbox_right,
                bbox_top: ov.bbox_top,
                origin: ov.origin,
                sequence: crate::sprite_model::GMSequence {
                    xorigin: ov.xorigin,
                    yorigin: ov.yorigin,
                    ..old(self).sequence
                },
                ..*old(self)
            }),
            sprite_settings(*final(self)) == ov,
    {
        self.bbox_mode = ov.bbox_mode;
        self.bbox_bottom = ov.bbox_bottom;
        self.bbox_left = ov.bbox_left;
        self.bbox_right = ov.bbox_right;
        self.bbox_top = ov.bbox_top;
        self.origin = ov.origin;
        self.sequence.xorigin = ov.xorigin;
        self.sequence.yorigin = ov.yorigin;
    }
}

/// Why an import could not be planned.
#[derive(Debug)]
pub enum ImportError {
    /// The project document cannot be used.
    Document(DocumentError),
    /// There is no frame to import.
    NoFrames,
    /// The width or the height is beyond what a descriptor can hold.
    DimensionsTooLarge,
    /// The frame at this position is the first that is not of the given
    /// width and height.
    FrameMismatch(usize),
    /// There is not exactly one identifier for each frame.
    IdentifierCount,
    /// Two frames have one identifier, or a frame has that of the layer.
    DuplicateIdentifier,
}

impl ImportError {
    /// What the error says.
    pub open spec fn text(self) -> Seq<char> {
        match self {
            ImportError::Document(e) => e.text(),
            ImportError::NoFrames => "No frames to import"@,
            ImportError::DimensionsTooLarge => "Frame width and height must not exceed 2147483647"@,
            ImportError::FrameMismatch(_) => "A frame does not have the given width and height"@,
            ImportError::IdentifierCount => "There must be one identifier for each frame"@,
            ImportError::DuplicateIdentifier => "No two identifiers may be the same"@,
        }
    }

    /// What the error says, for a log.
    pub fn message(&self) -> (s: String)
        ensures
            s@ == self.text(),
    {
        match self {
            ImportError::Document(e) => e.message(),
            ImportError::NoFrames => "No frames to import".to_owned(),
            ImportError::DimensionsTooLarge => "Frame width and height must not exceed 2147483647".to_owned(),
            ImportError::FrameMismatch(_) => "A frame does not have the given width and height"
                .to_owned(),
            ImportError::IdentifierCount => "There must be one identifier for each frame"
                .to_owned(),
            ImportError::DuplicateIdentifier => "No two identifiers may be the same".to_owned(),
        }
    }
}

/// How the planning of an import ends.
#[derive(PartialEq, Eq, Structural)]
pub enum ImportCheck {
    Planned,
    Malformed,
    NoFrames,
    DimensionsTooLarge,
    FrameMismatch,
    MissingFolders,
    MissingResources,
    Unprintable,
    IdentifierCount,
    DuplicateIdentifier,
}

/// The end that an error stands for.
pub open spec fn failure_of(e: ImportError) -> ImportCheck {
    match e {
        ImportError::Document(DocumentError::Malformed(_)) => ImportCheck::Malformed,
        ImportError::Document(DocumentError::MissingFolders) => ImportCheck::MissingFolders,
        ImportError::Document(DocumentError::MissingResources) => ImportCheck::MissingResources,
        ImportError::Document(DocumentError::Unprintable(_)) => ImportCheck::Unprintable,
        ImportError::NoFrames => ImportCheck::NoFrames,
        ImportError::DimensionsTooLarge => ImportCheck::DimensionsTooLarge,
        ImportError::FrameMismatch(_) => ImportCheck::FrameMismatch,
        ImportError::IdentifierCount => ImportCheck::IdentifierCount,
        ImportError::DuplicateIdentifier => ImportCheck::DuplicateIdentifier,
    }
}

/// The project document with the folder chain of `folder` ensured.
pub open spec fn with_chain(doc: JsonView, folder: Seq<char>) -> JsonView {
    doc.with_field(
        "Folders"@,
        JsonView::Array(with_folder_chain(doc.array_field("Folders"@)->0, folder)),
    )
}

/// The project document after the import of `sprite` under `folder`: the
/// folder chain ensured, then the entry of the sprite replaced.
pub open spec fn edited_document(doc: JsonView, sprite: Seq<char>, folder: Seq<char>) -> JsonView {
    let filed = with_chain(doc, folder);
    filed.with_field(
        "resources"@,
        JsonView::Array(
            upserted(
                filed.array_field("resources"@)->0,
                sprite,
                resource_record(sprite, descriptor_path(sprite)),
            ),
        ),
    )
}

/// Whether the frames can be imported into the project, whatever their
/// identifiers: the first fault there is, in the project text, in the
/// frames, or in the document.
pub open spec fn import_check(
    project_text: Seq<char>,
    sprite: Seq<char>,
    frames: Seq<Frame>,
    folder: Seq<char>,
    width: u32,
    height: u32,
) -> ImportCheck {
    match document_of(project_text) {
        None => ImportCheck::Malformed,
        Some(doc) => if frames.len() == 0 {
            ImportCheck::NoFrames
        } else if width > i32::MAX || height > i32::MAX {
            ImportCheck::DimensionsTooLarge
        } else if !frames_sized(frames, width, height) {
            ImportCheck::FrameMismatch
        } else if doc.array_field("Folders"@) is None {
            ImportCheck::MissingFolders
        } else if with_chain(doc, folder).array_field("resources"@) is None {
            ImportCheck::MissingResources
        } else if document_text(edited_document(doc, sprite, folder)) is None {
            ImportCheck::Unprintable
        } else {
            ImportCheck::Planned
        },
    }
}

/// The identifiers are unique tokens: no two frames have the same, and none
/// has that of the layer.
pub open spec fn distinct_identifiers(layer: Seq<char>, guids: Seq<Seq<char>>) -> bool {
    &&& forall|i: int| 0 <= i < guids.len() ==> #[trigger] guids[i] != layer
    &&& forall|i: int, j: int| 0 <= i < j < guids.len() ==> #[trigger] guids[i] != #[trigger] guids[j]
}

/// Whether the identifiers will do for `n` frames.
pub open spec fn identifier_check(layer: Seq<char>, guids: Seq<Seq<char>>, n: nat) -> ImportCheck {
    if guids.len() != n {
        ImportCheck::IdentifierCount
    } else if !distinct_identifiers(layer, guids) {
        ImportCheck::DuplicateIdentifier
    } else {
        ImportCheck::Planned
    }
}

/// How the planning of an import with given identifiers ends: by the first
/// fault of what is to be imported or, if there is none, by that of the
/// identifiers.
pub open spec fn plan_check(
    project_text: Seq<char>,
    sprite: Seq<char>,
    frames: Seq<Frame>,
    folder: Seq<char>,
    width: u32,
    height: u32,
    layer: Seq<char>,
    guids: Seq<Seq<char>>,
) -> ImportCheck {
    let first = import_check(project_text, sprite, frames, folder, width, height);
    if first != ImportCheck::Planned {
        first
    } else {
        identifier_check(layer, guids, frames.len())
    }
}

/// Whether no two frames have the same identifier and none has that of the layer.
pub fn identifiers_distinct(layer: &String, guids: &Vec<String>) -> (b: bool)
    ensures
        b == distinct_identifiers(layer@, string_views(guids@)),
{
    let ghost ids = string_views(guids@);
    let mut j: usize = 0;
    while j < guids.len()
        invariant
            j <= guids.len(),
            ids == string_views(guids@),
            forall|i: int| 0 <= i < j ==> #[trigger] ids[i] != layer@,
            forall|a: int, b: int| 0 <= a < b < j ==> #[trigger] ids[a] != #[trigger] ids[b],
        decreases guids.len() - j,
    {
        if guids[j] == *layer {
            assert(ids[j as int] == layer@);
            return false;
        }
        let mut i: usize = 0;
        while i < j
            invariant
                i <= j < guids.len(),
                ids == string_views(guids@),
                forall|a: int| 0 <= a < i ==> #[trigger] ids[a] != ids[j as int],
            decreases j - i,
        {
            if guids[i] == guids[j] {
                assert(ids[i as int] == ids[j as int]);
                return false;
            }
            i += 1;
        }
        j += 1;
    }
    true
}

/// Where the image of frame `guid` of `sprite` lies inside the project.
pub open spec fn frame_image_path(sprite: Seq<char>, guid: Seq<char>) -> Seq<char> {
    "sprites/"@ + sprite + "/"@ + guid + ".png"@
}

/// Where the layer image of frame `guid` of `sprite` lies inside the project.
pub open spec fn layer_image_path(sprite: Seq<char>, guid: Seq<char>, layer: Seq<char>) -> Seq<
    char,
> {
    "sprites/"@ + sprite + "/layers/"@ + guid + "/"@ + layer + ".png"@
}

/// The collision box computed for a stack: the tightest rectangle around its
/// occupied pixels, or the whole frame where no pixel is occupied.
pub open spec fn is_computed_box(frames: Seq<Frame>, width: u32, height: u32, b: BBox) -> bool {
    if all_transparent(frames) {
        b == BBox::whole(width as int, height as int)
    } else {
        is_tight_bbox(frames, b)
    }
}

/// The two files that hold the pixels of one frame. Both hold the same image.
#[derive(Debug, Clone)]
pub struct FrameFiles {
    /// The frame image at the root of the sprite's directory.
    pub image: String,
    /// The copy inside the frame's layer directory.
    pub layer_image: String,
}

/// Everything an import writes, with paths relative to the project's directory.
#[derive(Debug)]
pub struct ImportPlan {
    /// The directory of the sprite, to be emptied before anything is written.
    pub sprite_dir: String,
    /// The descriptor of the sprite.
    pub sprite: GMSpriteModel,
    /// Where the descriptor goes.
    pub descriptor_path: String,
    /// The identifier of the layer that all frames share.
    pub layer_guid: String,
    /// The identifier of each frame.
    pub frame_guids: Vec<String>,
    /// Where the image of each frame goes.
    pub frame_files: Vec<FrameFiles>,
    /// The project document after the import.
    pub project: Json,
    /// The text of that document, to replace the project file.
    pub project_text: String,
    /// Whether the settings of an earlier version were carried over.
    pub kept_overrides: bool,
}

/// `plan` is the plan for importing `frames` as `sprite` under `folder` into
/// the project `doc`, with the given identifiers.
pub open spec fn is_plan(
    plan: ImportPlan,
    doc: JsonView,
    existing: Option<Seq<char>>,
    sprite: Seq<char>,
    frames: Seq<Frame>,
    folder: Seq<char>,
    width: u32,
    height: u32,
    layer: Seq<char>,
    guids: Seq<Seq<char>>,
) -> bool {
    &&& plan.layer_guid@ == layer
    &&& string_views(plan.frame_guids@) == guids
    &&& guids.len() == frames.len()
    &&& distinct_identifiers(layer, guids)
    &&& plan.sprite_dir@ == "sprites/"@ + sprite
    &&& plan.descriptor_path@ == descriptor_path(sprite)
    &&& plan.sprite.describes(
        sprite,
        width as i32,
        height as i32,
        guids,
        layer,
        split(folder, '/').last(),
        folder_file(folder),
    )
    &&& match carried_overrides(existing, width, height) {
        Some(ov) => plan.kept_overrides && sprite_settings(plan.sprite) == ov,
        None => !plan.kept_overrides && exists|b: BBox|
            is_computed_box(frames, width, height, b) && sprite_settings(plan.sprite)
                == #[trigger] settings_for(b),
    }
    &&& plan.frame_files@.len() == guids.len()
    &&& forall|i: int|
        0 <= i < guids.len() ==> (#[trigger] plan.frame_files@[i]).image@ == frame_image_path(
            sprite,
            guids[i],
        ) && plan.frame_files@[i].layer_image@ == layer_image_path(sprite, guids[i], layer)
    &&& plan.project@ == edited_document(doc, sprite, folder)
    &&& plan.project.wf()
    &&& pretty_text(plan.project@) == Some(plan.project_text@)
}

/// The paths of the two images of each frame.
fn plan_frame_files(sprite: &str, guids: &Vec<String>, layer: &str) -> (files: Vec<FrameFiles>)
    ensures
        files@.len() == guids@.len(),
        forall|i: int|
            0 <= i < guids@.len() ==> (#[trigger] files@[i]).image@ == frame_image_path(
                sprite@,
                string_views(guids@)[i],
            ) && files@[i].layer_image@ == layer_image_path(
                sprite@,
                string_views(guids@)[i],
                layer@,
            ),
{
    let mut files: Vec<FrameFiles> = Vec::new();
    let mut i: usize = 0;
    while i < guids.len()
        invariant
            i <= guids.len(),
            files@.len() == i,
            forall|j: int|
                0 <= j < i ==> (#[trigger] files@[j]).image@ == frame_image_path(
                    sprite@,
                    string_views(guids@)[j],
                ) && files@[j].layer_image@ == layer_image_path(
                    sprite@,
                    string_views(guids@)[j],
                    layer@,
                ),
        decreases guids.len() - i,
    {
        let guid = guids[i].as_str();
        let mut image = "sprites/".to_owned();
        image.append(sprite);
        image.append("/");
        image.append(guid);
        image.append(".png");
        let mut layer_image = "sprites/".to_owned();
        layer_image.append(sprite);
        layer_image.append("/layers/");
        layer_image.append(guid);
        layer_image.append("/");
        layer_image.append(layer);
        layer_image.append(".png");
        files.push(FrameFiles { image, layer_image });
        i += 1;
    }
    files
}

/// `uuid::Uuid::new_v4` in the text form that `to_string` gives it: random, so
/// nothing is claimed of it but its length, 32 digits and 4 hyphens. (A
/// random source that fails is left aside, like memory that runs out.)
#[verifier::external_body]
fn fresh_guid() -> (guid: String)
    ensures
        guid@.len() == 36,
{
    uuid::Uuid::new_v4().to_string()
}

/// Plans the import of a stack of frames as the sprite `sprite_name`, filed
/// under `gm_folder_path`, into the project whose text is `project_text`,
/// with identifiers that the caller has made. `existing_descriptor` is the
/// text of the descriptor of an earlier version of the sprite, if there is
/// one: its settings are carried over if its dimensions are the same.
/// Nothing is written: the plan says what to write.
pub fn plan_import(
    project_text: &str,
    existing_descriptor: Option<&str>,
    sprite_name: &str,
    frames: &Vec<Frame>,
    gm_folder_path: &str,
    width: u32,
    height: u32,
    layer_guid: String,
    frame_guids: Vec<String>,
) -> (r: Result<ImportPlan, ImportError>)
    ensures
        match r {
            Ok(plan) => {
                &&& plan_check(
                    project_text@,
                    sprite_name@,
                    frames@,
                    gm_folder_path@,
                    width,
                    height,
                    layer_guid@,
                    string_views(frame_guids@),
                ) == ImportCheck::Planned
                &&& is_plan(
                    plan,
                    document_of(project_text@)->0,
                    match existing_descriptor {
                        Some(text) => Some(text@),
                        None => None,
                    },
                    sprite_name@,
                    frames@,
                    gm_folder_path@,
                    width,
                    height,
                    layer_guid@,
                    string_views(frame_guids@),
                )
            },
            Err(e) => {
                &&& failure_of(e) != ImportCheck::Planned
                &&& failure_of(e) == plan_check(
                    project_text@,
                    sprite_name@,
                    frames@,
                    gm_folder_path@,
                    width,
                    height,
                    layer_guid@,
                    string_views(frame_guids@),
                )
                &&& e matches ImportError::FrameMismatch(i) ==> is_first_missized(
                    frames@,
                    width,
                    height,
                    i as int,
                )
            },
        },
{
    let mut project = match load_document(project_text) {
        Ok(doc) => doc,
        Err(e) => {
            return Err(ImportError::Document(e));
        },
    };
    if frames.len() == 0 {
        return Err(ImportError::NoFrames);
    }
    if width > 0x7FFF_FFFF || height > 0x7FFF_FFFF {
        return Err(ImportError::DimensionsTooLarge);
    }
    if let Some(i) = first_missized(frames, width, height) {
        return Err(ImportError::FrameMismatch(i));
    }
    let overrides = match existing_descriptor {
        Some(text) => read_sprite_overrides(text, width, height),
        None => None,
    };
    let bbox = match calculate_tight_bbox(frames, width, height) {
        Some(b) => b,
        None => BBox::full_frame(width, height),
    };
    let parts = split_on(gm_folder_path, '/');
    let parent_name = &parts[parts.len() - 1];
    let mut parent_path = "folders/".to_owned();
    parent_path.append(gm_folder_path);
    parent_path.append(".yy");
    proof {
        assert(parent_name@ == split(gm_folder_path@, '/').last()) by {
            assert(string_views(parts@)[parts@.len() - 1] == parts@[parts@.len() - 1]@);
        }
    }
    let parent = ResourceReference::new(parent_name.as_str(), parent_path.as_str());
    let mut sprite = GMSpriteModel::new(
        sprite_name,
        width as i32,
        height as i32,
        &frame_guids,
        layer_guid.as_str(),
        parent,
        Some(bbox),
    );
    proof {
        assert(is_computed_box(frames@, width, height, bbox));
        assert(sprite_settings(sprite) == settings_for(bbox));
    }
    let kept_overrides = match overrides {
        Some(ov) => {
            sprite.apply_overrides(ov);
            true
        },
        None => false,
    };
    let descriptor = sprite_descriptor_path(sprite_name);
    match ensure_folder_chain(&mut project, gm_folder_path) {
        Ok(_) => {},
        Err(e) => {
            return Err(ImportError::Document(e));
        },
    }
    match upsert_resource(&mut project, sprite_name, descriptor.as_str()) {
        Ok(_) => {},
        Err(e) => {
            return Err(ImportError::Document(e));
        },
    }
    let text = match save_document(&project) {
        Ok(text) => text,
        Err(e) => {
            return Err(ImportError::Document(e));
        },
    };
    if frame_guids.len() != frames.len() {
        return Err(ImportError::IdentifierCount);
    }
    if !identifiers_distinct(&layer_guid, &frame_guids) {
        return Err(ImportError::DuplicateIdentifier);
    }
    let frame_files = plan_frame_files(sprite_name, &frame_guids, layer_guid.as_str());
    let mut sprite_dir = "sprites/".to_owned();
    sprite_dir.append(sprite_name);
    Ok(
        ImportPlan {
            sprite_dir,
            sprite,
            descriptor_path: descriptor,
            layer_guid,
            frame_guids,
            frame_files,
            project,
            project_text: text,
            kept_overrides,
        },
    )
}

/// Plans the import of a stack of frames as the sprite `sprite_name`, filed
/// under `gm_folder_path`, into the project whose text is `project_text`:
/// makes a fresh identifier for the shared layer and one for each frame, and
/// plans with them. Which identifiers the plan holds is open; the plan is the
/// one that belongs to them, and in it they all differ. Identifiers are drawn
/// at random, so that two of them may be the same: then nothing is planned.
pub fn import_sprite_to_project(
    project_text: &str,
    existing_descriptor: Option<&str>,
    sprite_name: &str,
    frames: &Vec<Frame>,
    gm_folder_path: &str,
    width: u32,
    height: u32,
) -> (r: Result<ImportPlan, ImportError>)
    ensures
        match r {
            Ok(plan) => {
                &&& import_check(
                    project_text@,
                    sprite_name@,
                    frames@,
                    gm_folder_path@,
                    width,
                    height,
                ) == ImportCheck::Planned
                &&& is_plan(
                    plan,
                    document_of(project_text@)->0,
                    match existing_descriptor {
                        Some(text) => Some(text@),
                        None => None,
                    },
                    sprite_name@,
                    frames@,
                    gm_folder_path@,
                    width,
                    height,
                    plan.layer_guid@,
                    string_views(plan.frame_guids@),
                )
            },
            Err(e) => {
                &&& failure_of(e) != ImportCheck::Planned
                &&& failure_of(e) == ImportCheck::DuplicateIdentifier || failure_of(e)
                    == import_check(
                    project_text@,
                    sprite_name@,
                    frames@,
                    gm_folder_path@,
                    width,
                    height,
                )
                &&& failure_of(e) == ImportCheck::DuplicateIdentifier ==> import_check(
                    project_text@,
                    sprite_name@,
                    frames@,
                    gm_folder_path@,
                    width,
                    height,
                ) == ImportCheck::Planned
                &&& e matches ImportError::FrameMismatch(i) ==> is_first_missized(
                    frames@,
                    width,
                    height,
                    i as int,
                )
            },
        },
{
    let layer_guid = fresh_guid();
    let mut frame_guids: Vec<String> = Vec::new();
    let mut i: usize = 0;
    while i < frames.len()
        invariant
            i <= frames.len(),
            frame_guids@.len() == i,
        decreases frames.len() - i,
    {
        frame_guids.push(fresh_guid());
        i += 1;
    }
    plan_import(
        project_text,
        existing_descriptor,
        sprite_name,
        frames,
        gm_folder_path,
        width,
        height,
        layer_guid,
        frame_guids,
    )
}

} // verus!
