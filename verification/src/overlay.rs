//! The plain-data part of the overlay state: annotation objects, the
//! selection, snapping caches and the editing operations on them. Values
//! that only the renderer reads (stroke widths, opacities and other
//! per-object styling) travel in the type parameter `X` untouched.
use vstd::prelude::*;
use crate::geometry::Rect;
use crate::types::{DrawingTool, HitZone, InteractionMode, CaptureEngine, CaptureMode};
use crate::workflow::CaptureWorkflow;

verus! {

/// An annotation drawn on the capture. `extra` carries renderer-only
/// styling that the editing logic never reads.
pub struct DrawingObject<X> {
    pub tool: DrawingTool,
    pub points: Vec<(i32, i32)>,
    pub text: Option<String>,
    pub color: u32,
    pub is_filled: bool,
    pub is_dashed: bool,
    pub is_editing_text: bool,
    pub font_family: String,
    pub has_shadow: bool,
    pub extra: X,
}

/// An AI prompt macro offered in the overlay.
pub struct AiMacro {
    pub id: String,
    pub name: String,
    pub icon: String,
    pub prompt: String,
}

/// Registry of overlay tools.
pub struct ToolRegistry {}

/// GDI-side caches of the overlay.
pub struct GdiData {
    /// Pixels of the bright background, for O(1) colour sampling.
    pub bright_pixels: Option<Vec<u32>>,
    pub style_initialized: bool,
    /// Vertical snap lines (x coordinates, canvas space).
    pub snap_x_cache: Vec<i32>,
    /// Horizontal snap lines (y coordinates, canvas space).
    pub snap_y_cache: Vec<i32>,
}

/// The overlay's editing state.
pub struct OverlayState<X> {
    pub is_visible: bool,
    /// Virtual-screen position of the canvas origin.
    pub capture_x: i32,
    pub capture_y: i32,
    pub mouse_x: i32,
    pub mouse_y: i32,
    pub selection: Option<Rect>,
    pub interaction_mode: InteractionMode,
    pub hover_zone: HitZone,
    pub is_snapshot_mode: bool,
    pub start_x: i32,
    pub start_y: i32,
    pub capture_mode: CaptureMode,
    pub capture_engine: CaptureEngine,
    pub drag_start_selection: Option<Rect>,
    pub width: i32,
    pub height: i32,
    /// Snap targets: visible window bounds in virtual-screen coordinates.
    pub window_rects: Vec<Rect>,
    pub current_tool: DrawingTool,
    /// ARGB colour for new annotations.
    pub current_color: u32,
    pub current_is_filled: bool,
    pub objects: Vec<DrawingObject<X>>,
    pub current_drawing: Option<DrawingObject<X>>,
    pub tool_registry: ToolRegistry,
    pub is_advanced_switching: bool,
    pub selected_object_index: Option<usize>,
    pub is_selection_active: bool,
    pub font_family: String,
    pub current_shadow: bool,
    pub enable_advanced_effects: bool,
    pub is_capturing: bool,
    pub monitor_id: String,
    pub monitor_rect: Rect,
    pub restrict_to_monitor: Option<Rect>,
    pub selection_pointer: Option<(i32, i32)>,
    pub is_scrolling: bool,
    pub scroll_stitched_path: Option<String>,
    pub gdi: GdiData,
    /// Snap caches must be rebuilt before the next use.
    pub snapping_dirty: bool,
    /// The AI prompt to run on the capture, if a workflow asked for one.
    pub pending_ai_prompt: Option<String>,
    /// The workflow whose capture the overlay is showing.
    pub active_workflow: Option<CaptureWorkflow>,
}

impl GdiData {
    /// Empty caches.
    pub fn new() -> (g: GdiData)
        ensures
            g.bright_pixels is None,
            !g.style_initialized,
            g.snap_x_cache@.len() == 0,
            g.snap_y_cache@.len() == 0,
    {
        GdiData {
            bright_pixels: None,
            style_initialized: false,
            snap_x_cache: Vec::new(),
            snap_y_cache: Vec::new(),
        }
    }
}

impl Default for GdiData {
    /// Empty caches.
    fn default() -> (g: GdiData)
        ensures
            g.bright_pixels is None,
            !g.style_initialized,
            g.snap_x_cache@.len() == 0,
            g.snap_y_cache@.len() == 0,
    {
        GdiData::new()
    }
}

/// Index of the last object whose text is being edited.
pub open spec fn last_editing_index<X>(objs: Seq<DrawingObject<X>>) -> Option<int>
    decreases objs.len(),
{
    if objs.len() == 0 {
        None
    } else if objs.last().is_editing_text {
        Some(objs.len() - 1)
    } else {
        last_editing_index(objs.drop_last())
    }
}

proof fn lemma_last_editing_index<X>(objs: Seq<DrawingObject<X>>)
    ensures
        last_editing_index(objs) matches Some(i) ==> 0 <= i < objs.len() && objs[i].is_editing_text
            && forall|j: int| i < j < objs.len() ==> !(#[trigger] objs[j]).is_editing_text,
        last_editing_index(objs) is None ==> forall|j: int|
            0 <= j < objs.len() ==> !(#[trigger] objs[j]).is_editing_text,
    decreases objs.len(),
{
    if objs.len() > 0 {
        lemma_last_editing_index(objs.drop_last());
        assert forall|j: int| 0 <= j < objs.len() - 1 implies objs.drop_last()[j] == objs[j] by {}
    }
}

/// Whether a finished drawing is kept: it needs two points, unless it is a
/// number badge or a text box.
pub open spec fn keeps_drawing<X>(d: DrawingObject<X>) -> bool {
    d.points@.len() >= 2 || d.tool == DrawingTool::Number || d.tool == DrawingTool::Text
}

/// The state of a freshly opened overlay: hidden, nothing selected or
/// drawn, no windows known, no capture running, muted red as the drawing
/// colour, "Segoe UI" as font, GDI as engine, empty caches that need a
/// rebuild.
pub open spec fn is_fresh_overlay<X>(s: OverlayState<X>) -> bool {
    &&& !s.is_visible
    &&& s.capture_x == 0 && s.capture_y == 0
    &&& s.mouse_x == 0 && s.mouse_y == 0
    &&& s.selection is None
    &&& s.interaction_mode == InteractionMode::Idle
    &&& s.hover_zone == HitZone::NoZone
    &&& !s.is_snapshot_mode
    &&& s.start_x == 0 && s.start_y == 0
    &&& s.capture_mode == CaptureMode::Standard
    &&& s.capture_engine == CaptureEngine::Gdi
    &&& s.drag_start_selection is None
    &&& s.width == 0 && s.height == 0
    &&& s.window_rects@.len() == 0
    &&& s.current_tool == DrawingTool::NoTool
    &&& s.current_color == 0xFFD14D4D
    &&& !s.current_is_filled
    &&& s.objects@.len() == 0
    &&& s.current_drawing is None
    &&& !s.is_advanced_switching
    &&& s.selected_object_index is None
    &&& !s.is_selection_active
    &&& s.font_family@ == "Segoe UI"@
    &&& !s.current_shadow
    &&& s.enable_advanced_effects
    &&& !s.is_capturing
    &&& s.monitor_id@.len() == 0
    &&& s.monitor_rect == (Rect { left: 0, top: 0, right: 0, bottom: 0 })
    &&& s.restrict_to_monitor is None
    &&& s.selection_pointer is None
    &&& !s.is_scrolling
    &&& s.scroll_stitched_path is None
    &&& s.gdi.bright_pixels is None
    &&& !s.gdi.style_initialized
    &&& s.gdi.snap_x_cache@.len() == 0
    &&& s.gdi.snap_y_cache@.len() == 0
    &&& s.snapping_dirty
    &&& s.pending_ai_prompt is None
    &&& s.active_workflow is None
}

impl<X> OverlayState<X> {
    /// The state of a freshly opened overlay: nothing selected, no
    /// annotations, muted red as the drawing colour, "Segoe UI" as font.
    pub fn new() -> (s: Self)
        ensures
            is_fresh_overlay(s),
    {
        OverlayState {
            is_visible: false,
            capture_x: 0,
            capture_y: 0,
            mouse_x: 0,
            mouse_y: 0,
            selection: None,
            interaction_mode: InteractionMode::Idle,
            hover_zone: HitZone::NoZone,
            is_snapshot_mode: false,
            start_x: 0,
            start_y: 0,
            capture_mode: CaptureMode::Standard,
            capture_engine: CaptureEngine::Gdi,
            drag_start_selection: None,
            width: 0,
            height: 0,
            window_rects: Vec::new(),
            current_tool: DrawingTool::NoTool,
            current_color: 0xFFD14D4D,
            current_is_filled: false,
            objects: Vec::new(),
            current_drawing: None,
            tool_registry: ToolRegistry {},
            is_advanced_switching: false,
            selected_object_index: None,
            is_selection_active: false,
            font_family: String::from_str("Segoe UI"),
            current_shadow: false,
            enable_advanced_effects: true,
            is_capturing: false,
            monitor_id: String::new(),
            monitor_rect: Rect::default(),
            restrict_to_monitor: None,
            selection_pointer: None,
            is_scrolling: false,
            scroll_stitched_path: None,
            gdi: GdiData::new(),
            snapping_dirty: true,
            pending_ai_prompt: None,
            active_workflow: None,
        }
    }

    /// Index of the last annotation whose text is being edited.
    pub fn editing_text_index(&self) -> (r: Option<usize>)
        ensures
            match r {
                Some(i) => last_editing_index(self.objects@) == Some(i as int),
                None => last_editing_index(self.objects@) is None,
            },
    {
        proof {
            lemma_last_editing_index(self.objects@);
        }
        let mut i = self.objects.len();
        while i > 0
            invariant
                0 <= i <= self.objects@.len(),
                forall|j: int| i <= j < self.objects@.len() ==> !(#[trigger] self.objects@[j]).is_editing_text,
                last_editing_index(self.objects@) matches Some(k) ==> 0 <= k < self.objects@.len()
                    && self.objects@[k].is_editing_text && forall|j: int|
                    k < j < self.objects@.len() ==> !(#[trigger] self.objects@[j]).is_editing_text,
                last_editing_index(self.objects@) is None ==> forall|j: int|
                    0 <= j < self.objects@.len() ==> !(#[trigger] self.objects@[j]).is_editing_text,
            decreases i,
        {
            if self.objects[i - 1].is_editing_text {
                return Some(i - 1);
            }
            i = i - 1;
        }
        None
    }

    /// Sets the drawing colour, and the colour of the text being edited.
    pub fn apply_color(&mut self, color: u32)
        ensures
            final(self).current_color == color,
            final(self).objects@.len() == old(self).objects@.len(),
            match last_editing_index(old(self).objects@) {
                Some(i) => final(self).objects@ == old(self).objects@.update(
                    i,
                    DrawingObject { color, ..old(self).objects@[i] },
                ),
                None => final(self).objects@ == old(self).objects@,
            },
            *final(self) == (OverlayState {
                current_color: color,
                objects: final(self).objects,
                ..*old(self)
            }),
    {
        self.current_color = color;
        if let Some(i) = self.editing_text_index() {
            proof {
                lemma_last_editing_index(self.objects@);
            }
            self.objects[i].color = color;
        }
    }

    /// Toggles filling for new shapes.
    pub fn toggle_fill(&mut self)
        ensures
            *final(self) == (OverlayState {
                current_is_filled: !old(self).current_is_filled,
                ..*old(self)
            }),
    {
        self.current_is_filled = !self.current_is_filled;
    }

    /// Sets the shadow switch, and the shadow of the selected annotation.
    pub fn apply_shadow(&mut self, enabled: bool)
        ensures
            final(self).current_shadow == enabled,
            final(self).objects@.len() == old(self).objects@.len(),
            match old(self).selected_object_index {
                Some(i) if i < old(self).objects@.len() => final(self).objects@ == old(
                    self,
                ).objects@.update(i as int, DrawingObject { has_shadow: enabled, ..old(self).objects@[i as int] }),
                _ => final(self).objects@ == old(self).objects@,
            },
            *final(self) == (OverlayState {
                current_shadow: enabled,
                objects: final(self).objects,
                ..*old(self)
            }),
    {
        self.current_shadow = enabled;
        if let Some(idx) = self.selected_object_index {
            if idx < self.objects.len() {
                self.objects[idx].has_shadow = enabled;
            }
        }
    }

    /// Removes the most recent annotation and clears the object selection.
    pub fn undo(&mut self)
        ensures
            final(self).objects@ == (if old(self).objects@.len() == 0 {
                old(self).objects@
            } else {
                old(self).objects@.drop_last()
            }),
            *final(self) == (OverlayState {
                selected_object_index: None,
                objects: final(self).objects,
                ..*old(self)
            }),
    {
        let _ = self.objects.pop();
        self.selected_object_index = None;
    }

    /// Ends the drawing in progress: it is added to the annotations when it
    /// has content (two points, or a number badge or text box) and dropped
    /// otherwise.
    pub fn commit_current_drawing(&mut self)
        ensures
            final(self).current_drawing is None,
            match old(self).current_drawing {
                Some(d) => final(self).objects@ == (if keeps_drawing(d) {
                    old(self).objects@.push(d)
                } else {
                    old(self).objects@
                }),
                None => final(self).objects@ == old(self).objects@,
            },
            *final(self) == (OverlayState {
                current_drawing: None,
                objects: final(self).objects,
                ..*old(self)
            }),
    {
        if let Some(drawing) = self.current_drawing.take() {
            if drawing.points.len() >= 2 || matches!(drawing.tool, DrawingTool::Number)
                || matches!(drawing.tool, DrawingTool::Text) {
                self.objects.push(drawing);
            }
        }
    }
}

impl<X> Default for OverlayState<X> {
    /// The state of a freshly opened overlay (see [`OverlayState::new`]).
    fn default() -> (s: Self)
        ensures
            is_fresh_overlay(s),
    {
        OverlayState::new()
    }
}

} // verus!
