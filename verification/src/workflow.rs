//! Capture workflows: what running a workflow records in the overlay, the
//! manual capture started from the tray, what the tray menu does, how the
//! running workflow's output decides the saving, and how a resized
//! snapshot updates the remembered snapshot sizes.
use vstd::prelude::*;
use crate::geometry::Rect;
use crate::types::{CaptureEngine, CaptureMode};
use crate::overlay::OverlayState;
use crate::capture::capture_engine_for;

verus! {

/// What a workflow captures, and with which engine (`"vello"` or `"gdi"`).
pub enum CaptureAction {
    Selection { engine: String },
    Snapshot { engine: String, width: i32, height: i32, allow_resize: bool },
    Fullscreen { engine: String },
    Window { engine: String },
}

/// The engine name of an action.
pub open spec fn action_engine(a: CaptureAction) -> Seq<char> {
    match a {
        CaptureAction::Selection { engine } => engine@,
        CaptureAction::Snapshot { engine, .. } => engine@,
        CaptureAction::Fullscreen { engine } => engine@,
        CaptureAction::Window { engine } => engine@,
    }
}

/// The engine an engine name selects.
pub open spec fn engine_named(name: Seq<char>) -> CaptureEngine {
    if name == "vello"@ {
        CaptureEngine::Wgc
    } else {
        CaptureEngine::Gdi
    }
}

/// How the overlay is set up for a workflow.
#[derive(Clone, Copy, Debug)]
pub struct CapturePlan {
    pub mode: CaptureMode,
    pub engine: CaptureEngine,
    /// The fixed frame size of a snapshot workflow.
    pub snapshot_size: Option<(i32, i32)>,
}

/// The overlay set-up a capture action asks for.
pub open spec fn plan_of(a: CaptureAction) -> CapturePlan {
    CapturePlan {
        mode: CaptureMode::Standard,
        engine: engine_named(action_engine(a)),
        snapshot_size: match a {
            CaptureAction::Snapshot { width, height, .. } => Some((width, height)),
            _ => None,
        },
    }
}

/// Decodes a workflow's capture action.
pub fn plan_capture(action: &CaptureAction) -> (p: CapturePlan)
    ensures
        p == plan_of(*action),
{
    match action {
        CaptureAction::Selection { engine } => CapturePlan {
            mode: CaptureMode::Standard,
            engine: capture_engine_for(engine.as_str()),
            snapshot_size: None,
        },
        CaptureAction::Snapshot { engine, width, height, .. } => CapturePlan {
            mode: CaptureMode::Standard,
            engine: capture_engine_for(engine.as_str()),
            snapshot_size: Some((*width, *height)),
        },
        CaptureAction::Fullscreen { engine } => CapturePlan {
            mode: CaptureMode::Standard,
            engine: capture_engine_for(engine.as_str()),
            snapshot_size: None,
        },
        CaptureAction::Window { engine } => CapturePlan {
            mode: CaptureMode::Standard,
            engine: capture_engine_for(engine.as_str()),
            snapshot_size: None,
        },
    }
}

impl<X> OverlayState<X> {
    /// Prepares the overlay for a workflow's capture: its mode, its engine,
    /// and whether it is a fixed-size snapshot. Nothing else changes.
    pub fn apply_capture_plan(&mut self, plan: &CapturePlan)
        ensures
            *final(self) == (OverlayState {
                capture_mode: plan.mode,
                capture_engine: plan.engine,
                is_snapshot_mode: plan.snapshot_size is Some,
                ..*old(self)
            }),
    {
        self.capture_mode = plan.mode;
        self.capture_engine = plan.engine;
        self.is_snapshot_mode = plan.snapshot_size.is_some();
    }

    /// Records the workflow about to run, with the AI prompt it was started
    /// with, and prepares the overlay for its capture: standard mode, the
    /// engine its action names, snapshot mode for a snapshot action.
    /// Nothing else changes.
    pub fn begin_workflow_capture(&mut self, workflow: CaptureWorkflow, ai_prompt: Option<String>)
        ensures
            *final(self) == (OverlayState {
                active_workflow: Some(workflow),
                capture_mode: CaptureMode::Standard,
                capture_engine: engine_named(action_engine(workflow.action)),
                is_snapshot_mode: workflow.action is Snapshot,
                pending_ai_prompt: ai_prompt,
                ..*old(self)
            }),
    {
        let plan = plan_capture(&workflow.action);
        self.apply_capture_plan(&plan);
        self.active_workflow = Some(workflow);
        self.pending_ai_prompt = ai_prompt;
    }

    /// How the selection is saved: by the running workflow's output, or the
    /// default without a workflow.
    pub fn active_save_settings(&self) -> (r: SaveSettings)
        ensures
            settings_for(
                r,
                match self.active_workflow {
                    Some(w) => Some(w.output),
                    None => None,
                },
            ),
    {
        match &self.active_workflow {
            Some(w) => save_settings(Some(&w.output)),
            None => save_settings(None),
        }
    }

    /// The running workflow's id and the size to remember for it, after a
    /// resizable snapshot was adjusted; nothing otherwise.
    pub fn snapshot_size_update(&self) -> (r: Option<(String, (i32, i32))>)
        requires
            i32::MIN <= snapshot_frame(*self).right - snapshot_frame(*self).left <= i32::MAX,
            i32::MIN <= snapshot_frame(*self).bottom - snapshot_frame(*self).top <= i32::MAX,
        ensures
            match (r, workflow_snapshot_update(*self)) {
                (Some((id, (w, h))), Some((sid, (sw, sh)))) => id@ == sid && w == sw && h == sh,
                (None, None) => true,
                _ => false,
            },
    {
        let frame = match self.selection {
            Some(r) => r,
            None => Rect { left: 0, top: 0, right: self.width, bottom: self.height },
        };
        match &self.active_workflow {
            Some(w) => match snapshot_resize(self.is_snapshot_mode, Some(&w.action), frame) {
                Some(size) => Some((w.id.clone(), size)),
                None => None,
            },
            None => None,
        }
    }
}

/// The region a snapshot's size is read from: the selection, or the whole
/// canvas when nothing is selected.
pub open spec fn snapshot_frame<X>(s: OverlayState<X>) -> Rect {
    match s.selection {
        Some(r) => r,
        None => Rect { left: 0, top: 0, right: s.width, bottom: s.height },
    }
}

/// The running workflow's id and the size a resized snapshot gives it.
pub open spec fn workflow_snapshot_update<X>(s: OverlayState<X>) -> Option<(Seq<char>, (int, int))> {
    match s.active_workflow {
        Some(w) => match resized_snapshot(s.is_snapshot_mode, Some(w.action), snapshot_frame(s)) {
            Some(size) => Some((w.id@, size)),
            None => None,
        },
        None => None,
    }
}

/// The action of the manual capture started from the tray: a selection
/// captured with GDI.
pub fn tray_capture_action() -> (a: CaptureAction)
    ensures
        a matches CaptureAction::Selection { engine } && engine@ == "gdi"@,
{
    CaptureAction::Selection { engine: String::from_str("gdi") }
}

/// What a tray menu entry does.
#[derive(Clone, Copy, Debug, PartialEq, Eq, Structural)]
pub enum TrayAction {
    Quit,
    /// Show the main window.
    ShowDashboard,
    /// Show the main window on its settings page.
    ShowSettings,
    /// Start a manual capture.
    StartCapture,
    /// Not a known entry.
    Ignore,
}

/// The action of a tray menu entry id.
pub open spec fn tray_action_of(id: Seq<char>) -> TrayAction {
    if id == "quit"@ {
        TrayAction::Quit
    } else if id == "dashboard"@ {
        TrayAction::ShowDashboard
    } else if id == "settings"@ {
        TrayAction::ShowSettings
    } else if id == "capture"@ {
        TrayAction::StartCapture
    } else {
        TrayAction::Ignore
    }
}

/// What the tray menu entry `id` does.
pub fn tray_menu_action(id: &str) -> (a: TrayAction)
    ensures
        a == tray_action_of(id@),
{
    let s = String::from_str(id);
    if s == String::from_str("quit") {
        TrayAction::Quit
    } else if s == String::from_str("dashboard") {
        TrayAction::ShowDashboard
    } else if s == String::from_str("settings") {
        TrayAction::ShowSettings
    } else if s == String::from_str("capture") {
        TrayAction::StartCapture
    } else {
        TrayAction::Ignore
    }
}

/// The tray menu's entry ids from top to bottom (a separator stands
/// before the last).
pub fn tray_menu_ids() -> (ids: Vec<String>)
    ensures
        ids@.len() == 4,
        ids@[0]@ == "dashboard"@,
        ids@[1]@ == "capture"@,
        ids@[2]@ == "settings"@,
        ids@[3]@ == "quit"@,
{
    let mut ids: Vec<String> = Vec::new();
    ids.push(String::from_str("dashboard"));
    ids.push(String::from_str("capture"));
    ids.push(String::from_str("settings"));
    ids.push(String::from_str("quit"));
    ids
}

/// Every entry of the tray menu has an action.
pub proof fn lemma_tray_entries_have_actions()
    ensures
        tray_action_of("dashboard"@) == TrayAction::ShowDashboard,
        tray_action_of("capture"@) == TrayAction::StartCapture,
        tray_action_of("settings"@) == TrayAction::ShowSettings,
        tray_action_of("quit"@) == TrayAction::Quit,
{
    reveal_strlit("quit");
    reveal_strlit("dashboard");
    reveal_strlit("settings");
    reveal_strlit("capture");
    assert("dashboard"@.len() == 9 && "capture"@.len() == 7);
    assert("settings"@.len() == 8 && "quit"@.len() == 4);
}

/// A click on the tray icon shows the main window when it is the left
/// button being released.
pub fn tray_click_shows_main(left_button: bool, released: bool) -> (r: bool)
    ensures
        r == (left_button && released),
{
    left_button && released
}

/// The size a resizable snapshot's selection gives, to be remembered:
/// only in snapshot mode, for a snapshot action that allows resizing, and
/// for a selection with area.
pub open spec fn resized_snapshot(is_snapshot: bool, action: Option<CaptureAction>, sel: Rect) -> Option<(int, int)> {
    let w = sel.right - sel.left;
    let h = sel.bottom - sel.top;
    if is_snapshot && w > 0 && h > 0 && (action matches Some(
        CaptureAction::Snapshot { allow_resize, .. },
    ) && allow_resize) {
        Some((w, h))
    } else {
        None
    }
}

/// The snapshot size to remember after a snapshot was resized, if any.
pub fn snapshot_resize(is_snapshot: bool, action: Option<&CaptureAction>, sel: Rect) -> (r: Option<(i32, i32)>)
    requires
        i32::MIN <= sel.right - sel.left <= i32::MAX,
        i32::MIN <= sel.bottom - sel.top <= i32::MAX,
    ensures
        match (r, resized_snapshot(
            is_snapshot,
            match action {
                Some(a) => Some(*a),
                None => None,
            },
            sel,
        )) {
            (Some((w, h)), Some((sw, sh))) => w == sw && h == sh,
            (None, None) => true,
            _ => false,
        },
{
    if !is_snapshot {
        return None;
    }
    let allow = match action {
        Some(CaptureAction::Snapshot { allow_resize, .. }) => *allow_resize,
        _ => false,
    };
    if !allow {
        return None;
    }
    let w = sel.right - sel.left;
    let h = sel.bottom - sel.top;
    if w > 0 && h > 0 {
        Some((w, h))
    } else {
        None
    }
}

/// Remembers a resized snapshot's size as the global snapshot size;
/// returns whether it changed (and the configuration must be saved).
pub fn sync_global_snapshot_size(global_size: &mut (i32, i32), size: (i32, i32)) -> (changed: bool)
    ensures
        *final(global_size) == size,
        changed == (*old(global_size) != size),
{
    if global_size.0 != size.0 || global_size.1 != size.1 {
        *global_size = size;
        true
    } else {
        false
    }
}

/// Remembers a resized snapshot's size in its workflow's snapshot action;
/// other actions are left alone. Returns whether it changed.
pub fn sync_action_snapshot_size(action: &mut CaptureAction, size: (i32, i32)) -> (changed: bool)
    ensures
        *final(action) == snapshot_action_resized(*old(action), size),
        changed == snapshot_size_differs(*old(action), size),
{
    match action {
        CaptureAction::Snapshot { width, height, .. } => {
            if *width != size.0 || *height != size.1 {
                *width = size.0;
                *height = size.1;
                true
            } else {
                false
            }
        },
        _ => false,
    }
}

/// Where and how a workflow's capture is delivered.
pub struct CaptureOutput {
    pub save_to_file: bool,
    pub save_to_clipboard: bool,
    pub target_folder: Option<String>,
    /// A `strftime`-style template for the file name.
    pub naming_template: String,
    /// The image format's name, such as `png` or `jpg`.
    pub format: String,
}

/// How a selection is saved: whether to write a file, into which folder
/// (the configured save folder when none), named by which template, in
/// which format.
pub struct SaveSettings {
    pub save_to_file: bool,
    pub target_folder: Option<String>,
    pub naming_template: String,
    pub format: String,
}

/// The view of an optional string.
pub open spec fn opt_str(o: Option<String>) -> Option<Seq<char>> {
    match o {
        Some(s) => Some(s@),
        None => None,
    }
}

/// `r` is how a selection is saved under the workflow output `output`:
/// as that output says, or, without one, as a PNG file named by date and
/// time in the configured folder.
pub open spec fn settings_for(r: SaveSettings, output: Option<CaptureOutput>) -> bool {
    match output {
        Some(o) => {
            &&& r.save_to_file == o.save_to_file
            &&& opt_str(r.target_folder) == opt_str(o.target_folder)
            &&& r.naming_template@ == o.naming_template@
            &&& r.format@ == o.format@
        },
        None => {
            &&& r.save_to_file
            &&& r.target_folder is None
            &&& r.naming_template@ == "%Y-%m-%d_%H-%M-%S"@
            &&& r.format@ == "png"@
        },
    }
}

/// The save settings of the running workflow's output, or, without a
/// workflow, a PNG file named by date and time in the configured folder.
pub fn save_settings(output: Option<&CaptureOutput>) -> (r: SaveSettings)
    ensures
        settings_for(
            r,
            match output {
                Some(o) => Some(*o),
                None => None,
            },
        ),
{
    match output {
        Some(o) => SaveSettings {
            save_to_file: o.save_to_file,
            target_folder: match &o.target_folder {
                Some(f) => Some(f.clone()),
                None => None,
            },
            naming_template: o.naming_template.clone(),
            format: o.format.clone(),
        },
        None => SaveSettings {
            save_to_file: true,
            target_folder: None,
            naming_template: String::from_str("%Y-%m-%d_%H-%M-%S"),
            format: String::from_str("png"),
        },
    }
}

/// The output of the manual capture started from the tray: copied to the
/// clipboard, not saved, PNG named `capture_<date>_<time>`.
pub fn tray_capture_output() -> (o: CaptureOutput)
    ensures
        !o.save_to_file,
        o.save_to_clipboard,
        o.target_folder is None,
        o.naming_template@ == "capture_%Y%m%d_%H%M%S"@,
        o.format@ == "png"@,
{
    CaptureOutput {
        save_to_file: false,
        save_to_clipboard: true,
        target_folder: None,
        naming_template: String::from_str("capture_%Y%m%d_%H%M%S"),
        format: String::from_str("png"),
    }
}

/// A configured capture workflow: what it captures and how the result is
/// delivered.
pub struct CaptureWorkflow {
    pub id: String,
    pub label: String,
    /// The hotkey that starts it (empty for none).
    pub shortcut: String,
    pub enabled: bool,
    /// Built in, not created by the user.
    pub is_system: bool,
    pub action: CaptureAction,
    pub output: CaptureOutput,
}

/// The workflow the tray's capture entry runs: `tray_manual`, "Manual
/// Capture", no hotkey, enabled, built in, a GDI selection copied to the
/// clipboard as PNG.
pub fn tray_capture_workflow() -> (w: CaptureWorkflow)
    ensures
        w.id@ == "tray_manual"@,
        w.label@ == "Manual Capture"@,
        w.shortcut@.len() == 0,
        w.enabled,
        w.is_system,
        w.action matches CaptureAction::Selection { engine } && engine@ == "gdi"@,
        !w.output.save_to_file,
        w.output.save_to_clipboard,
        w.output.target_folder is None,
        w.output.naming_template@ == "capture_%Y%m%d_%H%M%S"@,
        w.output.format@ == "png"@,
{
    let shortcut = String::new();
    CaptureWorkflow {
        id: String::from_str("tray_manual"),
        label: String::from_str("Manual Capture"),
        shortcut,
        enabled: true,
        is_system: true,
        action: tray_capture_action(),
        output: tray_capture_output(),
    }
}

/// A snapshot action with its frame size set to `size`; other actions are
/// left alone.
pub open spec fn snapshot_action_resized(a: CaptureAction, size: (i32, i32)) -> CaptureAction {
    match a {
        CaptureAction::Snapshot { engine, allow_resize, .. } => CaptureAction::Snapshot {
            engine,
            width: size.0,
            height: size.1,
            allow_resize,
        },
        _ => a,
    }
}

/// Whether setting a snapshot action's frame size to `size` changes it.
pub open spec fn snapshot_size_differs(a: CaptureAction, size: (i32, i32)) -> bool {
    match a {
        CaptureAction::Snapshot { width, height, .. } => width != size.0 || height != size.1,
        _ => false,
    }
}

/// `k` is the first workflow with the id `id`.
pub open spec fn is_first_with_id(ws: Seq<CaptureWorkflow>, id: Seq<char>, k: int) -> bool {
    &&& 0 <= k < ws.len()
    &&& ws[k].id@ == id
    &&& forall|j: int| 0 <= j < k ==> ws[j].id@ != id
}

/// No workflow has the id `id`.
pub open spec fn no_workflow_with_id(ws: Seq<CaptureWorkflow>, id: Seq<char>) -> bool {
    forall|j: int| 0 <= j < ws.len() ==> ws[j].id@ != id
}

/// A workflow with its snapshot frame size set to `size`.
pub open spec fn workflow_resized(w: CaptureWorkflow, size: (i32, i32)) -> CaptureWorkflow {
    CaptureWorkflow { action: snapshot_action_resized(w.action, size), ..w }
}

/// Whether remembering `size` for the workflow `id` changes the list.
pub open spec fn workflow_size_changes(ws: Seq<CaptureWorkflow>, id: Seq<char>, size: (i32, i32)) -> bool {
    exists|k: int| is_first_with_id(ws, id, k) && snapshot_size_differs(ws[k].action, size)
}

/// Where the first workflow with the id `id` stands, if any.
pub fn find_workflow(workflows: &Vec<CaptureWorkflow>, id: &str) -> (r: Option<usize>)
    ensures
        match r {
            Some(k) => is_first_with_id(workflows@, id@, k as int),
            None => no_workflow_with_id(workflows@, id@),
        },
{
    let target = String::from_str(id);
    let mut i: usize = 0;
    while i < workflows.len()
        invariant
            i <= workflows@.len(),
            target@ == id@,
            forall|j: int| 0 <= j < i ==> workflows@[j].id@ != id@,
        decreases workflows@.len() - i,
    {
        if workflows[i].id == target {
            return Some(i);
        }
        i = i + 1;
    }
    None
}

/// Remembers a resized snapshot's size in the first workflow with the id
/// `id`, if that workflow is a snapshot; returns whether it changed.
pub fn sync_workflow_snapshot_size(workflows: &mut Vec<CaptureWorkflow>, id: &str, size: (i32, i32)) -> (changed: bool)
    ensures
        no_workflow_with_id(old(workflows)@, id@) ==> final(workflows)@ == old(workflows)@,
        forall|k: int| #[trigger] is_first_with_id(old(workflows)@, id@, k) ==> final(workflows)@
            == old(workflows)@.update(k, workflow_resized(old(workflows)@[k], size)),
        changed == workflow_size_changes(old(workflows)@, id@, size),
{
    match find_workflow(workflows, id) {
        Some(k) => {
            let ghost old_ws = workflows@;
            let mut w = workflows.remove(k);
            let changed = sync_action_snapshot_size(&mut w.action, size);
            workflows.insert(k, w);
            proof {
                assert(workflows@ =~= old_ws.update(k as int, workflow_resized(old_ws[k as int], size)));
                assert forall|k2: int| is_first_with_id(old_ws, id@, k2) implies k2 == k as int by {
                    if k2 < k as int {
                        assert(old_ws[k2].id@ != id@);
                    } else if k2 > k as int {
                        assert(old_ws[k as int].id@ != id@);
                    }
                }
            }
            changed
        },
        None => false,
    }
}

/// Remembers a resized snapshot's size: as the global snapshot size and in
/// the first workflow with the id `id`. Returns whether either changed (and
/// the configuration must be saved).
pub fn sync_snapshot_config(global_size: &mut (i32, i32), workflows: &mut Vec<CaptureWorkflow>, id: &str, size: (i32, i32)) -> (changed: bool)
    ensures
        *final(global_size) == size,
        no_workflow_with_id(old(workflows)@, id@) ==> final(workflows)@ == old(workflows)@,
        forall|k: int| #[trigger] is_first_with_id(old(workflows)@, id@, k) ==> final(workflows)@
            == old(workflows)@.update(k, workflow_resized(old(workflows)@[k], size)),
        changed == (*old(global_size) != size || workflow_size_changes(old(workflows)@, id@, size)),
{
    let global_changed = sync_global_snapshot_size(global_size, size);
    let workflow_changed = sync_workflow_snapshot_size(workflows, id, size);
    global_changed || workflow_changed
}

} // verus!
