//! The action toolbar shown next to the capture selection: its buttons,
//! their placement around the selection, click dispatch and the paint list
//! that a renderer turns into GDI calls.
use vstd::prelude::*;
use crate::geometry::Rect;
use crate::shortcuts::{Shortcut, ShortcutView, shortcut_views, default_shortcut_views, load_shortcuts};

verus! {

/// What a toolbar button does when clicked.
#[derive(Debug)]
pub enum ToolbarCommand {
    Save,
    Cancel,
    /// Run the shortcut (plugin) with this id.
    Plugin(String),
}

/// The abstract content of a [`ToolbarCommand`].
pub enum ToolbarCommandView {
    Save,
    Cancel,
    Plugin(Seq<char>),
}

impl View for ToolbarCommand {
    type V = ToolbarCommandView;

    open spec fn view(&self) -> ToolbarCommandView {
        match self {
            ToolbarCommand::Save => ToolbarCommandView::Save,
            ToolbarCommand::Cancel => ToolbarCommandView::Cancel,
            ToolbarCommand::Plugin(id) => ToolbarCommandView::Plugin(id@),
        }
    }
}

impl Clone for ToolbarCommand {
    fn clone(&self) -> (r: Self)
        ensures
            r@ == self@,
    {
        match self {
            ToolbarCommand::Save => ToolbarCommand::Save,
            ToolbarCommand::Cancel => ToolbarCommand::Cancel,
            ToolbarCommand::Plugin(id) => ToolbarCommand::Plugin(id.clone()),
        }
    }
}

impl PartialEq for ToolbarCommand {
    fn eq(&self, other: &Self) -> (r: bool) {
        match (self, other) {
            (ToolbarCommand::Save, ToolbarCommand::Save) => true,
            (ToolbarCommand::Cancel, ToolbarCommand::Cancel) => true,
            (ToolbarCommand::Plugin(a), ToolbarCommand::Plugin(b)) => *a == *b,
            _ => false,
        }
    }
}

impl vstd::std_specs::cmp::PartialEqSpecImpl for ToolbarCommand {
    open spec fn obeys_eq_spec() -> bool {
        true
    }

    open spec fn eq_spec(&self, other: &ToolbarCommand) -> bool {
        self@ == other@
    }
}

/// A toolbar button.
pub struct ToolbarButton {
    pub command: ToolbarCommand,
    pub rect: Rect,
    pub label: String,
    pub icon: String,
    /// Fill colour (GDI 0x00BBGGRR).
    pub bg_color: u32,
    /// Fill colour while hovered.
    pub hover_color: u32,
    pub is_hovered: bool,
}

/// The abstract content of a [`ToolbarButton`].
pub struct ToolbarButtonView {
    pub command: ToolbarCommandView,
    pub rect: Rect,
    pub label: Seq<char>,
    pub icon: Seq<char>,
    pub bg_color: u32,
    pub hover_color: u32,
    pub is_hovered: bool,
}

impl View for ToolbarButton {
    type V = ToolbarButtonView;

    open spec fn view(&self) -> ToolbarButtonView {
        ToolbarButtonView {
            command: self.command@,
            rect: self.rect,
            label: self.label@,
            icon: self.icon@,
            bg_color: self.bg_color,
            hover_color: self.hover_color,
            is_hovered: self.is_hovered,
        }
    }
}

impl Clone for ToolbarButton {
    fn clone(&self) -> (r: Self)
        ensures
            r@ == self@,
    {
        ToolbarButton {
            command: self.command.clone(),
            rect: self.rect,
            label: self.label.clone(),
            icon: self.icon.clone(),
            bg_color: self.bg_color,
            hover_color: self.hover_color,
            is_hovered: self.is_hovered,
        }
    }
}

pub open spec fn button_views(b: Seq<ToolbarButton>) -> Seq<ToolbarButtonView> {
    b.map_values(|x: ToolbarButton| x@)
}

/// The toolbar attached to the capture selection.
pub struct Toolbar {
    buttons: Vec<ToolbarButton>,
    pub rect: Rect,
    visible: bool,
    margin: i32,
    button_width: i32,
    button_height: i32,
    spacing: i32,
}

/// The abstract state of a [`Toolbar`].
#[verifier::ext_equal]
pub struct ToolbarView {
    pub buttons: Seq<ToolbarButtonView>,
    pub rect: Rect,
    pub visible: bool,
}

impl View for Toolbar {
    type V = ToolbarView;

    closed spec fn view(&self) -> ToolbarView {
        ToolbarView { buttons: button_views(self.buttons@), rect: self.rect, visible: self.visible }
    }
}

/// Gap between the selection and the toolbar.
pub open spec fn toolbar_margin() -> int {
    5
}

pub open spec fn toolbar_button_width() -> int {
    80
}

pub open spec fn toolbar_button_height() -> int {
    30
}

pub open spec fn toolbar_spacing() -> int {
    5
}

/// Upper bound on the number of buttons a toolbar holds.
pub open spec fn max_toolbar_buttons() -> int {
    1000
}

pub open spec fn zero_rect() -> Rect {
    Rect { left: 0, top: 0, right: 0, bottom: 0 }
}

pub open spec fn save_button() -> ToolbarButtonView {
    ToolbarButtonView {
        command: ToolbarCommandView::Save,
        rect: zero_rect(),
        label: "Save"@,
        icon: "\u{E105}"@,
        bg_color: 0x00aaFF,
        hover_color: 0x00D7FF,
        is_hovered: false,
    }
}

pub open spec fn cancel_button() -> ToolbarButtonView {
    ToolbarButtonView {
        command: ToolbarCommandView::Cancel,
        rect: zero_rect(),
        label: "Cancel"@,
        icon: "\u{E106}"@,
        bg_color: 0x333333,
        hover_color: 0x555555,
        is_hovered: false,
    }
}

/// The grey button that runs a shortcut from the toolbar.
pub open spec fn plugin_button(s: ShortcutView) -> ToolbarButtonView {
    ToolbarButtonView {
        command: ToolbarCommandView::Plugin(s.id),
        rect: zero_rect(),
        label: s.label,
        icon: s.icon,
        bg_color: 0x888888,
        hover_color: 0xAAAAAA,
        is_hovered: false,
    }
}

/// Each enabled shortcut, in order, is put in front of the buttons so far.
pub open spec fn with_plugin_buttons(base: Seq<ToolbarButtonView>, s: Seq<ShortcutView>) -> Seq<
    ToolbarButtonView,
>
    decreases s.len(),
{
    if s.len() == 0 {
        base
    } else {
        let prev = with_plugin_buttons(base, s.drop_last());
        if s.last().enabled {
            seq![plugin_button(s.last())] + prev
        } else {
            prev
        }
    }
}

/// The buttons of a new toolbar.
pub open spec fn initial_buttons() -> Seq<ToolbarButtonView> {
    with_plugin_buttons(seq![save_button(), cancel_button()], default_shortcut_views())
}

/// Width of a row of `n` buttons.
pub open spec fn total_width(n: int) -> int {
    n * toolbar_button_width() + (n - 1) * toolbar_spacing()
}

/// Horizontal placement: right-aligned with the selection; left-aligned if
/// that leaves the screen; then clamped into `[0, window_width]`.
pub open spec fn layout_x(sel: Rect, window_width: int, total: int) -> int {
    let x0 = sel.right - total;
    let x1 = if x0 < 0 { sel.left as int } else { x0 };
    let x2 = if x1 < 0 { 0 } else { x1 };
    if x2 + total > window_width { window_width - total } else { x2 }
}

/// Vertical placement: below the selection; above it if that leaves the
/// window; inside its bottom edge if above leaves the window too; at the
/// window top as the last resort.
pub open spec fn layout_y(sel: Rect, window_height: int) -> int {
    let h = toolbar_button_height();
    let m = toolbar_margin();
    let below = sel.bottom + m;
    if below + h > window_height {
        let above = sel.top - h - m;
        if above < 0 {
            let inside = sel.bottom - h - m;
            if inside < 0 { 0 } else { inside }
        } else {
            above
        }
    } else {
        below
    }
}

/// Whether the toolbar shows for this selection (both sides longer than 5).
pub open spec fn shows_for(sel: Rect) -> bool {
    sel.right - sel.left > 5 && sel.bottom - sel.top > 5
}

/// Rectangle of the `k`-th button of a row starting at `(x, y)`.
pub open spec fn button_rect(x: int, y: int, k: int) -> Rect {
    Rect {
        left: (x + k * (toolbar_button_width() + toolbar_spacing())) as i32,
        top: y as i32,
        right: (x + k * (toolbar_button_width() + toolbar_spacing()) + toolbar_button_width()) as i32,
        bottom: (y + toolbar_button_height()) as i32,
    }
}

/// Whether the placed toolbar's coordinates are representable.
pub open spec fn layout_fits(sel: Rect, window_width: int, window_height: int, n: int) -> bool {
    shows_for(sel) ==> {
        let x = layout_x(sel, window_width, total_width(n));
        let y = layout_y(sel, window_height);
        &&& i32::MIN <= x && x + total_width(n) <= i32::MAX
        &&& i32::MIN <= y && y + toolbar_button_height() <= i32::MAX
    }
}

/// The toolbar after laying it out against `sel`.
pub open spec fn laid_out(t: ToolbarView, sel: Rect, window_width: int, window_height: int) -> ToolbarView {
    if !shows_for(sel) {
        ToolbarView { visible: false, ..t }
    } else {
        let n = t.buttons.len() as int;
        let x = layout_x(sel, window_width, total_width(n));
        let y = layout_y(sel, window_height);
        ToolbarView {
            buttons: Seq::new(
                t.buttons.len(),
                |k: int| ToolbarButtonView { rect: button_rect(x, y, k), ..t.buttons[k] },
            ),
            rect: Rect {
                left: x as i32,
                top: y as i32,
                right: (x + total_width(n)) as i32,
                bottom: (y + toolbar_button_height()) as i32,
            },
            visible: true,
        }
    }
}

/// The command of the first button whose (closed) rectangle holds the point.
pub open spec fn first_hit(buttons: Seq<ToolbarButtonView>, x: int, y: int) -> Option<
    ToolbarCommandView,
>
    decreases buttons.len(),
{
    if buttons.len() == 0 {
        None
    } else if buttons[0].rect.contains_closed(x, y) {
        Some(buttons[0].command)
    } else {
        first_hit(buttons.drop_first(), x, y)
    }
}

pub open spec fn command_view_opt(c: Option<ToolbarCommand>) -> Option<ToolbarCommandView> {
    match c {
        Some(c) => Some(c@),
        None => None,
    }
}

pub open spec fn click_result(t: ToolbarView, x: int, y: int) -> Option<ToolbarCommandView> {
    if !t.visible {
        None
    } else {
        first_hit(t.buttons, x, y)
    }
}

impl Toolbar {
    /// Internal consistency: fixed metrics and a bounded number of buttons.
    pub closed spec fn wf(&self) -> bool {
        &&& self.margin == toolbar_margin()
        &&& self.button_width == toolbar_button_width()
        &&& self.button_height == toolbar_button_height()
        &&& self.spacing == toolbar_spacing()
        &&& 1 <= self.buttons@.len() <= max_toolbar_buttons()
        &&& forall|k: int|
            0 <= k < self.buttons@.len() ==> #[trigger] self.buttons@[k].rect.left <= i32::MAX
                - toolbar_button_width() && self.buttons@[k].rect.top <= i32::MAX
                - toolbar_button_height()
    }

    /// A hidden toolbar with Save and Cancel, preceded by one button for each
    /// enabled shortcut (the last enabled shortcut first).
    pub fn new() -> (t: Self)
        ensures
            t.wf(),
            t@.buttons == initial_buttons(),
            t@.rect == zero_rect(),
            !t@.visible,
    {
        let mut buttons: Vec<ToolbarButton> = Vec::new();
        buttons.push(
            ToolbarButton {
                command: ToolbarCommand::Save,
                rect: Rect::default(),
                label: String::from_str("Save"),
                icon: String::from_str("\u{E105}"),
                bg_color: 0x00aaFF,
                hover_color: 0x00D7FF,
                is_hovered: false,
            },
        );
        buttons.push(
            ToolbarButton {
                command: ToolbarCommand::Cancel,
                rect: Rect::default(),
                label: String::from_str("Cancel"),
                icon: String::from_str("\u{E106}"),
                bg_color: 0x333333,
                hover_color: 0x555555,
                is_hovered: false,
            },
        );
        let ghost base = seq![save_button(), cancel_button()];
        assert(button_views(buttons@) =~= base);

        let shortcuts = load_shortcuts();
        let ghost sv = shortcut_views(shortcuts@);
        let mut i: usize = 0;
        while i < shortcuts.len()
            invariant
                0 <= i <= shortcuts.len(),
                sv == shortcut_views(shortcuts@),
                sv == default_shortcut_views(),
                button_views(buttons@) == with_plugin_buttons(base, sv.take(i as int)),
                2 <= buttons@.len() <= 2 + i,
                forall|k: int| 0 <= k < buttons@.len() ==> (#[trigger] buttons@[k]).rect == zero_rect(),
            decreases shortcuts.len() - i,
        {
            assert(sv.take(i + 1).drop_last() =~= sv.take(i as int));
            assert(sv.take(i + 1).last() == sv[i as int]);
            assert(sv[i as int] == shortcuts@[i as int]@);
            if shortcuts[i].enabled {
                let bgr: u32 = 0x888888;
                let hover: u32 = bgr | 0x222222;
                assert(0x888888u32 | 0x222222u32 == 0xAAAAAAu32) by (bit_vector);
                let b = ToolbarButton {
                    command: ToolbarCommand::Plugin(shortcuts[i].id.clone()),
                    rect: Rect::default(),
                    label: shortcuts[i].label.clone(),
                    icon: shortcuts[i].icon.clone(),
                    bg_color: bgr,
                    hover_color: hover,
                    is_hovered: false,
                };
                let ghost before = button_views(buttons@);
                let ghost before_raw = buttons@;
                buttons.insert(0, b);
                assert forall|k: int| 1 <= k < buttons@.len() implies buttons@[k] == before_raw[k - 1] by {}
                assert(button_views(buttons@) =~= seq![plugin_button(sv[i as int])] + before);
            }
            i = i + 1;
        }
        assert(sv.take(sv.len() as int) =~= sv);
        Toolbar {
            buttons,
            rect: Rect::default(),
            visible: false,
            margin: 5,
            button_width: 80,
            button_height: 30,
            spacing: 5,
        }
    }
}


/// One filled button with its caption, as the renderer draws it.
pub struct ToolbarPaint {
    pub rect: Rect,
    pub fill_color: u32,
    pub text_x: i32,
    pub text_y: i32,
    pub text_color: u32,
    pub label: String,
}

pub struct ToolbarPaintView {
    pub rect: Rect,
    pub fill_color: u32,
    pub text_x: int,
    pub text_y: int,
    pub text_color: u32,
    pub label: Seq<char>,
}

impl View for ToolbarPaint {
    type V = ToolbarPaintView;

    open spec fn view(&self) -> ToolbarPaintView {
        ToolbarPaintView {
            rect: self.rect,
            fill_color: self.fill_color,
            text_x: self.text_x as int,
            text_y: self.text_y as int,
            text_color: self.text_color,
            label: self.label@,
        }
    }
}

/// A button is filled with its hover colour while hovered, its background
/// colour otherwise, and captioned in white 5 px from its top-left corner.
pub open spec fn button_paint(b: ToolbarButtonView) -> ToolbarPaintView {
    ToolbarPaintView {
        rect: b.rect,
        fill_color: if b.is_hovered { b.hover_color } else { b.bg_color },
        text_x: b.rect.left + 5,
        text_y: b.rect.top + 5,
        text_color: 0xFFFFFF,
        label: b.label,
    }
}

/// What is painted for the toolbar: nothing while hidden.
pub open spec fn toolbar_paints(t: ToolbarView) -> Seq<ToolbarPaintView> {
    if !t.visible {
        Seq::empty()
    } else {
        t.buttons.map_values(|b: ToolbarButtonView| button_paint(b))
    }
}

/// Everything the renderer does for a visible toolbar: the background
/// mode, the font, and the button paints in order.
pub struct ToolbarDrawing {
    /// Text is drawn without filling its background.
    pub transparent_background: bool,
    pub font_family: String,
    /// Font height in pixels.
    pub font_height: i32,
    pub font_weight: i32,
    pub paints: Vec<ToolbarPaint>,
}

/// `d` is how the toolbar `t` is painted: nothing while hidden; otherwise
/// a transparent background, 14 px "Segoe UI" of weight 400, and the
/// button paints of `toolbar_paints`.
pub open spec fn is_toolbar_drawing(d: Option<ToolbarDrawing>, t: ToolbarView) -> bool {
    match d {
        None => !t.visible,
        Some(d) => {
            &&& t.visible
            &&& d.transparent_background
            &&& d.font_family@ == "Segoe UI"@
            &&& d.font_height == 14
            &&& d.font_weight == 400
            &&& d.paints@.map_values(|p: ToolbarPaint| p@) == toolbar_paints(t)
        },
    }
}

impl Toolbar {
    /// Shows the toolbar for a selection larger than 5x5 and places its
    /// button row next to it inside the window; hides it otherwise.
    pub fn update_layout(&mut self, selection: Rect, window_width: i32, window_height: i32)
        requires
            old(self).wf(),
            layout_fits(selection, window_width as int, window_height as int, old(self)@.buttons.len() as int),
        ensures
            final(self).wf(),
            final(self)@ == laid_out(old(self)@, selection, window_width as int, window_height as int),
    {
        let width = selection.right as i64 - selection.left as i64;
        let height = selection.bottom as i64 - selection.top as i64;
        self.visible = width > 5 && height > 5;

        if !self.visible {
            return;
        }

        let n = self.buttons.len() as i64;
        let bw = self.button_width as i64;
        let bh = self.button_height as i64;
        let sp = self.spacing as i64;
        let margin = self.margin as i64;
        let row_width = n * bw + (n - 1) * sp;
        assert(row_width == total_width(n as int));

        // Default: right-aligned with the selection
        let mut x = selection.right as i64 - row_width;
        // Too far left: align with the selection's left edge
        if x < 0 {
            x = selection.left as i64;
        }
        // Keep on screen
        if x < 0 {
            x = 0;
        }
        if x + row_width > window_width as i64 {
            x = window_width as i64 - row_width;
        }

        // Default: below the selection
        let mut y = selection.bottom as i64 + margin;
        if y + bh > window_height as i64 {
            // above it
            y = selection.top as i64 - bh - margin;
            if y < 0 {
                // inside its bottom edge
                y = selection.bottom as i64 - bh - margin;
                if y < 0 {
                    // top of the window
                    y = 0;
                }
            }
        }
        assert(x == layout_x(selection, window_width as int, total_width(n as int)));
        assert(y == layout_y(selection, window_height as int));

        self.rect = Rect {
            left: x as i32,
            top: y as i32,
            right: (x + row_width) as i32,
            bottom: (y + bh) as i32,
        };

        let ghost old_views = button_views(self.buttons@);
        let mut curr_x = x;
        let mut k: usize = 0;
        while k < self.buttons.len()
            invariant
                self.margin == toolbar_margin(),
                self.button_width == toolbar_button_width(),
                self.button_height == toolbar_button_height(),
                self.spacing == toolbar_spacing(),
                self.buttons@.len() == n,
                self.visible,
                self.rect == (Rect {
                    left: x as i32,
                    top: y as i32,
                    right: (x + total_width(n as int)) as i32,
                    bottom: (y + 30) as i32,
                }),
                old_views == button_views(old(self).buttons@),
                old_views.len() == n,
                1 <= n <= max_toolbar_buttons(),
                bw == 80,
                bh == 30,
                sp == 5,
                0 <= k <= n,
                curr_x == x + k * 85,
                i32::MIN <= x,
                x + total_width(n as int) <= i32::MAX,
                i32::MIN <= y,
                y + 30 <= i32::MAX,
                forall|j: int|
                    0 <= j < k ==> #[trigger] button_views(self.buttons@)[j]
                        == (ToolbarButtonView { rect: button_rect(x as int, y as int, j), ..old_views[j] }),
                forall|j: int|
                    k <= j < n ==> #[trigger] button_views(self.buttons@)[j] == old_views[j],
                forall|j: int|
                    0 <= j < n ==> #[trigger] self.buttons@[j].rect.left <= i32::MAX
                        - toolbar_button_width() && self.buttons@[j].rect.top <= i32::MAX
                        - toolbar_button_height(),
            decreases n - k,
        {
            let ghost before = self.buttons@;
            assert(button_views(self.buttons@)[k as int] == self.buttons@[k as int]@);
            let mut b = self.buttons[k].clone();
            b.rect = Rect {
                left: curr_x as i32,
                top: y as i32,
                right: (curr_x + bw) as i32,
                bottom: (y + bh) as i32,
            };
            assert(b@ == (ToolbarButtonView { rect: button_rect(x as int, y as int, k as int), ..old_views[k as int] }));
            self.buttons.set(k, b);
            assert forall|j: int| 0 <= j < n && j != k implies #[trigger] self.buttons@[j] == before[j] by {}
            assert forall|j: int| 0 <= j < n && j != k implies #[trigger] button_views(self.buttons@)[j] == button_views(before)[j] by {}
            assert(button_views(self.buttons@)[k as int] == b@);
            curr_x = curr_x + bw + sp;
            k = k + 1;
        }
        assert(button_views(self.buttons@) =~= Seq::new(
            old_views.len(),
            |j: int| ToolbarButtonView { rect: button_rect(x as int, y as int, j), ..old_views[j] },
        ));
        assert(self@ =~= laid_out(old(self)@, selection, window_width as int, window_height as int));
    }

    /// The command of the first button under `(x, y)`, while the toolbar is
    /// shown.
    pub fn handle_click(&self, x: i32, y: i32) -> (r: Option<ToolbarCommand>)
        ensures
            command_view_opt(r) == click_result(self@, x as int, y as int),
    {
        if !self.visible {
            return None;
        }
        let ghost bv = button_views(self.buttons@);
        let mut i: usize = 0;
        assert(bv.skip(0) =~= bv);
        while i < self.buttons.len()
            invariant
                0 <= i <= self.buttons@.len(),
                self.visible,
                bv == button_views(self.buttons@),
                first_hit(bv, x as int, y as int) == first_hit(bv.skip(i as int), x as int, y as int),
            decreases self.buttons@.len() - i,
        {
            assert(bv.skip(i as int).drop_first() =~= bv.skip(i + 1));
            assert(bv.skip(i as int)[0] == self.buttons@[i as int]@);
            let btn = &self.buttons[i];
            if x >= btn.rect.left && x <= btn.rect.right && y >= btn.rect.top && y <= btn.rect.bottom {
                assert(first_hit(bv.skip(i as int), x as int, y as int) == Some(bv[i as int].command));
                let c = btn.command.clone();
                assert(c@ == bv[i as int].command);
                return Some(c);
            }
            i = i + 1;
        }
        None
    }

    /// How to paint the toolbar: nothing while it is hidden; otherwise text
    /// on a transparent background in 14 px "Segoe UI" of weight 400, and
    /// one filled, captioned rectangle per button.
    pub fn draw(&self) -> (d: Option<ToolbarDrawing>)
        requires
            self.wf(),
        ensures
            is_toolbar_drawing(d, self@),
    {
        if !self.visible {
            return None;
        }
        let mut paints: Vec<ToolbarPaint> = Vec::new();
        let ghost bv = button_views(self.buttons@);
        let mut i: usize = 0;
        while i < self.buttons.len()
            invariant
                self.wf(),
                self.visible,
                0 <= i <= self.buttons@.len(),
                bv == button_views(self.buttons@),
                paints@.map_values(|p: ToolbarPaint| p@) == bv.take(i as int).map_values(
                    |b: ToolbarButtonView| button_paint(b),
                ),
            decreases self.buttons@.len() - i,
        {
            let btn = &self.buttons[i];
            assert(self.buttons@[i as int].rect.left <= i32::MAX - toolbar_button_width());
            let color = if btn.is_hovered { btn.hover_color } else { btn.bg_color };
            let p = ToolbarPaint {
                rect: btn.rect,
                fill_color: color,
                text_x: btn.rect.left + 5,
                text_y: btn.rect.top + 5,
                text_color: 0xFFFFFF,
                label: btn.label.clone(),
            };
            let ghost before = paints@;
            paints.push(p);
            assert(bv.take(i + 1) =~= bv.take(i as int).push(bv[i as int]));
            assert(paints@.map_values(|p: ToolbarPaint| p@) =~= before.map_values(|p: ToolbarPaint| p@).push(button_paint(bv[i as int])));
            assert(bv.take(i + 1).map_values(|b: ToolbarButtonView| button_paint(b)) =~= bv.take(i as int).map_values(|b: ToolbarButtonView| button_paint(b)).push(button_paint(bv[i as int])));
            i = i + 1;
        }
        assert(bv.take(bv.len() as int) =~= bv);
        Some(ToolbarDrawing {
            transparent_background: true,
            font_family: String::from_str("Segoe UI"),
            font_height: 14,
            font_weight: 400,
            paints,
        })
    }
}

proof fn lemma_first_hit_at(bs: Seq<ToolbarButtonView>, k: int, x: int, y: int)
    requires
        0 <= k < bs.len(),
        bs[k].rect.contains_closed(x, y),
        forall|j: int| 0 <= j < k ==> !(#[trigger] bs[j]).rect.contains_closed(x, y),
    ensures
        first_hit(bs, x, y) == Some(bs[k].command),
    decreases k,
{
    if k > 0 {
        let rest = bs.drop_first();
        assert forall|j: int| 0 <= j < k - 1 implies !(#[trigger] rest[j]).rect.contains_closed(x, y) by {
            assert(rest[j] == bs[j + 1]);
        }
        lemma_first_hit_at(rest, k - 1, x, y);
    }
}

/// A laid-out toolbar is one row of equally sized buttons, 5 px
/// apart, that exactly spans the toolbar rectangle, placed below, above or
/// inside the selection.
pub proof fn lemma_layout_is_button_row(t: ToolbarView, sel: Rect, window_width: int, window_height: int)
    requires
        shows_for(sel),
        t.buttons.len() >= 1,
        layout_fits(sel, window_width, window_height, t.buttons.len() as int),
    ensures
        ({
            let u = laid_out(t, sel, window_width, window_height);
            &&& u.visible
            &&& u.buttons.len() == t.buttons.len()
            &&& u.rect.right - u.rect.left == total_width(t.buttons.len() as int)
            &&& u.rect.bottom - u.rect.top == toolbar_button_height()
            &&& u.buttons[0].rect.left == u.rect.left
            &&& u.buttons[u.buttons.len() - 1].rect.right == u.rect.right
            &&& forall|k: int| 0 <= k < u.buttons.len() ==> {
                &&& (#[trigger] u.buttons[k]).rect.left == u.rect.left + k * 85
                &&& u.buttons[k].rect.right - u.buttons[k].rect.left == toolbar_button_width()
                &&& u.buttons[k].rect.top == u.rect.top
                &&& u.buttons[k].rect.bottom == u.rect.bottom
                &&& u.buttons[k].command == t.buttons[k].command
                &&& u.buttons[k].label == t.buttons[k].label
            }
        }),
{
}

/// When the window is wide enough for the row, the laid-out toolbar
/// lies horizontally inside the window.
pub proof fn lemma_layout_stays_in_window(t: ToolbarView, sel: Rect, window_width: int, window_height: int)
    requires
        shows_for(sel),
        t.buttons.len() >= 1,
        total_width(t.buttons.len() as int) <= window_width,
        layout_fits(sel, window_width, window_height, t.buttons.len() as int),
    ensures
        0 <= laid_out(t, sel, window_width, window_height).rect.left,
        laid_out(t, sel, window_width, window_height).rect.right <= window_width,
{
}

/// When the row does not fit below the selection it is never placed
/// above the top of the window.
pub proof fn lemma_layout_fallback_not_above_window(t: ToolbarView, sel: Rect, window_width: int, window_height: int)
    requires
        shows_for(sel),
        t.buttons.len() >= 1,
        sel.bottom + toolbar_margin() + toolbar_button_height() > window_height,
        layout_fits(sel, window_width, window_height, t.buttons.len() as int),
    ensures
        laid_out(t, sel, window_width, window_height).rect.top >= 0,
{
}

/// After layout, a click inside a button's rectangle runs that
/// button's command.
pub proof fn lemma_click_hits_laid_out_button(
    t: ToolbarView,
    sel: Rect,
    window_width: int,
    window_height: int,
    k: int,
    x: int,
    y: int,
)
    requires
        shows_for(sel),
        t.buttons.len() >= 1,
        layout_fits(sel, window_width, window_height, t.buttons.len() as int),
        0 <= k < t.buttons.len(),
        laid_out(t, sel, window_width, window_height).buttons[k].rect.contains_closed(x, y),
    ensures
        click_result(laid_out(t, sel, window_width, window_height), x, y) == Some(t.buttons[k].command),
{
    let u = laid_out(t, sel, window_width, window_height);
    assert forall|j: int| 0 <= j < k implies !(#[trigger] u.buttons[j]).rect.contains_closed(x, y) by {
        assert(u.buttons[j].rect.right < u.buttons[k].rect.left);
    }
    lemma_first_hit_at(u.buttons, k, x, y);
}

/// A selection of at most 5 px in either direction hides the toolbar:
/// clicks do nothing and nothing is painted.
pub proof fn lemma_small_selection_hides_toolbar(t: ToolbarView, sel: Rect, window_width: int, window_height: int, x: int, y: int)
    requires
        !shows_for(sel),
    ensures
        click_result(laid_out(t, sel, window_width, window_height), x, y) is None,
        toolbar_paints(laid_out(t, sel, window_width, window_height)).len() == 0,
{
}

/// Paints the toolbar (see [`Toolbar::draw`]).
pub fn draw_toolbar(toolbar: &Toolbar) -> (d: Option<ToolbarDrawing>)
    requires
        toolbar.wf(),
    ensures
        is_toolbar_drawing(d, toolbar@),
{
    toolbar.draw()
}

} // verus!
