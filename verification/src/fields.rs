//! The fields a widget's configuration actually sets, by name, so that they
//! can be held against the fields its kind accepts.
use vstd::prelude::*;

use crate::widget::{
    allowed_field_names, strs_view, WidgetKind, BoxProps, ButtonProps, ClockProps, DockProps, ImageProps, LabelProps, ListProps,
    PopoverProps, ProgressProps, RevealerProps, ScrollProps, SliderProps, TrayProps, WidgetBase,
    WidgetProps, WorkspacesProps,
};

verus! {

/// The name when the field is set, nothing otherwise.
pub open spec fn pick(set: bool, name: Seq<char>) -> Seq<Seq<char>> {
    if set {
        seq![name]
    } else {
        seq![]
    }
}

fn push_if(v: &mut Vec<&'static str>, set: bool, name: &'static str)
    ensures
        strs_view(final(v)@) == strs_view(old(v)@) + pick(set, name@),
{
    if set {
        v.push(name);
        assert(strs_view(v@) =~= strs_view(old(v)@) + pick(set, name@));
    } else {
        assert(strs_view(v@) =~= strs_view(old(v)@) + pick(set, name@));
    }
}

/// The base fields that are set, in the order of the configuration language.
pub open spec fn base_fields(b: WidgetBase) -> Seq<Seq<char>> {
    seq![] + pick(b.output is Some, "output"@) + pick(b.visible is Some, "visible"@) + pick(
        b.visible_bind is Some,
        "visible_bind"@,
    ) + pick(b.width is Some, "width"@) + pick(b.height is Some, "height"@) + pick(
        b.hexpand is Some,
        "hexpand"@,
    ) + pick(b.vexpand is Some, "vexpand"@) + pick(b.halign is Some, "halign"@) + pick(
        b.valign is Some,
        "valign"@,
    ) + pick(b.class_bind is Some, "class_bind"@) + pick(b.classes.len() > 0, "classes"@) + pick(
        b.children.len() > 0,
        "children"@,
    )
}

impl WidgetBase {
    /// The names of the base fields that are set.
    pub fn present_fields(&self) -> (r: Vec<&'static str>)
        ensures
            strs_view(r@) == base_fields(*self),
    {
        let mut f: Vec<&'static str> = Vec::new();
        assert(strs_view(f@) =~= seq![]);
        push_if(&mut f, self.output.is_some(), "output");
        push_if(&mut f, self.visible.is_some(), "visible");
        push_if(&mut f, self.visible_bind.is_some(), "visible_bind");
        push_if(&mut f, self.width.is_some(), "width");
        push_if(&mut f, self.height.is_some(), "height");
        push_if(&mut f, self.hexpand.is_some(), "hexpand");
        push_if(&mut f, self.vexpand.is_some(), "vexpand");
        push_if(&mut f, self.halign.is_some(), "halign");
        push_if(&mut f, self.valign.is_some(), "valign");
        push_if(&mut f, self.class_bind.is_some(), "class_bind");
        push_if(&mut f, !self.classes.is_empty(), "classes");
        push_if(&mut f, !self.children.is_empty(), "children");
        f
    }
}

pub open spec fn box_fields(b: BoxProps) -> Seq<Seq<char>> {
    seq![] + pick(
            b.spacing is Some,
            "spacing"@,
        )
}

pub open spec fn revealer_fields(r: RevealerProps) -> Seq<Seq<char>> {
    seq![] + pick(r.reveal is Some, "reveal"@) + pick(
            r.reveal_bind is Some,
            "reveal_bind"@,
        ) + pick(r.transition is Some, "transition"@) + pick(r.duration is Some, "duration"@)
}

pub open spec fn scroll_fields(s: ScrollProps) -> Seq<Seq<char>> {
    seq![] + pick(s.h_policy is Some, "h_policy"@) + pick(
            s.v_policy is Some,
            "v_policy"@,
        ) + pick(s.overlay_scrolling is Some, "overlay_scrolling"@) + pick(
            s.kinetic_scrolling is Some,
            "kinetic_scrolling"@,
        ) + pick(s.propagate_natural_width is Some, "propagate_natural_width"@) + pick(
            s.propagate_natural_height is Some,
            "propagate_natural_height"@,
        ) + pick(s.min_content_width is Some, "min_content_width"@) + pick(
            s.min_content_height is Some,
            "min_content_height"@,
        )
}

pub open spec fn label_fields(l: LabelProps) -> Seq<Seq<char>> {
    seq![] + pick(l.text is Some, "text"@) + pick(
            l.bind is Some,
            "bind"@,
        ) + pick(l.binds.len() > 0, "binds"@) + pick(
            l.on_click.left is Some || l.on_click.middle is Some || l.on_click.right is Some
                || l.on_click.wheel_up is Some || l.on_click.wheel_down is Some,
            "on_click"@,
        ) + pick(l.format is Some, "format"@) + pick(l.format_states.len() > 0, "format_states"@)
            + pick(l.rules.len() > 0, "rules"@) + pick(l.max_chars is Some, "max_chars"@) + pick(
            l.ellipsize is Some,
            "ellipsize"@,
        )
}

pub open spec fn button_fields(b: ButtonProps) -> Seq<Seq<char>> {
    seq![] + pick(b.text is Some, "text"@) + pick(
            b.bind is Some,
            "bind"@,
        ) + pick(
            b.on_click.left is Some || b.on_click.middle is Some || b.on_click.right is Some
                || b.on_click.wheel_up is Some || b.on_click.wheel_down is Some,
            "on_click"@,
        ) + pick(b.format is Some, "format"@) + pick(b.format_states.len() > 0, "format_states"@)
            + pick(b.angle is Some, "angle"@)
}

pub open spec fn clock_fields(c: ClockProps) -> Seq<Seq<char>> {
    seq![] + pick(c.format is Some, "format"@) + pick(
            c.display_format is Some,
            "display_format"@,
        ) + pick(c.format_states.len() > 0, "format_states"@) + pick(
            c.interval is Some,
            "interval"@,
        ) + pick(c.bind is Some, "bind"@) + pick(c.spacing is Some, "spacing"@) + pick(
            c.angle is Some,
            "angle"@,
        )
}

pub open spec fn workspaces_fields(w: WorkspacesProps) -> Seq<Seq<char>> {
    workspaces_fields_head(w) + workspaces_fields_tail(w)
}

/// The workspace fields up to `format_icons`.
pub open spec fn workspaces_fields_head(w: WorkspacesProps) -> Seq<Seq<char>> {
    seq![] + pick(w.count is Some, "count"@) + pick(w.active_only is Some, "active_only"@) + pick(
        w.all_outputs is Some,
        "all_outputs"@,
    ) + pick(w.output is Some, "output"@) + pick(w.orientation is Some, "orientation"@) + pick(
        w.spacing is Some,
        "spacing"@,
    ) + pick(w.format is Some, "format"@) + pick(w.format_states.len() > 0, "format_states"@)
        + pick(w.labels.len() > 0, "labels"@) + pick(w.state_labels.len() > 0, "state_labels"@)
        + pick(w.format_icons.len() > 0, "format_icons"@)
}

/// The workspace fields after `format_icons`.
pub open spec fn workspaces_fields_tail(w: WorkspacesProps) -> Seq<Seq<char>> {
    seq![] + pick(w.show_clients is Some, "show_clients"@) + pick(
        w.clients_max_items is Some,
        "clients_max_items"@,
    ) + pick(w.clients_icon_size is Some, "clients_icon_size"@) + pick(
        w.clients_rules.len() > 0,
        "clients_rules"@,
    ) + pick(w.clients_use_glyphs is Some, "clients_use_glyphs"@) + pick(
        w.clients_glyph_fallback is Some,
        "clients_glyph_fallback"@,
    ) + pick(w.clients_spacing is Some, "clients_spacing"@) + pick(w.angle is Some, "angle"@)
}

pub open spec fn dock_fields(d: DockProps) -> Seq<Seq<char>> {
    seq![] + pick(d.orientation is Some, "orientation"@) + pick(
            d.output is Some,
            "output"@,
        ) + pick(d.all_outputs is Some, "all_outputs"@) + pick(d.spacing is Some, "spacing"@)
            + pick(d.max_items is Some, "max_items"@) + pick(d.format is Some, "format"@) + pick(
            d.format_states.len() > 0,
            "format_states"@,
        ) + pick(d.image_map.len() > 0, "image_map"@) + pick(d.icon_size is Some, "icon_size"@)
            + pick(
            d.on_click.left is Some || d.on_click.middle is Some || d.on_click.right is Some
                || d.on_click.wheel_up is Some || d.on_click.wheel_down is Some,
            "on_click"@,
        ) + pick(d.angle is Some, "angle"@)
}

pub open spec fn tray_fields(t: TrayProps) -> Seq<Seq<char>> {
    seq![] + pick(t.orientation is Some, "orientation"@) + pick(
            t.spacing is Some,
            "spacing"@,
        ) + pick(t.icon_size is Some, "icon_size"@) + pick(t.max_items is Some, "max_items"@)
            + pick(t.show_passive is Some, "show_passive"@) + pick(
            t.hide_when_empty is Some,
            "hide_when_empty"@,
        )
}

pub open spec fn image_fields(i: ImageProps) -> Seq<Seq<char>> {
    seq![] + pick(i.path is Some, "path"@) + pick(
            i.bind is Some,
            "bind"@,
        ) + pick(i.fit is Some, "fit"@) + pick(i.can_shrink is Some, "can_shrink"@) + pick(
            i.on_click.left is Some || i.on_click.middle is Some || i.on_click.right is Some
                || i.on_click.wheel_up is Some || i.on_click.wheel_down is Some,
            "on_click"@,
        )
}

pub open spec fn progress_fields(p: ProgressProps) -> Seq<Seq<char>> {
    seq![] + pick(p.bind is Some, "bind"@) + pick(
            p.value is Some,
            "value"@,
        ) + pick(p.min is Some, "min"@) + pick(p.max is Some, "max"@) + pick(
            p.inverted is Some,
            "inverted"@,
        )
}

pub open spec fn slider_fields(s: SliderProps) -> Seq<Seq<char>> {
    seq![] + pick(s.bind is Some, "bind"@) + pick(
            s.value is Some,
            "value"@,
        ) + pick(s.min is Some, "min"@) + pick(s.max is Some, "max"@) + pick(
            s.step is Some,
            "step"@,
        ) + pick(s.scroll_step is Some, "scroll_step"@) + pick(
            s.orientation is Some,
            "orientation"@,
        ) + pick(s.inverted is Some, "inverted"@) + pick(s.draw_value is Some, "draw_value"@)
            + pick(s.digits is Some, "digits"@)
}

pub open spec fn list_fields(l: ListProps) -> Seq<Seq<char>> {
    seq![] + pick(l.bind is Some, "bind"@) + pick(
            l.count is Some,
            "count"@,
        ) + pick(l.orientation is Some, "orientation"@) + pick(l.spacing is Some, "spacing"@)
}

pub open spec fn popover_fields(p: PopoverProps) -> Seq<Seq<char>> {
    seq![] + pick(p.position is Some, "position"@) + pick(
            p.autohide is Some,
            "autohide"@,
        ) + pick(p.has_arrow is Some, "has_arrow"@)
}

/// The kind-specific fields that are set, in the order of the configuration
/// language.
pub open spec fn props_fields(p: WidgetProps) -> Seq<Seq<char>> {
    match p {
        WidgetProps::HBox(b) | WidgetProps::VBox(b) | WidgetProps::CenterBox(b) => box_fields(b),
        WidgetProps::Revealer(r) => revealer_fields(r),
        WidgetProps::Scroll(s) => scroll_fields(s),
        WidgetProps::Label(l) => label_fields(l),
        WidgetProps::Button(b) => button_fields(b),
        WidgetProps::Clock(c) => clock_fields(c),
        WidgetProps::Workspaces(w) => workspaces_fields(w),
        WidgetProps::Dock(d) => dock_fields(d),
        WidgetProps::Tray(t) => tray_fields(t),
        WidgetProps::Image(i) => image_fields(i),
        WidgetProps::Progress(p) => progress_fields(p),
        WidgetProps::Slider(s) => slider_fields(s),
        WidgetProps::List(l) => list_fields(l),
        WidgetProps::Popover(p) => popover_fields(p),
        WidgetProps::Overlay(_) => seq![],
    }
}

fn box_fields_of(b: &BoxProps) -> (out: Vec<&'static str>)
    ensures
        strs_view(out@) == box_fields(*b),
{
    let mut f: Vec<&'static str> = Vec::new();
    assert(strs_view(f@) =~= seq![]);
        push_if(&mut f, b.spacing.is_some(), "spacing");
    f
}

fn revealer_fields_of(r: &RevealerProps) -> (out: Vec<&'static str>)
    ensures
        strs_view(out@) == revealer_fields(*r),
{
    let mut f: Vec<&'static str> = Vec::new();
    assert(strs_view(f@) =~= seq![]);
        push_if(&mut f, r.reveal.is_some(), "reveal");
        push_if(&mut f, r.reveal_bind.is_some(), "reveal_bind");
        push_if(&mut f, r.transition.is_some(), "transition");
        push_if(&mut f, r.duration.is_some(), "duration");
    f
}

fn scroll_fields_of(s: &ScrollProps) -> (out: Vec<&'static str>)
    ensures
        strs_view(out@) == scroll_fields(*s),
{
    let mut f: Vec<&'static str> = Vec::new();
    assert(strs_view(f@) =~= seq![]);
        push_if(&mut f, s.h_policy.is_some(), "h_policy");
        push_if(&mut f, s.v_policy.is_some(), "v_policy");
        push_if(&mut f, s.overlay_scrolling.is_some(), "overlay_scrolling");
        push_if(&mut f, s.kinetic_scrolling.is_some(), "kinetic_scrolling");
        push_if(&mut f, s.propagate_natural_width.is_some(), "propagate_natural_width");
        push_if(&mut f, s.propagate_natural_height.is_some(), "propagate_natural_height");
        push_if(&mut f, s.min_content_width.is_some(), "min_content_width");
        push_if(&mut f, s.min_content_height.is_some(), "min_content_height");
    f
}

fn label_fields_of(l: &LabelProps) -> (out: Vec<&'static str>)
    ensures
        strs_view(out@) == label_fields(*l),
{
    let mut f: Vec<&'static str> = Vec::new();
    assert(strs_view(f@) =~= seq![]);
        push_if(&mut f, l.text.is_some(), "text");
        push_if(&mut f, l.bind.is_some(), "bind");
        push_if(&mut f, !l.binds.is_empty(), "binds");
        push_if(&mut f, l.on_click.has_any(), "on_click");
        push_if(&mut f, l.format.is_some(), "format");
        push_if(&mut f, !l.format_states.is_empty(), "format_states");
        push_if(&mut f, !l.rules.is_empty(), "rules");
        push_if(&mut f, l.max_chars.is_some(), "max_chars");
        push_if(&mut f, l.ellipsize.is_some(), "ellipsize");
    f
}

fn button_fields_of(b: &ButtonProps) -> (out: Vec<&'static str>)
    ensures
        strs_view(out@) == button_fields(*b),
{
    let mut f: Vec<&'static str> = Vec::new();
    assert(strs_view(f@) =~= seq![]);
        push_if(&mut f, b.text.is_some(), "text");
        push_if(&mut f, b.bind.is_some(), "bind");
        push_if(&mut f, b.on_click.has_any(), "on_click");
        push_if(&mut f, b.format.is_some(), "format");
        push_if(&mut f, !b.format_states.is_empty(), "format_states");
        push_if(&mut f, b.angle.is_some(), "angle");
    f
}

fn clock_fields_of(c: &ClockProps) -> (out: Vec<&'static str>)
    ensures
        strs_view(out@) == clock_fields(*c),
{
    let mut f: Vec<&'static str> = Vec::new();
    assert(strs_view(f@) =~= seq![]);
        push_if(&mut f, c.format.is_some(), "format");
        push_if(&mut f, c.display_format.is_some(), "display_format");
        push_if(&mut f, !c.format_states.is_empty(), "format_states");
        push_if(&mut f, c.interval.is_some(), "interval");
        push_if(&mut f, c.bind.is_some(), "bind");
        push_if(&mut f, c.spacing.is_some(), "spacing");
        push_if(&mut f, c.angle.is_some(), "angle");
    f
}

fn workspaces_fields_of(w: &WorkspacesProps) -> (out: Vec<&'static str>)
    ensures
        strs_view(out@) == workspaces_fields(*w),
{
    let mut f = workspaces_head_fields(w);
    let mut g = workspaces_tail_fields(w);
    let ghost a = f@;
    let ghost b = g@;
    f.append(&mut g);
    assert(strs_view(f@) =~= strs_view(a) + strs_view(b));
    f
}

fn workspaces_head_fields(w: &WorkspacesProps) -> (f: Vec<&'static str>)
    ensures
        strs_view(f@) == workspaces_fields_head(*w),
{
    let mut f: Vec<&'static str> = Vec::new();
    assert(strs_view(f@) =~= seq![]);
    push_if(&mut f, w.count.is_some(), "count");
    push_if(&mut f, w.active_only.is_some(), "active_only");
    push_if(&mut f, w.all_outputs.is_some(), "all_outputs");
    push_if(&mut f, w.output.is_some(), "output");
    push_if(&mut f, w.orientation.is_some(), "orientation");
    push_if(&mut f, w.spacing.is_some(), "spacing");
    push_if(&mut f, w.format.is_some(), "format");
    push_if(&mut f, !w.format_states.is_empty(), "format_states");
    push_if(&mut f, !w.labels.is_empty(), "labels");
    push_if(&mut f, !w.state_labels.is_empty(), "state_labels");
    push_if(&mut f, !w.format_icons.is_empty(), "format_icons");
    f
}

fn workspaces_tail_fields(w: &WorkspacesProps) -> (f: Vec<&'static str>)
    ensures
        strs_view(f@) == workspaces_fields_tail(*w),
{
    let mut f: Vec<&'static str> = Vec::new();
    assert(strs_view(f@) =~= seq![]);
    push_if(&mut f, w.show_clients.is_some(), "show_clients");
    push_if(&mut f, w.clients_max_items.is_some(), "clients_max_items");
    push_if(&mut f, w.clients_icon_size.is_some(), "clients_icon_size");
    push_if(&mut f, !w.clients_rules.is_empty(), "clients_rules");
    push_if(&mut f, w.clients_use_glyphs.is_some(), "clients_use_glyphs");
    push_if(&mut f, w.clients_glyph_fallback.is_some(), "clients_glyph_fallback");
    push_if(&mut f, w.clients_spacing.is_some(), "clients_spacing");
    push_if(&mut f, w.angle.is_some(), "angle");
    f
}

fn dock_fields_of(d: &DockProps) -> (out: Vec<&'static str>)
    ensures
        strs_view(out@) == dock_fields(*d),
{
    let mut f: Vec<&'static str> = Vec::new();
    assert(strs_view(f@) =~= seq![]);
        push_if(&mut f, d.orientation.is_some(), "orientation");
        push_if(&mut f, d.output.is_some(), "output");
        push_if(&mut f, d.all_outputs.is_some(), "all_outputs");
        push_if(&mut f, d.spacing.is_some(), "spacing");
        push_if(&mut f, d.max_items.is_some(), "max_items");
        push_if(&mut f, d.format.is_some(), "format");
        push_if(&mut f, !d.format_states.is_empty(), "format_states");
        push_if(&mut f, !d.image_map.is_empty(), "image_map");
        push_if(&mut f, d.icon_size.is_some(), "icon_size");
        push_if(&mut f, d.on_click.has_any(), "on_click");
        push_if(&mut f, d.angle.is_some(), "angle");
    f
}

fn tray_fields_of(t: &TrayProps) -> (out: Vec<&'static str>)
    ensures
        strs_view(out@) == tray_fields(*t),
{
    let mut f: Vec<&'static str> = Vec::new();
    assert(strs_view(f@) =~= seq![]);
        push_if(&mut f, t.orientation.is_some(), "orientation");
        push_if(&mut f, t.spacing.is_some(), "spacing");
        push_if(&mut f, t.icon_size.is_some(), "icon_size");
        push_if(&mut f, t.max_items.is_some(), "max_items");
        push_if(&mut f, t.show_passive.is_some(), "show_passive");
        push_if(&mut f, t.hide_when_empty.is_some(), "hide_when_empty");
    f
}

fn image_fields_of(i: &ImageProps) -> (out: Vec<&'static str>)
    ensures
        strs_view(out@) == image_fields(*i),
{
    let mut f: Vec<&'static str> = Vec::new();
    assert(strs_view(f@) =~= seq![]);
        push_if(&mut f, i.path.is_some(), "path");
        push_if(&mut f, i.bind.is_some(), "bind");
        push_if(&mut f, i.fit.is_some(), "fit");
        push_if(&mut f, i.can_shrink.is_some(), "can_shrink");
        push_if(&mut f, i.on_click.has_any(), "on_click");
    f
}

fn progress_fields_of(p: &ProgressProps) -> (out: Vec<&'static str>)
    ensures
        strs_view(out@) == progress_fields(*p),
{
    let mut f: Vec<&'static str> = Vec::new();
    assert(strs_view(f@) =~= seq![]);
        push_if(&mut f, p.bind.is_some(), "bind");
        push_if(&mut f, p.value.is_some(), "value");
        push_if(&mut f, p.min.is_some(), "min");
        push_if(&mut f, p.max.is_some(), "max");
        push_if(&mut f, p.inverted.is_some(), "inverted");
    f
}

fn slider_fields_of(s: &SliderProps) -> (out: Vec<&'static str>)
    ensures
        strs_view(out@) == slider_fields(*s),
{
    let mut f: Vec<&'static str> = Vec::new();
    assert(strs_view(f@) =~= seq![]);
        push_if(&mut f, s.bind.is_some(), "bind");
        push_if(&mut f, s.value.is_some(), "value");
        push_if(&mut f, s.min.is_some(), "min");
        push_if(&mut f, s.max.is_some(), "max");
        push_if(&mut f, s.step.is_some(), "step");
        push_if(&mut f, s.scroll_step.is_some(), "scroll_step");
        push_if(&mut f, s.orientation.is_some(), "orientation");
        push_if(&mut f, s.inverted.is_some(), "inverted");
        push_if(&mut f, s.draw_value.is_some(), "draw_value");
        push_if(&mut f, s.digits.is_some(), "digits");
    f
}

fn list_fields_of(l: &ListProps) -> (out: Vec<&'static str>)
    ensures
        strs_view(out@) == list_fields(*l),
{
    let mut f: Vec<&'static str> = Vec::new();
    assert(strs_view(f@) =~= seq![]);
        push_if(&mut f, l.bind.is_some(), "bind");
        push_if(&mut f, l.count.is_some(), "count");
        push_if(&mut f, l.orientation.is_some(), "orientation");
        push_if(&mut f, l.spacing.is_some(), "spacing");
    f
}

fn popover_fields_of(p: &PopoverProps) -> (out: Vec<&'static str>)
    ensures
        strs_view(out@) == popover_fields(*p),
{
    let mut f: Vec<&'static str> = Vec::new();
    assert(strs_view(f@) =~= seq![]);
        push_if(&mut f, p.position.is_some(), "position");
        push_if(&mut f, p.autohide.is_some(), "autohide");
        push_if(&mut f, p.has_arrow.is_some(), "has_arrow");
    f
}

impl WidgetProps {
    /// The names of the kind-specific fields that are set.
    pub fn present_fields(&self) -> (r: Vec<&'static str>)
        ensures
            strs_view(r@) == props_fields(*self),
    {
        match self {
            WidgetProps::HBox(b) | WidgetProps::VBox(b) | WidgetProps::CenterBox(b) => box_fields_of(b),
            WidgetProps::Revealer(r) => revealer_fields_of(r),
            WidgetProps::Scroll(s) => scroll_fields_of(s),
            WidgetProps::Label(l) => label_fields_of(l),
            WidgetProps::Button(b) => button_fields_of(b),
            WidgetProps::Clock(c) => clock_fields_of(c),
            WidgetProps::Workspaces(w) => workspaces_fields_of(w),
            WidgetProps::Dock(d) => dock_fields_of(d),
            WidgetProps::Tray(t) => tray_fields_of(t),
            WidgetProps::Image(i) => image_fields_of(i),
            WidgetProps::Progress(p) => progress_fields_of(p),
            WidgetProps::Slider(s) => slider_fields_of(s),
            WidgetProps::List(l) => list_fields_of(l),
            WidgetProps::Popover(p) => popover_fields_of(p),
            WidgetProps::Overlay(_) => Vec::new(),
        }
    }
}


// ---------------------------------------------------------------------------
// Every set field is accepted by the widget's kind.
/// The names whose flags are set, in order.
pub open spec fn picks(ps: Seq<(bool, Seq<char>)>) -> Seq<Seq<char>>
    decreases ps.len(),
{
    if ps.len() == 0 {
        seq![]
    } else {
        picks(ps.drop_last()) + pick(ps.last().0, ps.last().1)
    }
}

pub open spec fn pick_names(ps: Seq<(bool, Seq<char>)>) -> Seq<Seq<char>> {
    ps.map_values(|e: (bool, Seq<char>)| e.1)
}

/// No name occurs twice.
pub open spec fn names_distinct(s: Seq<Seq<char>>) -> bool {
    forall|i: int, j: int| 0 <= i < j < s.len() ==> #[trigger] s[i] != #[trigger] s[j]
}

/// Every name is a field that kind `k` accepts.
pub open spec fn all_allowed(s: Seq<Seq<char>>, k: WidgetKind) -> bool {
    forall|x: int| 0 <= x < s.len() ==> allowed_field_names(k).contains(#[trigger] s[x])
}

proof fn lemma_picks_push(ps: Seq<(bool, Seq<char>)>, e: (bool, Seq<char>))
    ensures
        picks(ps.push(e)) == picks(ps) + pick(e.0, e.1),
        picks(Seq::<(bool, Seq<char>)>::empty()) == Seq::<Seq<char>>::empty(),
{
    assert(ps.push(e).drop_last() =~= ps);
}

proof fn lemma_picks_append(a: Seq<(bool, Seq<char>)>, b: Seq<(bool, Seq<char>)>)
    ensures
        picks(a + b) == picks(a) + picks(b),
    decreases b.len(),
{
    if b.len() == 0 {
        assert(a + b =~= a);
        assert(picks(a) + picks(b) =~= picks(a));
    } else {
        lemma_picks_append(a, b.drop_last());
        assert((a + b).drop_last() =~= a + b.drop_last());
        assert((a + b).last() == b.last());
        assert(picks(a + b) =~= picks(a) + picks(b));
    }
}

proof fn lemma_picks_from(ps: Seq<(bool, Seq<char>)>)
    ensures
        forall|i: int| 0 <= i < picks(ps).len() ==> pick_names(ps).contains(#[trigger] picks(ps)[i]),
        names_distinct(pick_names(ps)) ==> names_distinct(picks(ps)),
    decreases ps.len(),
{
    if ps.len() > 0 {
        let pre = ps.drop_last();
        lemma_picks_from(pre);
        let t = picks(ps);
        let n = ps.last().1;
        let last = ps.len() - 1;
        assert(pick_names(ps)[last] == n);
        assert forall|i: int| 0 <= i < pick_names(pre).len() implies #[trigger] pick_names(pre)[i] == pick_names(ps)[i] by {}
        assert forall|i: int| 0 <= i < t.len() implies pick_names(ps).contains(#[trigger] t[i]) by {
            if i < picks(pre).len() {
                assert(t[i] == picks(pre)[i]);
                let j = choose|j: int| 0 <= j < pick_names(pre).len() && pick_names(pre)[j] == picks(pre)[i];
                assert(pick_names(ps)[j] == t[i]);
            } else {
                assert(t[i] == n);
            }
        }
        if names_distinct(pick_names(ps)) {
            assert forall|i: int, j: int| 0 <= i < j < pick_names(pre).len() implies #[trigger] pick_names(pre)[i]
                != #[trigger] pick_names(pre)[j] by {
                assert(pick_names(ps)[i] != pick_names(ps)[j]);
            }
            assert forall|i: int, j: int| 0 <= i < j < t.len() implies #[trigger] t[i] != #[trigger] t[j] by {
                if j < picks(pre).len() {
                    assert(t[i] == picks(pre)[i]);
                    assert(t[j] == picks(pre)[j]);
                } else {
                    assert(t[j] == n);
                    assert(t[i] == picks(pre)[i]);
                    let q = choose|q: int| 0 <= q < pick_names(pre).len() && pick_names(pre)[q] == picks(pre)[i];
                    assert(pick_names(ps)[q] == t[i]);
                    assert(pick_names(ps)[q] != pick_names(ps)[last]);
                }
            }
        }
    }
}

proof fn lemma_picks_accepted(ps: Seq<(bool, Seq<char>)>, k: WidgetKind)
    requires
        names_distinct(pick_names(ps)),
        all_allowed(pick_names(ps), k),
    ensures
        names_distinct(picks(ps)),
        all_allowed(picks(ps), k),
{
    lemma_picks_from(ps);
    assert forall|x: int| 0 <= x < picks(ps).len() implies allowed_field_names(k).contains(#[trigger] picks(ps)[x]) by {
        let j = choose|j: int| 0 <= j < pick_names(ps).len() && pick_names(ps)[j] == picks(ps)[x];
        assert(allowed_field_names(k).contains(pick_names(ps)[j]));
    }
}

pub open spec fn box_field_names() -> Seq<Seq<char>> {
    seq!["spacing"@]
}

pub open spec fn box_table(b: BoxProps) -> Seq<(bool, Seq<char>)> {
    seq![
        (b.spacing is Some, "spacing"@),
    ]
}

proof fn lemma_box_table(b: BoxProps)
    ensures
        box_fields(b) == picks(box_table(b)),
        pick_names(box_table(b)) == box_field_names(),
{
    let p0 = Seq::<(bool, Seq<char>)>::empty();
    lemma_picks_push(p0, (b.spacing is Some, "spacing"@));
    let p1 = p0.push((b.spacing is Some, "spacing"@));
    assert(box_table(b) =~= p1);
    assert(box_fields(b) == picks(box_table(b)));
    assert(pick_names(box_table(b)) =~= box_field_names());
}

#[verifier::spinoff_prover]
#[verifier::rlimit(60)]
proof fn lemma_box_names_distinct()
    ensures
        names_distinct(box_field_names()),
{
    let ns = box_field_names();
    reveal_strlit("spacing");
    assert forall|a: int, b: int| 0 <= a < b < ns.len() implies #[trigger] ns[a] != #[trigger] ns[b] by {
    }
}

proof fn lemma_box_names_allowed_hbox()
    ensures
        all_allowed(box_field_names(), WidgetKind::HBox),
{
    let ns = box_field_names();
    assert forall|x: int| 0 <= x < ns.len() implies allowed_field_names(WidgetKind::HBox).contains(#[trigger] ns[x]) by {
        if x == 0 {
            assert(allowed_field_names(WidgetKind::HBox)[12] == ns[0]);
        }
    }
}

proof fn lemma_box_names_allowed_vbox()
    ensures
        all_allowed(box_field_names(), WidgetKind::VBox),
{
    let ns = box_field_names();
    assert forall|x: int| 0 <= x < ns.len() implies allowed_field_names(WidgetKind::VBox).contains(#[trigger] ns[x]) by {
        if x == 0 {
            assert(allowed_field_names(WidgetKind::VBox)[12] == ns[0]);
        }
    }
}

proof fn lemma_box_names_allowed_centerbox()
    ensures
        all_allowed(box_field_names(), WidgetKind::CenterBox),
{
    let ns = box_field_names();
    assert forall|x: int| 0 <= x < ns.len() implies allowed_field_names(WidgetKind::CenterBox).contains(#[trigger] ns[x]) by {
        if x == 0 {
            assert(allowed_field_names(WidgetKind::CenterBox)[12] == ns[0]);
        }
    }
}

proof fn lemma_box_fields_accepted(b: BoxProps)
    ensures
        names_distinct(box_fields(b)),
        all_allowed(box_fields(b), WidgetKind::HBox),
        all_allowed(box_fields(b), WidgetKind::VBox),
        all_allowed(box_fields(b), WidgetKind::CenterBox),
{
    lemma_box_table(b);
    lemma_box_names_distinct();
    lemma_box_names_allowed_hbox();
    lemma_picks_accepted(box_table(b), WidgetKind::HBox);
    lemma_box_names_allowed_vbox();
    lemma_picks_accepted(box_table(b), WidgetKind::VBox);
    lemma_box_names_allowed_centerbox();
    lemma_picks_accepted(box_table(b), WidgetKind::CenterBox);
}

pub open spec fn revealer_field_names() -> Seq<Seq<char>> {
    seq!["reveal"@, "reveal_bind"@, "transition"@, "duration"@]
}

pub open spec fn revealer_table(r: RevealerProps) -> Seq<(bool, Seq<char>)> {
    seq![
        (r.reveal is Some, "reveal"@),
        (r.reveal_bind is Some, "reveal_bind"@),
        (r.transition is Some, "transition"@),
        (r.duration is Some, "duration"@),
    ]
}

proof fn lemma_revealer_table(r: RevealerProps)
    ensures
        revealer_fields(r) == picks(revealer_table(r)),
        pick_names(revealer_table(r)) == revealer_field_names(),
{
    let p0 = Seq::<(bool, Seq<char>)>::empty();
    lemma_picks_push(p0, (r.reveal is Some, "reveal"@));
    let p1 = p0.push((r.reveal is Some, "reveal"@));
    lemma_picks_push(p1, (r.reveal_bind is Some, "reveal_bind"@));
    let p2 = p1.push((r.reveal_bind is Some, "reveal_bind"@));
    lemma_picks_push(p2, (r.transition is Some, "transition"@));
    let p3 = p2.push((r.transition is Some, "transition"@));
    lemma_picks_push(p3, (r.duration is Some, "duration"@));
    let p4 = p3.push((r.duration is Some, "duration"@));
    assert(revealer_table(r) =~= p4);
    assert(revealer_fields(r) == picks(revealer_table(r)));
    assert(pick_names(revealer_table(r)) =~= revealer_field_names());
}

#[verifier::spinoff_prover]
#[verifier::rlimit(60)]
proof fn lemma_revealer_names_distinct()
    ensures
        names_distinct(revealer_field_names()),
{
    let ns = revealer_field_names();
    reveal_strlit("duration");
    reveal_strlit("reveal");
    reveal_strlit("reveal_bind");
    reveal_strlit("transition");
    assert forall|a: int, b: int| 0 <= a < b < ns.len() implies #[trigger] ns[a] != #[trigger] ns[b] by {
        if a == 0 && b == 1 {
            assert(ns[0].len() != ns[1].len());
        } else if a == 0 && b == 2 {
            assert(ns[0].len() != ns[2].len());
        } else if a == 0 && b == 3 {
            assert(ns[0].len() != ns[3].len());
        } else if a == 1 && b == 2 {
            assert(ns[1].len() != ns[2].len());
        } else if a == 1 && b == 3 {
            assert(ns[1].len() != ns[3].len());
        } else if a == 2 && b == 3 {
            assert(ns[2].len() != ns[3].len());
        }
    }
}

proof fn lemma_revealer_names_allowed_revealer()
    ensures
        all_allowed(revealer_field_names(), WidgetKind::Revealer),
{
    let ns = revealer_field_names();
    assert forall|x: int| 0 <= x < ns.len() implies allowed_field_names(WidgetKind::Revealer).contains(#[trigger] ns[x]) by {
        if x == 0 {
            assert(allowed_field_names(WidgetKind::Revealer)[12] == ns[0]);
        } else if x == 1 {
            assert(allowed_field_names(WidgetKind::Revealer)[13] == ns[1]);
        } else if x == 2 {
            assert(allowed_field_names(WidgetKind::Revealer)[14] == ns[2]);
        } else if x == 3 {
            assert(allowed_field_names(WidgetKind::Revealer)[15] == ns[3]);
        }
    }
}

proof fn lemma_revealer_fields_accepted(r: RevealerProps)
    ensures
        names_distinct(revealer_fields(r)),
        all_allowed(revealer_fields(r), WidgetKind::Revealer),
{
    lemma_revealer_table(r);
    lemma_revealer_names_distinct();
    lemma_revealer_names_allowed_revealer();
    lemma_picks_accepted(revealer_table(r), WidgetKind::Revealer);
}

pub open spec fn scroll_field_names() -> Seq<Seq<char>> {
    seq!["h_policy"@, "v_policy"@, "overlay_scrolling"@, "kinetic_scrolling"@, "propagate_natural_width"@, "propagate_natural_height"@, "min_content_width"@, "min_content_height"@]
}

pub open spec fn scroll_table(s: ScrollProps) -> Seq<(bool, Seq<char>)> {
    seq![
        (s.h_policy is Some, "h_policy"@),
        (s.v_policy is Some, "v_policy"@),
        (s.overlay_scrolling is Some, "overlay_scrolling"@),
        (s.kinetic_scrolling is Some, "kinetic_scrolling"@),
        (s.propagate_natural_width is Some, "propagate_natural_width"@),
        (s.propagate_natural_height is Some, "propagate_natural_height"@),
        (s.min_content_width is Some, "min_content_width"@),
        (s.min_content_height is Some, "min_content_height"@),
    ]
}

proof fn lemma_scroll_table(s: ScrollProps)
    ensures
        scroll_fields(s) == picks(scroll_table(s)),
        pick_names(scroll_table(s)) == scroll_field_names(),
{
    let p0 = Seq::<(bool, Seq<char>)>::empty();
    lemma_picks_push(p0, (s.h_policy is Some, "h_policy"@));
    let p1 = p0.push((s.h_policy is Some, "h_policy"@));
    lemma_picks_push(p1, (s.v_policy is Some, "v_policy"@));
    let p2 = p1.push((s.v_policy is Some, "v_policy"@));
    lemma_picks_push(p2, (s.overlay_scrolling is Some, "overlay_scrolling"@));
    let p3 = p2.push((s.overlay_scrolling is Some, "overlay_scrolling"@));
    lemma_picks_push(p3, (s.kinetic_scrolling is Some, "kinetic_scrolling"@));
    let p4 = p3.push((s.kinetic_scrolling is Some, "kinetic_scrolling"@));
    lemma_picks_push(p4, (s.propagate_natural_width is Some, "propagate_natural_width"@));
    let p5 = p4.push((s.propagate_natural_width is Some, "propagate_natural_width"@));
    lemma_picks_push(p5, (s.propagate_natural_height is Some, "propagate_natural_height"@));
    let p6 = p5.push((s.propagate_natural_height is Some, "propagate_natural_height"@));
    lemma_picks_push(p6, (s.min_content_width is Some, "min_content_width"@));
    let p7 = p6.push((s.min_content_width is Some, "min_content_width"@));
    lemma_picks_push(p7, (s.min_content_height is Some, "min_content_height"@));
    let p8 = p7.push((s.min_content_height is Some, "min_content_height"@));
    assert(scroll_table(s) =~= p8);
    assert(scroll_fields(s) == picks(scroll_table(s)));
    assert(pick_names(scroll_table(s)) =~= scroll_field_names());
}

#[verifier::spinoff_prover]
#[verifier::rlimit(60)]
proof fn lemma_scroll_names_distinct()
    ensures
        names_distinct(scroll_field_names()),
{
    let ns = scroll_field_names();
    reveal_strlit("h_policy");
    reveal_strlit("kinetic_scrolling");
    reveal_strlit("min_content_height");
    reveal_strlit("min_content_width");
    reveal_strlit("overlay_scrolling");
    reveal_strlit("propagate_natural_height");
    reveal_strlit("propagate_natural_width");
    reveal_strlit("v_policy");
    assert forall|a: int, b: int| 0 <= a < b < ns.len() implies #[trigger] ns[a] != #[trigger] ns[b] by {
        if a == 0 && b == 1 {
            assert(ns[0][0] != ns[1][0]);
        } else if a == 0 && b == 2 {
            assert(ns[0].len() != ns[2].len());
        } else if a == 0 && b == 3 {
            assert(ns[0].len() != ns[3].len());
        } else if a == 0 && b == 4 {
            assert(ns[0].len() != ns[4].len());
        } else if a == 0 && b == 5 {
            assert(ns[0].len() != ns[5].len());
        } else if a == 0 && b == 6 {
            assert(ns[0].len() != ns[6].len());
        } else if a == 0 && b == 7 {
            assert(ns[0].len() != ns[7].len());
        } else if a == 1 && b == 2 {
            assert(ns[1].len() != ns[2].len());
        } else if a == 1 && b == 3 {
            assert(ns[1].len() != ns[3].len());
        } else if a == 1 && b == 4 {
            assert(ns[1].len() != ns[4].len());
        } else if a == 1 && b == 5 {
            assert(ns[1].len() != ns[5].len());
        } else if a == 1 && b == 6 {
            assert(ns[1].len() != ns[6].len());
        } else if a == 1 && b == 7 {
            assert(ns[1].len() != ns[7].len());
        } else if a == 2 && b == 3 {
            assert(ns[2][0] != ns[3][0]);
        } else if a == 2 && b == 4 {
            assert(ns[2].len() != ns[4].len());
        } else if a == 2 && b == 5 {
            assert(ns[2].len() != ns[5].len());
        } else if a == 2 && b == 6 {
            assert(ns[2][0] != ns[6][0]);
        } else if a == 2 && b == 7 {
            assert(ns[2].len() != ns[7].len());
        } else if a == 3 && b == 4 {
            assert(ns[3].len() != ns[4].len());
        } else if a == 3 && b == 5 {
            assert(ns[3].len() != ns[5].len());
        } else if a == 3 && b == 6 {
            assert(ns[3][0] != ns[6][0]);
        } else if a == 3 && b == 7 {
            assert(ns[3].len() != ns[7].len());
        } else if a == 4 && b == 5 {
            assert(ns[4].len() != ns[5].len());
        } else if a == 4 && b == 6 {
            assert(ns[4].len() != ns[6].len());
        } else if a == 4 && b == 7 {
            assert(ns[4].len() != ns[7].len());
        } else if a == 5 && b == 6 {
            assert(ns[5].len() != ns[6].len());
        } else if a == 5 && b == 7 {
            assert(ns[5].len() != ns[7].len());
        } else if a == 6 && b == 7 {
            assert(ns[6].len() != ns[7].len());
        }
    }
}

proof fn lemma_scroll_names_allowed_scroll()
    ensures
        all_allowed(scroll_field_names(), WidgetKind::Scroll),
{
    let ns = scroll_field_names();
    assert forall|x: int| 0 <= x < ns.len() implies allowed_field_names(WidgetKind::Scroll).contains(#[trigger] ns[x]) by {
        if x == 0 {
            assert(allowed_field_names(WidgetKind::Scroll)[12] == ns[0]);
        } else if x == 1 {
            assert(allowed_field_names(WidgetKind::Scroll)[13] == ns[1]);
        } else if x == 2 {
            assert(allowed_field_names(WidgetKind::Scroll)[14] == ns[2]);
        } else if x == 3 {
            assert(allowed_field_names(WidgetKind::Scroll)[15] == ns[3]);
        } else if x == 4 {
            assert(allowed_field_names(WidgetKind::Scroll)[16] == ns[4]);
        } else if x == 5 {
            assert(allowed_field_names(WidgetKind::Scroll)[17] == ns[5]);
        } else if x == 6 {
            assert(allowed_field_names(WidgetKind::Scroll)[18] == ns[6]);
        } else if x == 7 {
            assert(allowed_field_names(WidgetKind::Scroll)[19] == ns[7]);
        }
    }
}

proof fn lemma_scroll_fields_accepted(s: ScrollProps)
    ensures
        names_distinct(scroll_fields(s)),
        all_allowed(scroll_fields(s), WidgetKind::Scroll),
{
    lemma_scroll_table(s);
    lemma_scroll_names_distinct();
    lemma_scroll_names_allowed_scroll();
    lemma_picks_accepted(scroll_table(s), WidgetKind::Scroll);
}

pub open spec fn label_field_names() -> Seq<Seq<char>> {
    seq!["text"@, "bind"@, "binds"@, "on_click"@, "format"@, "format_states"@, "rules"@, "max_chars"@, "ellipsize"@]
}

pub open spec fn label_table(l: LabelProps) -> Seq<(bool, Seq<char>)> {
    seq![
        (l.text is Some, "text"@),
        (l.bind is Some, "bind"@),
        (l.binds.len() > 0, "binds"@),
        (l.on_click.left is Some || l.on_click.middle is Some || l.on_click.right is Some || l.on_click.wheel_up is Some || l.on_click.wheel_down is Some, "on_click"@),
        (l.format is Some, "format"@),
        (l.format_states.len() > 0, "format_states"@),
        (l.rules.len() > 0, "rules"@),
        (l.max_chars is Some, "max_chars"@),
        (l.ellipsize is Some, "ellipsize"@),
    ]
}

proof fn lemma_label_table(l: LabelProps)
    ensures
        label_fields(l) == picks(label_table(l)),
        pick_names(label_table(l)) == label_field_names(),
{
    let p0 = Seq::<(bool, Seq<char>)>::empty();
    lemma_picks_push(p0, (l.text is Some, "text"@));
    let p1 = p0.push((l.text is Some, "text"@));
    lemma_picks_push(p1, (l.bind is Some, "bind"@));
    let p2 = p1.push((l.bind is Some, "bind"@));
    lemma_picks_push(p2, (l.binds.len() > 0, "binds"@));
    let p3 = p2.push((l.binds.len() > 0, "binds"@));
    lemma_picks_push(p3, (l.on_click.left is Some || l.on_click.middle is Some || l.on_click.right is Some || l.on_click.wheel_up is Some || l.on_click.wheel_down is Some, "on_click"@));
    let p4 = p3.push((l.on_click.left is Some || l.on_click.middle is Some || l.on_click.right is Some || l.on_click.wheel_up is Some || l.on_click.wheel_down is Some, "on_click"@));
    lemma_picks_push(p4, (l.format is Some, "format"@));
    let p5 = p4.push((l.format is Some, "format"@));
    lemma_picks_push(p5, (l.format_states.len() > 0, "format_states"@));
    let p6 = p5.push((l.format_states.len() > 0, "format_states"@));
    lemma_picks_push(p6, (l.rules.len() > 0, "rules"@));
    let p7 = p6.push((l.rules.len() > 0, "rules"@));
    lemma_picks_push(p7, (l.max_chars is Some, "max_chars"@));
    let p8 = p7.push((l.max_chars is Some, "max_chars"@));
    lemma_picks_push(p8, (l.ellipsize is Some, "ellipsize"@));
    let p9 = p8.push((l.ellipsize is Some, "ellipsize"@));
    assert(label_table(l) =~= p9);
    assert(label_fields(l) == picks(label_table(l)));
    assert(pick_names(label_table(l)) =~= label_field_names());
}

#[verifier::spinoff_prover]
#[verifier::rlimit(60)]
proof fn lemma_label_names_distinct()
    ensures
        names_distinct(label_field_names()),
{
    let ns = label_field_names();
    reveal_strlit("bind");
    reveal_strlit("binds");
    reveal_strlit("ellipsize");
    reveal_strlit("format");
    reveal_strlit("format_states");
    reveal_strlit("max_chars");
    reveal_strlit("on_click");
    reveal_strlit("rules");
    reveal_strlit("text");
    assert forall|a: int, b: int| 0 <= a < b < ns.len() implies #[trigger] ns[a] != #[trigger] ns[b] by {
        if a == 0 && b == 1 {
            assert(ns[0][0] != ns[1][0]);
        } else if a == 0 && b == 2 {
            assert(ns[0].len() != ns[2].len());
        } else if a == 0 && b == 3 {
            assert(ns[0].len() != ns[3].len());
        } else if a == 0 && b == 4 {
            assert(ns[0].len() != ns[4].len());
        } else if a == 0 && b == 5 {
            assert(ns[0].len() != ns[5].len());
        } else if a == 0 && b == 6 {
            assert(ns[0].len() != ns[6].len());
        } else if a == 0 && b == 7 {
            assert(ns[0].len() != ns[7].len());
        } else if a == 0 && b == 8 {
            assert(ns[0].len() != ns[8].len());
        } else if a == 1 && b == 2 {
            assert(ns[1].len() != ns[2].len());
        } else if a == 1 && b == 3 {
            assert(ns[1].len() != ns[3].len());
        } else if a == 1 && b == 4 {
            assert(ns[1].len() != ns[4].len());
        } else if a == 1 && b == 5 {
            assert(ns[1].len() != ns[5].len());
        } else if a == 1 && b == 6 {
            assert(ns[1].len() != ns[6].len());
        } else if a == 1 && b == 7 {
            assert(ns[1].len() != ns[7].len());
        } else if a == 1 && b == 8 {
            assert(ns[1].len() != ns[8].len());
        } else if a == 2 && b == 3 {
            assert(ns[2].len() != ns[3].len());
        } else if a == 2 && b == 4 {
            assert(ns[2].len() != ns[4].len());
        } else if a == 2 && b == 5 {
            assert(ns[2].len() != ns[5].len());
        } else if a == 2 && b == 6 {
            assert(ns[2][0] != ns[6][0]);
        } else if a == 2 && b == 7 {
            assert(ns[2].len() != ns[7].len());
        } else if a == 2 && b == 8 {
            assert(ns[2].len() != ns[8].len());
        } else if a == 3 && b == 4 {
            assert(ns[3].len() != ns[4].len());
        } else if a == 3 && b == 5 {
            assert(ns[3].len() != ns[5].len());
        } else if a == 3 && b == 6 {
            assert(ns[3].len() != ns[6].len());
        } else if a == 3 && b == 7 {
            assert(ns[3].len() != ns[7].len());
        } else if a == 3 && b == 8 {
            assert(ns[3].len() != ns[8].len());
        } else if a == 4 && b == 5 {
            assert(ns[4].len() != ns[5].len());
        } else if a == 4 && b == 6 {
            assert(ns[4].len() != ns[6].len());
        } else if a == 4 && b == 7 {
            assert(ns[4].len() != ns[7].len());
        } else if a == 4 && b == 8 {
            assert(ns[4].len() != ns[8].len());
        } else if a == 5 && b == 6 {
            assert(ns[5].len() != ns[6].len());
        } else if a == 5 && b == 7 {
            assert(ns[5].len() != ns[7].len());
        } else if a == 5 && b == 8 {
            assert(ns[5].len() != ns[8].len());
        } else if a == 6 && b == 7 {
            assert(ns[6].len() != ns[7].len());
        } else if a == 6 && b == 8 {
            assert(ns[6].len() != ns[8].len());
        } else if a == 7 && b == 8 {
            assert(ns[7][0] != ns[8][0]);
        }
    }
}

proof fn lemma_label_names_allowed_label()
    ensures
        all_allowed(label_field_names(), WidgetKind::Label),
{
    let ns = label_field_names();
    assert forall|x: int| 0 <= x < ns.len() implies allowed_field_names(WidgetKind::Label).contains(#[trigger] ns[x]) by {
        if x == 0 {
            assert(allowed_field_names(WidgetKind::Label)[11] == ns[0]);
        } else if x == 1 {
            assert(allowed_field_names(WidgetKind::Label)[12] == ns[1]);
        } else if x == 2 {
            assert(allowed_field_names(WidgetKind::Label)[13] == ns[2]);
        } else if x == 3 {
            assert(allowed_field_names(WidgetKind::Label)[17] == ns[3]);
        } else if x == 4 {
            assert(allowed_field_names(WidgetKind::Label)[14] == ns[4]);
        } else if x == 5 {
            assert(allowed_field_names(WidgetKind::Label)[15] == ns[5]);
        } else if x == 6 {
            assert(allowed_field_names(WidgetKind::Label)[16] == ns[6]);
        } else if x == 7 {
            assert(allowed_field_names(WidgetKind::Label)[18] == ns[7]);
        } else if x == 8 {
            assert(allowed_field_names(WidgetKind::Label)[19] == ns[8]);
        }
    }
}

proof fn lemma_label_fields_accepted(l: LabelProps)
    ensures
        names_distinct(label_fields(l)),
        all_allowed(label_fields(l), WidgetKind::Label),
{
    lemma_label_table(l);
    lemma_label_names_distinct();
    lemma_label_names_allowed_label();
    lemma_picks_accepted(label_table(l), WidgetKind::Label);
}

pub open spec fn button_field_names() -> Seq<Seq<char>> {
    seq!["text"@, "bind"@, "on_click"@, "format"@, "format_states"@, "angle"@]
}

pub open spec fn button_table(b: ButtonProps) -> Seq<(bool, Seq<char>)> {
    seq![
        (b.text is Some, "text"@),
        (b.bind is Some, "bind"@),
        (b.on_click.left is Some || b.on_click.middle is Some || b.on_click.right is Some || b.on_click.wheel_up is Some || b.on_click.wheel_down is Some, "on_click"@),
        (b.format is Some, "format"@),
        (b.format_states.len() > 0, "format_states"@),
        (b.angle is Some, "angle"@),
    ]
}

proof fn lemma_button_table(b: ButtonProps)
    ensures
        button_fields(b) == picks(button_table(b)),
        pick_names(button_table(b)) == button_field_names(),
{
    let p0 = Seq::<(bool, Seq<char>)>::empty();
    lemma_picks_push(p0, (b.text is Some, "text"@));
    let p1 = p0.push((b.text is Some, "text"@));
    lemma_picks_push(p1, (b.bind is Some, "bind"@));
    let p2 = p1.push((b.bind is Some, "bind"@));
    lemma_picks_push(p2, (b.on_click.left is Some || b.on_click.middle is Some || b.on_click.right is Some || b.on_click.wheel_up is Some || b.on_click.wheel_down is Some, "on_click"@));
    let p3 = p2.push((b.on_click.left is Some || b.on_click.middle is Some || b.on_click.right is Some || b.on_click.wheel_up is Some || b.on_click.wheel_down is Some, "on_click"@));
    lemma_picks_push(p3, (b.format is Some, "format"@));
    let p4 = p3.push((b.format is Some, "format"@));
    lemma_picks_push(p4, (b.format_states.len() > 0, "format_states"@));
    let p5 = p4.push((b.format_states.len() > 0, "format_states"@));
    lemma_picks_push(p5, (b.angle is Some, "angle"@));
    let p6 = p5.push((b.angle is Some, "angle"@));
    assert(button_table(b) =~= p6);
    assert(button_fields(b) == picks(button_table(b)));
    assert(pick_names(button_table(b)) =~= button_field_names());
}

#[verifier::spinoff_prover]
#[verifier::rlimit(60)]
proof fn lemma_button_names_distinct()
    ensures
        names_distinct(button_field_names()),
{
    let ns = button_field_names();
    reveal_strlit("angle");
    reveal_strlit("bind");
    reveal_strlit("format");
    reveal_strlit("format_states");
    reveal_strlit("on_click");
    reveal_strlit("text");
    assert forall|a: int, b: int| 0 <= a < b < ns.len() implies #[trigger] ns[a] != #[trigger] ns[b] by {
        if a == 0 && b == 1 {
            assert(ns[0][0] != ns[1][0]);
        } else if a == 0 && b == 2 {
            assert(ns[0].len() != ns[2].len());
        } else if a == 0 && b == 3 {
            assert(ns[0].len() != ns[3].len());
        } else if a == 0 && b == 4 {
            assert(ns[0].len() != ns[4].len());
        } else if a == 0 && b == 5 {
            assert(ns[0].len() != ns[5].len());
        } else if a == 1 && b == 2 {
            assert(ns[1].len() != ns[2].len());
        } else if a == 1 && b == 3 {
            assert(ns[1].len() != ns[3].len());
        } else if a == 1 && b == 4 {
            assert(ns[1].len() != ns[4].len());
        } else if a == 1 && b == 5 {
            assert(ns[1].len() != ns[5].len());
        } else if a == 2 && b == 3 {
            assert(ns[2].len() != ns[3].len());
        } else if a == 2 && b == 4 {
            assert(ns[2].len() != ns[4].len());
        } else if a == 2 && b == 5 {
            assert(ns[2].len() != ns[5].len());
        } else if a == 3 && b == 4 {
            assert(ns[3].len() != ns[4].len());
        } else if a == 3 && b == 5 {
            assert(ns[3].len() != ns[5].len());
        } else if a == 4 && b == 5 {
            assert(ns[4].len() != ns[5].len());
        }
    }
}

proof fn lemma_button_names_allowed_button()
    ensures
        all_allowed(button_field_names(), WidgetKind::Button),
{
    let ns = button_field_names();
    assert forall|x: int| 0 <= x < ns.len() implies allowed_field_names(WidgetKind::Button).contains(#[trigger] ns[x]) by {
        if x == 0 {
            assert(allowed_field_names(WidgetKind::Button)[11] == ns[0]);
        } else if x == 1 {
            assert(allowed_field_names(WidgetKind::Button)[12] == ns[1]);
        } else if x == 2 {
            assert(allowed_field_names(WidgetKind::Button)[15] == ns[2]);
        } else if x == 3 {
            assert(allowed_field_names(WidgetKind::Button)[13] == ns[3]);
        } else if x == 4 {
            assert(allowed_field_names(WidgetKind::Button)[14] == ns[4]);
        } else if x == 5 {
            assert(allowed_field_names(WidgetKind::Button)[16] == ns[5]);
        }
    }
}

proof fn lemma_button_fields_accepted(b: ButtonProps)
    ensures
        names_distinct(button_fields(b)),
        all_allowed(button_fields(b), WidgetKind::Button),
{
    lemma_button_table(b);
    lemma_button_names_distinct();
    lemma_button_names_allowed_button();
    lemma_picks_accepted(button_table(b), WidgetKind::Button);
}

pub open spec fn clock_field_names() -> Seq<Seq<char>> {
    seq!["format"@, "display_format"@, "format_states"@, "interval"@, "bind"@, "spacing"@, "angle"@]
}

pub open spec fn clock_table(c: ClockProps) -> Seq<(bool, Seq<char>)> {
    seq![
        (c.format is Some, "format"@),
        (c.display_format is Some, "display_format"@),
        (c.format_states.len() > 0, "format_states"@),
        (c.interval is Some, "interval"@),
        (c.bind is Some, "bind"@),
        (c.spacing is Some, "spacing"@),
        (c.angle is Some, "angle"@),
    ]
}

proof fn lemma_clock_table(c: ClockProps)
    ensures
        clock_fields(c) == picks(clock_table(c)),
        pick_names(clock_table(c)) == clock_field_names(),
{
    let p0 = Seq::<(bool, Seq<char>)>::empty();
    lemma_picks_push(p0, (c.format is Some, "format"@));
    let p1 = p0.push((c.format is Some, "format"@));
    lemma_picks_push(p1, (c.display_format is Some, "display_format"@));
    let p2 = p1.push((c.display_format is Some, "display_format"@));
    lemma_picks_push(p2, (c.format_states.len() > 0, "format_states"@));
    let p3 = p2.push((c.format_states.len() > 0, "format_states"@));
    lemma_picks_push(p3, (c.interval is Some, "interval"@));
    let p4 = p3.push((c.interval is Some, "interval"@));
    lemma_picks_push(p4, (c.bind is Some, "bind"@));
    let p5 = p4.push((c.bind is Some, "bind"@));
    lemma_picks_push(p5, (c.spacing is Some, "spacing"@));
    let p6 = p5.push((c.spacing is Some, "spacing"@));
    lemma_picks_push(p6, (c.angle is Some, "angle"@));
    let p7 = p6.push((c.angle is Some, "angle"@));
    assert(clock_table(c) =~= p7);
    assert(clock_fields(c) == picks(clock_table(c)));
    assert(pick_names(clock_table(c)) =~= clock_field_names());
}

#[verifier::spinoff_prover]
#[verifier::rlimit(60)]
proof fn lemma_clock_names_distinct()
    ensures
        names_distinct(clock_field_names()),
{
    let ns = clock_field_names();
    reveal_strlit("angle");
    reveal_strlit("bind");
    reveal_strlit("display_format");
    reveal_strlit("format");
    reveal_strlit("format_states");
    reveal_strlit("interval");
    reveal_strlit("spacing");
    assert forall|a: int, b: int| 0 <= a < b < ns.len() implies #[trigger] ns[a] != #[trigger] ns[b] by {
        if a == 0 && b == 1 {
            assert(ns[0].len() != ns[1].len());
        } else if a == 0 && b == 2 {
            assert(ns[0].len() != ns[2].len());
        } else if a == 0 && b == 3 {
            assert(ns[0].len() != ns[3].len());
        } else if a == 0 && b == 4 {
            assert(ns[0].len() != ns[4].len());
        } else if a == 0 && b == 5 {
            assert(ns[0].len() != ns[5].len());
        } else if a == 0 && b == 6 {
            assert(ns[0].len() != ns[6].len());
        } else if a == 1 && b == 2 {
            assert(ns[1].len() != ns[2].len());
        } else if a == 1 && b == 3 {
            assert(ns[1].len() != ns[3].len());
        } else if a == 1 && b == 4 {
            assert(ns[1].len() != ns[4].len());
        } else if a == 1 && b == 5 {
            assert(ns[1].len() != ns[5].len());
        } else if a == 1 && b == 6 {
            assert(ns[1].len() != ns[6].len());
        } else if a == 2 && b == 3 {
            assert(ns[2].len() != ns[3].len());
        } else if a == 2 && b == 4 {
            assert(ns[2].len() != ns[4].len());
        } else if a == 2 && b == 5 {
            assert(ns[2].len() != ns[5].len());
        } else if a == 2 && b == 6 {
            assert(ns[2].len() != ns[6].len());
        } else if a == 3 && b == 4 {
            assert(ns[3].len() != ns[4].len());
        } else if a == 3 && b == 5 {
            assert(ns[3].len() != ns[5].len());
        } else if a == 3 && b == 6 {
            assert(ns[3].len() != ns[6].len());
        } else if a == 4 && b == 5 {
            assert(ns[4].len() != ns[5].len());
        } else if a == 4 && b == 6 {
            assert(ns[4].len() != ns[6].len());
        } else if a == 5 && b == 6 {
            assert(ns[5].len() != ns[6].len());
        }
    }
}

proof fn lemma_clock_names_allowed_clock()
    ensures
        all_allowed(clock_field_names(), WidgetKind::Clock),
{
    let ns = clock_field_names();
    assert forall|x: int| 0 <= x < ns.len() implies allowed_field_names(WidgetKind::Clock).contains(#[trigger] ns[x]) by {
        if x == 0 {
            assert(allowed_field_names(WidgetKind::Clock)[11] == ns[0]);
        } else if x == 1 {
            assert(allowed_field_names(WidgetKind::Clock)[12] == ns[1]);
        } else if x == 2 {
            assert(allowed_field_names(WidgetKind::Clock)[13] == ns[2]);
        } else if x == 3 {
            assert(allowed_field_names(WidgetKind::Clock)[14] == ns[3]);
        } else if x == 4 {
            assert(allowed_field_names(WidgetKind::Clock)[15] == ns[4]);
        } else if x == 5 {
            assert(allowed_field_names(WidgetKind::Clock)[16] == ns[5]);
        } else if x == 6 {
            assert(allowed_field_names(WidgetKind::Clock)[17] == ns[6]);
        }
    }
}

proof fn lemma_clock_fields_accepted(c: ClockProps)
    ensures
        names_distinct(clock_fields(c)),
        all_allowed(clock_fields(c), WidgetKind::Clock),
{
    lemma_clock_table(c);
    lemma_clock_names_distinct();
    lemma_clock_names_allowed_clock();
    lemma_picks_accepted(clock_table(c), WidgetKind::Clock);
}

pub open spec fn workspaces_field_names() -> Seq<Seq<char>> {
    seq!["count"@, "active_only"@, "all_outputs"@, "output"@, "orientation"@, "spacing"@, "format"@, "format_states"@, "labels"@, "state_labels"@, "format_icons"@, "show_clients"@, "clients_max_items"@, "clients_icon_size"@, "clients_rules"@, "clients_use_glyphs"@, "clients_glyph_fallback"@, "clients_spacing"@, "angle"@]
}

pub open spec fn workspaces_head_table(w: WorkspacesProps) -> Seq<(bool, Seq<char>)> {
    seq![
        (w.count is Some, "count"@),
        (w.active_only is Some, "active_only"@),
        (w.all_outputs is Some, "all_outputs"@),
        (w.output is Some, "output"@),
        (w.orientation is Some, "orientation"@),
        (w.spacing is Some, "spacing"@),
        (w.format is Some, "format"@),
        (w.format_states.len() > 0, "format_states"@),
        (w.labels.len() > 0, "labels"@),
        (w.state_labels.len() > 0, "state_labels"@),
        (w.format_icons.len() > 0, "format_icons"@),
    ]
}

pub open spec fn workspaces_tail_table(w: WorkspacesProps) -> Seq<(bool, Seq<char>)> {
    seq![
        (w.show_clients is Some, "show_clients"@),
        (w.clients_max_items is Some, "clients_max_items"@),
        (w.clients_icon_size is Some, "clients_icon_size"@),
        (w.clients_rules.len() > 0, "clients_rules"@),
        (w.clients_use_glyphs is Some, "clients_use_glyphs"@),
        (w.clients_glyph_fallback is Some, "clients_glyph_fallback"@),
        (w.clients_spacing is Some, "clients_spacing"@),
        (w.angle is Some, "angle"@),
    ]
}

pub open spec fn workspaces_table(w: WorkspacesProps) -> Seq<(bool, Seq<char>)> {
    workspaces_head_table(w) + workspaces_tail_table(w)
}

#[verifier::spinoff_prover]
#[verifier::rlimit(100)]
proof fn lemma_workspaces_head_table(w: WorkspacesProps)
    ensures
        workspaces_fields_head(w) == picks(workspaces_head_table(w)),
{
    let p0 = Seq::<(bool, Seq<char>)>::empty();
    lemma_picks_push(p0, (w.count is Some, "count"@));
    let p1 = p0.push((w.count is Some, "count"@));
    lemma_picks_push(p1, (w.active_only is Some, "active_only"@));
    let p2 = p1.push((w.active_only is Some, "active_only"@));
    lemma_picks_push(p2, (w.all_outputs is Some, "all_outputs"@));
    let p3 = p2.push((w.all_outputs is Some, "all_outputs"@));
    lemma_picks_push(p3, (w.output is Some, "output"@));
    let p4 = p3.push((w.output is Some, "output"@));
    lemma_picks_push(p4, (w.orientation is Some, "orientation"@));
    let p5 = p4.push((w.orientation is Some, "orientation"@));
    lemma_picks_push(p5, (w.spacing is Some, "spacing"@));
    let p6 = p5.push((w.spacing is Some, "spacing"@));
    lemma_picks_push(p6, (w.format is Some, "format"@));
    let p7 = p6.push((w.format is Some, "format"@));
    lemma_picks_push(p7, (w.format_states.len() > 0, "format_states"@));
    let p8 = p7.push((w.format_states.len() > 0, "format_states"@));
    lemma_picks_push(p8, (w.labels.len() > 0, "labels"@));
    let p9 = p8.push((w.labels.len() > 0, "labels"@));
    lemma_picks_push(p9, (w.state_labels.len() > 0, "state_labels"@));
    let p10 = p9.push((w.state_labels.len() > 0, "state_labels"@));
    lemma_picks_push(p10, (w.format_icons.len() > 0, "format_icons"@));
    let p11 = p10.push((w.format_icons.len() > 0, "format_icons"@));
    assert(workspaces_head_table(w) =~= p11);
    assert(workspaces_fields_head(w) == picks(workspaces_head_table(w)));
}

#[verifier::spinoff_prover]
#[verifier::rlimit(100)]
proof fn lemma_workspaces_tail_table(w: WorkspacesProps)
    ensures
        workspaces_fields_tail(w) == picks(workspaces_tail_table(w)),
{
    let q0 = Seq::<(bool, Seq<char>)>::empty();
    lemma_picks_push(q0, (w.show_clients is Some, "show_clients"@));
    let q1 = q0.push((w.show_clients is Some, "show_clients"@));
    lemma_picks_push(q1, (w.clients_max_items is Some, "clients_max_items"@));
    let q2 = q1.push((w.clients_max_items is Some, "clients_max_items"@));
    lemma_picks_push(q2, (w.clients_icon_size is Some, "clients_icon_size"@));
    let q3 = q2.push((w.clients_icon_size is Some, "clients_icon_size"@));
    lemma_picks_push(q3, (w.clients_rules.len() > 0, "clients_rules"@));
    let q4 = q3.push((w.clients_rules.len() > 0, "clients_rules"@));
    lemma_picks_push(q4, (w.clients_use_glyphs is Some, "clients_use_glyphs"@));
    let q5 = q4.push((w.clients_use_glyphs is Some, "clients_use_glyphs"@));
    lemma_picks_push(q5, (w.clients_glyph_fallback is Some, "clients_glyph_fallback"@));
    let q6 = q5.push((w.clients_glyph_fallback is Some, "clients_glyph_fallback"@));
    lemma_picks_push(q6, (w.clients_spacing is Some, "clients_spacing"@));
    let q7 = q6.push((w.clients_spacing is Some, "clients_spacing"@));
    lemma_picks_push(q7, (w.angle is Some, "angle"@));
    let q8 = q7.push((w.angle is Some, "angle"@));
    assert(workspaces_tail_table(w) =~= q8);
    assert(workspaces_fields_tail(w) == picks(workspaces_tail_table(w)));
}

#[verifier::spinoff_prover]
#[verifier::rlimit(100)]
proof fn lemma_workspaces_table(w: WorkspacesProps)
    ensures
        workspaces_fields(w) == picks(workspaces_table(w)),
        pick_names(workspaces_table(w)) == workspaces_field_names(),
{
    lemma_workspaces_head_table(w);
    lemma_workspaces_tail_table(w);
    lemma_picks_append(workspaces_head_table(w), workspaces_tail_table(w));
    assert(pick_names(workspaces_table(w)) =~= workspaces_field_names());
}

#[verifier::spinoff_prover]
#[verifier::rlimit(60)]
proof fn lemma_workspaces_names_distinct()
    ensures
        names_distinct(workspaces_field_names()),
{
    let ns = workspaces_field_names();
    reveal_strlit("active_only");
    reveal_strlit("all_outputs");
    reveal_strlit("angle");
    reveal_strlit("clients_glyph_fallback");
    reveal_strlit("clients_icon_size");
    reveal_strlit("clients_max_items");
    reveal_strlit("clients_rules");
    reveal_strlit("clients_spacing");
    reveal_strlit("clients_use_glyphs");
    reveal_strlit("count");
    reveal_strlit("format");
    reveal_strlit("format_icons");
    reveal_strlit("format_states");
    reveal_strlit("labels");
    reveal_strlit("orientation");
    reveal_strlit("output");
    reveal_strlit("show_clients");
    reveal_strlit("spacing");
    reveal_strlit("state_labels");
    assert forall|a: int, b: int| 0 <= a < b < ns.len() implies #[trigger] ns[a] != #[trigger] ns[b] by {
        if a == 0 && b == 1 {
            assert(ns[0].len() != ns[1].len());
        } else if a == 0 && b == 2 {
            assert(ns[0].len() != ns[2].len());
        } else if a == 0 && b == 3 {
            assert(ns[0].len() != ns[3].len());
        } else if a == 0 && b == 4 {
            assert(ns[0].len() != ns[4].len());
        } else if a == 0 && b == 5 {
            assert(ns[0].len() != ns[5].len());
        } else if a == 0 && b == 6 {
            assert(ns[0].len() != ns[6].len());
        } else if a == 0 && b == 7 {
            assert(ns[0].len() != ns[7].len());
        } else if a == 0 && b == 8 {
            assert(ns[0].len() != ns[8].len());
        } else if a == 0 && b == 9 {
            assert(ns[0].len() != ns[9].len());
        } else if a == 0 && b == 10 {
            assert(ns[0].len() != ns[10].len());
        } else if a == 0 && b == 11 {
            assert(ns[0].len() != ns[11].len());
        } else if a == 0 && b == 12 {
            assert(ns[0].len() != ns[12].len());
        } else if a == 0 && b == 13 {
            assert(ns[0].len() != ns[13].len());
        } else if a == 0 && b == 14 {
            assert(ns[0].len() != ns[14].len());
        } else if a == 0 && b == 15 {
            assert(ns[0].len() != ns[15].len());
        } else if a == 0 && b == 16 {
            assert(ns[0].len() != ns[16].len());
        } else if a == 0 && b == 17 {
            assert(ns[0].len() != ns[17].len());
        } else if a == 0 && b == 18 {
            assert(ns[0][0] != ns[18][0]);
        } else if a == 1 && b == 2 {
            assert(ns[1][1] != ns[2][1]);
        } else if a == 1 && b == 3 {
            assert(ns[1].len() != ns[3].len());
        } else if a == 1 && b == 4 {
            assert(ns[1][0] != ns[4][0]);
        } else if a == 1 && b == 5 {
            assert(ns[1].len() != ns[5].len());
        } else if a == 1 && b == 6 {
            assert(ns[1].len() != ns[6].len());
        } else if a == 1 && b == 7 {
            assert(ns[1].len() != ns[7].len());
        } else if a == 1 && b == 8 {
            assert(ns[1].len() != ns[8].len());
        } else if a == 1 && b == 9 {
            assert(ns[1].len() != ns[9].len());
        } else if a == 1 && b == 10 {
            assert(ns[1].len() != ns[10].len());
        } else if a == 1 && b == 11 {
            assert(ns[1].len() != ns[11].len());
        } else if a == 1 && b == 12 {
            assert(ns[1].len() != ns[12].len());
        } else if a == 1 && b == 13 {
            assert(ns[1].len() != ns[13].len());
        } else if a == 1 && b == 14 {
            assert(ns[1].len() != ns[14].len());
        } else if a == 1 && b == 15 {
            assert(ns[1].len() != ns[15].len());
        } else if a == 1 && b == 16 {
            assert(ns[1].len() != ns[16].len());
        } else if a == 1 && b == 17 {
            assert(ns[1].len() != ns[17].len());
        } else if a == 1 && b == 18 {
            assert(ns[1].len() != ns[18].len());
        } else if a == 2 && b == 3 {
            assert(ns[2].len() != ns[3].len());
        } else if a == 2 && b == 4 {
            assert(ns[2][0] != ns[4][0]);
        } else if a == 2 && b == 5 {
            assert(ns[2].len() != ns[5].len());
        } else if a == 2 && b == 6 {
            assert(ns[2].len() != ns[6].len());
        } else if a == 2 && b == 7 {
            assert(ns[2].len() != ns[7].len());
        } else if a == 2 && b == 8 {
            assert(ns[2].len() != ns[8].len());
        } else if a == 2 && b == 9 {
            assert(ns[2].len() != ns[9].len());
        } else if a == 2 && b == 10 {
            assert(ns[2].len() != ns[10].len());
        } else if a == 2 && b == 11 {
            assert(ns[2].len() != ns[11].len());
        } else if a == 2 && b == 12 {
            assert(ns[2].len() != ns[12].len());
        } else if a == 2 && b == 13 {
            assert(ns[2].len() != ns[13].len());
        } else if a == 2 && b == 14 {
            assert(ns[2].len() != ns[14].len());
        } else if a == 2 && b == 15 {
            assert(ns[2].len() != ns[15].len());
        } else if a == 2 && b == 16 {
            assert(ns[2].len() != ns[16].len());
        } else if a == 2 && b == 17 {
            assert(ns[2].len() != ns[17].len());
        } else if a == 2 && b == 18 {
            assert(ns[2].len() != ns[18].len());
        } else if a == 3 && b == 4 {
            assert(ns[3].len() != ns[4].len());
        } else if a == 3 && b == 5 {
            assert(ns[3].len() != ns[5].len());
        } else if a == 3 && b == 6 {
            assert(ns[3][0] != ns[6][0]);
        } else if a == 3 && b == 7 {
            assert(ns[3].len() != ns[7].len());
        } else if a == 3 && b == 8 {
            assert(ns[3][0] != ns[8][0]);
        } else if a == 3 && b == 9 {
            assert(ns[3].len() != ns[9].len());
        } else if a == 3 && b == 10 {
            assert(ns[3].len() != ns[10].len());
        } else if a == 3 && b == 11 {
            assert(ns[3].len() != ns[11].len());
        } else if a == 3 && b == 12 {
            assert(ns[3].len() != ns[12].len());
        } else if a == 3 && b == 13 {
            assert(ns[3].len() != ns[13].len());
        } else if a == 3 && b == 14 {
            assert(ns[3].len() != ns[14].len());
        } else if a == 3 && b == 15 {
            assert(ns[3].len() != ns[15].len());
        } else if a == 3 && b == 16 {
            assert(ns[3].len() != ns[16].len());
        } else if a == 3 && b == 17 {
            assert(ns[3].len() != ns[17].len());
        } else if a == 3 && b == 18 {
            assert(ns[3].len() != ns[18].len());
        } else if a == 4 && b == 5 {
            assert(ns[4].len() != ns[5].len());
        } else if a == 4 && b == 6 {
            assert(ns[4].len() != ns[6].len());
        } else if a == 4 && b == 7 {
            assert(ns[4].len() != ns[7].len());
        } else if a == 4 && b == 8 {
            assert(ns[4].len() != ns[8].len());
        } else if a == 4 && b == 9 {
            assert(ns[4].len() != ns[9].len());
        } else if a == 4 && b == 10 {
            assert(ns[4].len() != ns[10].len());
        } else if a == 4 && b == 11 {
            assert(ns[4].len() != ns[11].len());
        } else if a == 4 && b == 12 {
            assert(ns[4].len() != ns[12].len());
        } else if a == 4 && b == 13 {
            assert(ns[4].len() != ns[13].len());
        } else if a == 4 && b == 14 {
            assert(ns[4].len() != ns[14].len());
        } else if a == 4 && b == 15 {
            assert(ns[4].len() != ns[15].len());
        } else if a == 4 && b == 16 {
            assert(ns[4].len() != ns[16].len());
        } else if a == 4 && b == 17 {
            assert(ns[4].len() != ns[17].len());
        } else if a == 4 && b == 18 {
            assert(ns[4].len() != ns[18].len());
        } else if a == 5 && b == 6 {
            assert(ns[5].len() != ns[6].len());
        } else if a == 5 && b == 7 {
            assert(ns[5].len() != ns[7].len());
        } else if a == 5 && b == 8 {
            assert(ns[5].len() != ns[8].len());
        } else if a == 5 && b == 9 {
            assert(ns[5].len() != ns[9].len());
        } else if a == 5 && b == 10 {
            assert(ns[5].len() != ns[10].len());
        } else if a == 5 && b == 11 {
            assert(ns[5].len() != ns[11].len());
        } else if a == 5 && b == 12 {
            assert(ns[5].len() != ns[12].len());
        } else if a == 5 && b == 13 {
            assert(ns[5].len() != ns[13].len());
        } else if a == 5 && b == 14 {
            assert(ns[5].len() != ns[14].len());
        } else if a == 5 && b == 15 {
            assert(ns[5].len() != ns[15].len());
        } else if a == 5 && b == 16 {
            assert(ns[5].len() != ns[16].len());
        } else if a == 5 && b == 17 {
            assert(ns[5].len() != ns[17].len());
        } else if a == 5 && b == 18 {
            assert(ns[5].len() != ns[18].len());
        } else if a == 6 && b == 7 {
            assert(ns[6].len() != ns[7].len());
        } else if a == 6 && b == 8 {
            assert(ns[6][0] != ns[8][0]);
        } else if a == 6 && b == 9 {
            assert(ns[6].len() != ns[9].len());
        } else if a == 6 && b == 10 {
            assert(ns[6].len() != ns[10].len());
        } else if a == 6 && b == 11 {
            assert(ns[6].len() != ns[11].len());
        } else if a == 6 && b == 12 {
            assert(ns[6].len() != ns[12].len());
        } else if a == 6 && b == 13 {
            assert(ns[6].len() != ns[13].len());
        } else if a == 6 && b == 14 {
            assert(ns[6].len() != ns[14].len());
        } else if a == 6 && b == 15 {
            assert(ns[6].len() != ns[15].len());
        } else if a == 6 && b == 16 {
            assert(ns[6].len() != ns[16].len());
        } else if a == 6 && b == 17 {
            assert(ns[6].len() != ns[17].len());
        } else if a == 6 && b == 18 {
            assert(ns[6].len() != ns[18].len());
        } else if a == 7 && b == 8 {
            assert(ns[7].len() != ns[8].len());
        } else if a == 7 && b == 9 {
            assert(ns[7].len() != ns[9].len());
        } else if a == 7 && b == 10 {
            assert(ns[7].len() != ns[10].len());
        } else if a == 7 && b == 11 {
            assert(ns[7].len() != ns[11].len());
        } else if a == 7 && b == 12 {
            assert(ns[7].len() != ns[12].len());
        } else if a == 7 && b == 13 {
            assert(ns[7].len() != ns[13].len());
        } else if a == 7 && b == 14 {
            assert(ns[7][0] != ns[14][0]);
        } else if a == 7 && b == 15 {
            assert(ns[7].len() != ns[15].len());
        } else if a == 7 && b == 16 {
            assert(ns[7].len() != ns[16].len());
        } else if a == 7 && b == 17 {
            assert(ns[7].len() != ns[17].len());
        } else if a == 7 && b == 18 {
            assert(ns[7].len() != ns[18].len());
        } else if a == 8 && b == 9 {
            assert(ns[8].len() != ns[9].len());
        } else if a == 8 && b == 10 {
            assert(ns[8].len() != ns[10].len());
        } else if a == 8 && b == 11 {
            assert(ns[8].len() != ns[11].len());
        } else if a == 8 && b == 12 {
            assert(ns[8].len() != ns[12].len());
        } else if a == 8 && b == 13 {
            assert(ns[8].len() != ns[13].len());
        } else if a == 8 && b == 14 {
            assert(ns[8].len() != ns[14].len());
        } else if a == 8 && b == 15 {
            assert(ns[8].len() != ns[15].len());
        } else if a == 8 && b == 16 {
            assert(ns[8].len() != ns[16].len());
        } else if a == 8 && b == 17 {
            assert(ns[8].len() != ns[17].len());
        } else if a == 8 && b == 18 {
            assert(ns[8].len() != ns[18].len());
        } else if a == 9 && b == 10 {
            assert(ns[9][0] != ns[10][0]);
        } else if a == 9 && b == 11 {
            assert(ns[9][1] != ns[11][1]);
        } else if a == 9 && b == 12 {
            assert(ns[9].len() != ns[12].len());
        } else if a == 9 && b == 13 {
            assert(ns[9].len() != ns[13].len());
        } else if a == 9 && b == 14 {
            assert(ns[9].len() != ns[14].len());
        } else if a == 9 && b == 15 {
            assert(ns[9].len() != ns[15].len());
        } else if a == 9 && b == 16 {
            assert(ns[9].len() != ns[16].len());
        } else if a == 9 && b == 17 {
            assert(ns[9].len() != ns[17].len());
        } else if a == 9 && b == 18 {
            assert(ns[9].len() != ns[18].len());
        } else if a == 10 && b == 11 {
            assert(ns[10][0] != ns[11][0]);
        } else if a == 10 && b == 12 {
            assert(ns[10].len() != ns[12].len());
        } else if a == 10 && b == 13 {
            assert(ns[10].len() != ns[13].len());
        } else if a == 10 && b == 14 {
            assert(ns[10].len() != ns[14].len());
        } else if a == 10 && b == 15 {
            assert(ns[10].len() != ns[15].len());
        } else if a == 10 && b == 16 {
            assert(ns[10].len() != ns[16].len());
        } else if a == 10 && b == 17 {
            assert(ns[10].len() != ns[17].len());
        } else if a == 10 && b == 18 {
            assert(ns[10].len() != ns[18].len());
        } else if a == 11 && b == 12 {
            assert(ns[11].len() != ns[12].len());
        } else if a == 11 && b == 13 {
            assert(ns[11].len() != ns[13].len());
        } else if a == 11 && b == 14 {
            assert(ns[11].len() != ns[14].len());
        } else if a == 11 && b == 15 {
            assert(ns[11].len() != ns[15].len());
        } else if a == 11 && b == 16 {
            assert(ns[11].len() != ns[16].len());
        } else if a == 11 && b == 17 {
            assert(ns[11].len() != ns[17].len());
        } else if a == 11 && b == 18 {
            assert(ns[11].len() != ns[18].len());
        } else if a == 12 && b == 13 {
            assert(ns[12][8] != ns[13][8]);
        } else if a == 12 && b == 14 {
            assert(ns[12].len() != ns[14].len());
        } else if a == 12 && b == 15 {
            assert(ns[12].len() != ns[15].len());
        } else if a == 12 && b == 16 {
            assert(ns[12].len() != ns[16].len());
        } else if a == 12 && b == 17 {
            assert(ns[12].len() != ns[17].len());
        } else if a == 12 && b == 18 {
            assert(ns[12].len() != ns[18].len());
        } else if a == 13 && b == 14 {
            assert(ns[13].len() != ns[14].len());
        } else if a == 13 && b == 15 {
            assert(ns[13].len() != ns[15].len());
        } else if a == 13 && b == 16 {
            assert(ns[13].len() != ns[16].len());
        } else if a == 13 && b == 17 {
            assert(ns[13].len() != ns[17].len());
        } else if a == 13 && b == 18 {
            assert(ns[13].len() != ns[18].len());
        } else if a == 14 && b == 15 {
            assert(ns[14].len() != ns[15].len());
        } else if a == 14 && b == 16 {
            assert(ns[14].len() != ns[16].len());
        } else if a == 14 && b == 17 {
            assert(ns[14].len() != ns[17].len());
        } else if a == 14 && b == 18 {
            assert(ns[14].len() != ns[18].len());
        } else if a == 15 && b == 16 {
            assert(ns[15].len() != ns[16].len());
        } else if a == 15 && b == 17 {
            assert(ns[15].len() != ns[17].len());
        } else if a == 15 && b == 18 {
            assert(ns[15].len() != ns[18].len());
        } else if a == 16 && b == 17 {
            assert(ns[16].len() != ns[17].len());
        } else if a == 16 && b == 18 {
            assert(ns[16].len() != ns[18].len());
        } else if a == 17 && b == 18 {
            assert(ns[17].len() != ns[18].len());
        }
    }
}

proof fn lemma_workspaces_names_allowed_workspaces()
    ensures
        all_allowed(workspaces_field_names(), WidgetKind::Workspaces),
{
    let ns = workspaces_field_names();
    assert forall|x: int| 0 <= x < ns.len() implies allowed_field_names(WidgetKind::Workspaces).contains(#[trigger] ns[x]) by {
        if x == 0 {
            assert(allowed_field_names(WidgetKind::Workspaces)[11] == ns[0]);
        } else if x == 1 {
            assert(allowed_field_names(WidgetKind::Workspaces)[12] == ns[1]);
        } else if x == 2 {
            assert(allowed_field_names(WidgetKind::Workspaces)[13] == ns[2]);
        } else if x == 3 {
            assert(allowed_field_names(WidgetKind::Workspaces)[14] == ns[3]);
        } else if x == 4 {
            assert(allowed_field_names(WidgetKind::Workspaces)[15] == ns[4]);
        } else if x == 5 {
            assert(allowed_field_names(WidgetKind::Workspaces)[16] == ns[5]);
        } else if x == 6 {
            assert(allowed_field_names(WidgetKind::Workspaces)[17] == ns[6]);
        } else if x == 7 {
            assert(allowed_field_names(WidgetKind::Workspaces)[18] == ns[7]);
        } else if x == 8 {
            assert(allowed_field_names(WidgetKind::Workspaces)[19] == ns[8]);
        } else if x == 9 {
            assert(allowed_field_names(WidgetKind::Workspaces)[20] == ns[9]);
        } else if x == 10 {
            assert(allowed_field_names(WidgetKind::Workspaces)[21] == ns[10]);
        } else if x == 11 {
            assert(allowed_field_names(WidgetKind::Workspaces)[22] == ns[11]);
        } else if x == 12 {
            assert(allowed_field_names(WidgetKind::Workspaces)[23] == ns[12]);
        } else if x == 13 {
            assert(allowed_field_names(WidgetKind::Workspaces)[24] == ns[13]);
        } else if x == 14 {
            assert(allowed_field_names(WidgetKind::Workspaces)[25] == ns[14]);
        } else if x == 15 {
            assert(allowed_field_names(WidgetKind::Workspaces)[26] == ns[15]);
        } else if x == 16 {
            assert(allowed_field_names(WidgetKind::Workspaces)[27] == ns[16]);
        } else if x == 17 {
            assert(allowed_field_names(WidgetKind::Workspaces)[28] == ns[17]);
        } else if x == 18 {
            assert(allowed_field_names(WidgetKind::Workspaces)[29] == ns[18]);
        }
    }
}

proof fn lemma_workspaces_fields_accepted(w: WorkspacesProps)
    ensures
        names_distinct(workspaces_fields(w)),
        all_allowed(workspaces_fields(w), WidgetKind::Workspaces),
{
    lemma_workspaces_table(w);
    lemma_workspaces_names_distinct();
    lemma_workspaces_names_allowed_workspaces();
    lemma_picks_accepted(workspaces_table(w), WidgetKind::Workspaces);
}

pub open spec fn dock_field_names() -> Seq<Seq<char>> {
    seq!["orientation"@, "output"@, "all_outputs"@, "spacing"@, "max_items"@, "format"@, "format_states"@, "image_map"@, "icon_size"@, "on_click"@, "angle"@]
}

pub open spec fn dock_table(d: DockProps) -> Seq<(bool, Seq<char>)> {
    seq![
        (d.orientation is Some, "orientation"@),
        (d.output is Some, "output"@),
        (d.all_outputs is Some, "all_outputs"@),
        (d.spacing is Some, "spacing"@),
        (d.max_items is Some, "max_items"@),
        (d.format is Some, "format"@),
        (d.format_states.len() > 0, "format_states"@),
        (d.image_map.len() > 0, "image_map"@),
        (d.icon_size is Some, "icon_size"@),
        (d.on_click.left is Some || d.on_click.middle is Some || d.on_click.right is Some || d.on_click.wheel_up is Some || d.on_click.wheel_down is Some, "on_click"@),
        (d.angle is Some, "angle"@),
    ]
}

#[verifier::spinoff_prover]
#[verifier::rlimit(100)]
proof fn lemma_dock_table(d: DockProps)
    ensures
        dock_fields(d) == picks(dock_table(d)),
        pick_names(dock_table(d)) == dock_field_names(),
{
    let p0 = Seq::<(bool, Seq<char>)>::empty();
    lemma_picks_push(p0, (d.orientation is Some, "orientation"@));
    let p1 = p0.push((d.orientation is Some, "orientation"@));
    lemma_picks_push(p1, (d.output is Some, "output"@));
    let p2 = p1.push((d.output is Some, "output"@));
    lemma_picks_push(p2, (d.all_outputs is Some, "all_outputs"@));
    let p3 = p2.push((d.all_outputs is Some, "all_outputs"@));
    lemma_picks_push(p3, (d.spacing is Some, "spacing"@));
    let p4 = p3.push((d.spacing is Some, "spacing"@));
    lemma_picks_push(p4, (d.max_items is Some, "max_items"@));
    let p5 = p4.push((d.max_items is Some, "max_items"@));
    lemma_picks_push(p5, (d.format is Some, "format"@));
    let p6 = p5.push((d.format is Some, "format"@));
    lemma_picks_push(p6, (d.format_states.len() > 0, "format_states"@));
    let p7 = p6.push((d.format_states.len() > 0, "format_states"@));
    lemma_picks_push(p7, (d.image_map.len() > 0, "image_map"@));
    let p8 = p7.push((d.image_map.len() > 0, "image_map"@));
    lemma_picks_push(p8, (d.icon_size is Some, "icon_size"@));
    let p9 = p8.push((d.icon_size is Some, "icon_size"@));
    lemma_picks_push(p9, (d.on_click.left is Some || d.on_click.middle is Some || d.on_click.right is Some || d.on_click.wheel_up is Some || d.on_click.wheel_down is Some, "on_click"@));
    let p10 = p9.push((d.on_click.left is Some || d.on_click.middle is Some || d.on_click.right is Some || d.on_click.wheel_up is Some || d.on_click.wheel_down is Some, "on_click"@));
    lemma_picks_push(p10, (d.angle is Some, "angle"@));
    let p11 = p10.push((d.angle is Some, "angle"@));
    assert(dock_table(d) =~= p11);
    assert(dock_fields(d) == picks(dock_table(d)));
    assert(pick_names(dock_table(d)) =~= dock_field_names());
}

#[verifier::spinoff_prover]
#[verifier::rlimit(60)]
proof fn lemma_dock_names_distinct()
    ensures
        names_distinct(dock_field_names()),
{
    let ns = dock_field_names();
    reveal_strlit("all_outputs");
    reveal_strlit("angle");
    reveal_strlit("format");
    reveal_strlit("format_states");
    reveal_strlit("icon_size");
    reveal_strlit("image_map");
    reveal_strlit("max_items");
    reveal_strlit("on_click");
    reveal_strlit("orientation");
    reveal_strlit("output");
    reveal_strlit("spacing");
    assert forall|a: int, b: int| 0 <= a < b < ns.len() implies #[trigger] ns[a] != #[trigger] ns[b] by {
        if a == 0 && b == 1 {
            assert(ns[0].len() != ns[1].len());
        } else if a == 0 && b == 2 {
            assert(ns[0][0] != ns[2][0]);
        } else if a == 0 && b == 3 {
            assert(ns[0].len() != ns[3].len());
        } else if a == 0 && b == 4 {
            assert(ns[0].len() != ns[4].len());
        } else if a == 0 && b == 5 {
            assert(ns[0].len() != ns[5].len());
        } else if a == 0 && b == 6 {
            assert(ns[0].len() != ns[6].len());
        } else if a == 0 && b == 7 {
            assert(ns[0].len() != ns[7].len());
        } else if a == 0 && b == 8 {
            assert(ns[0].len() != ns[8].len());
        } else if a == 0 && b == 9 {
            assert(ns[0].len() != ns[9].len());
        } else if a == 0 && b == 10 {
            assert(ns[0].len() != ns[10].len());
        } else if a == 1 && b == 2 {
            assert(ns[1].len() != ns[2].len());
        } else if a == 1 && b == 3 {
            assert(ns[1].len() != ns[3].len());
        } else if a == 1 && b == 4 {
            assert(ns[1].len() != ns[4].len());
        } else if a == 1 && b == 5 {
            assert(ns[1][0] != ns[5][0]);
        } else if a == 1 && b == 6 {
            assert(ns[1].len() != ns[6].len());
        } else if a == 1 && b == 7 {
            assert(ns[1].len() != ns[7].len());
        } else if a == 1 && b == 8 {
            assert(ns[1].len() != ns[8].len());
        } else if a == 1 && b == 9 {
            assert(ns[1].len() != ns[9].len());
        } else if a == 1 && b == 10 {
            assert(ns[1].len() != ns[10].len());
        } else if a == 2 && b == 3 {
            assert(ns[2].len() != ns[3].len());
        } else if a == 2 && b == 4 {
            assert(ns[2].len() != ns[4].len());
        } else if a == 2 && b == 5 {
            assert(ns[2].len() != ns[5].len());
        } else if a == 2 && b == 6 {
            assert(ns[2].len() != ns[6].len());
        } else if a == 2 && b == 7 {
            assert(ns[2].len() != ns[7].len());
        } else if a == 2 && b == 8 {
            assert(ns[2].len() != ns[8].len());
        } else if a == 2 && b == 9 {
            assert(ns[2].len() != ns[9].len());
        } else if a == 2 && b == 10 {
            assert(ns[2].len() != ns[10].len());
        } else if a == 3 && b == 4 {
            assert(ns[3].len() != ns[4].len());
        } else if a == 3 && b == 5 {
            assert(ns[3].len() != ns[5].len());
        } else if a == 3 && b == 6 {
            assert(ns[3].len() != ns[6].len());
        } else if a == 3 && b == 7 {
            assert(ns[3].len() != ns[7].len());
        } else if a == 3 && b == 8 {
            assert(ns[3].len() != ns[8].len());
        } else if a == 3 && b == 9 {
            assert(ns[3].len() != ns[9].len());
        } else if a == 3 && b == 10 {
            assert(ns[3].len() != ns[10].len());
        } else if a == 4 && b == 5 {
            assert(ns[4].len() != ns[5].len());
        } else if a == 4 && b == 6 {
            assert(ns[4].len() != ns[6].len());
        } else if a == 4 && b == 7 {
            assert(ns[4][0] != ns[7][0]);
        } else if a == 4 && b == 8 {
            assert(ns[4][0] != ns[8][0]);
        } else if a == 4 && b == 9 {
            assert(ns[4].len() != ns[9].len());
        } else if a == 4 && b == 10 {
            assert(ns[4].len() != ns[10].len());
        } else if a == 5 && b == 6 {
            assert(ns[5].len() != ns[6].len());
        } else if a == 5 && b == 7 {
            assert(ns[5].len() != ns[7].len());
        } else if a == 5 && b == 8 {
            assert(ns[5].len() != ns[8].len());
        } else if a == 5 && b == 9 {
            assert(ns[5].len() != ns[9].len());
        } else if a == 5 && b == 10 {
            assert(ns[5].len() != ns[10].len());
        } else if a == 6 && b == 7 {
            assert(ns[6].len() != ns[7].len());
        } else if a == 6 && b == 8 {
            assert(ns[6].len() != ns[8].len());
        } else if a == 6 && b == 9 {
            assert(ns[6].len() != ns[9].len());
        } else if a == 6 && b == 10 {
            assert(ns[6].len() != ns[10].len());
        } else if a == 7 && b == 8 {
            assert(ns[7][1] != ns[8][1]);
        } else if a == 7 && b == 9 {
            assert(ns[7].len() != ns[9].len());
        } else if a == 7 && b == 10 {
            assert(ns[7].len() != ns[10].len());
        } else if a == 8 && b == 9 {
            assert(ns[8].len() != ns[9].len());
        } else if a == 8 && b == 10 {
            assert(ns[8].len() != ns[10].len());
        } else if a == 9 && b == 10 {
            assert(ns[9].len() != ns[10].len());
        }
    }
}

proof fn lemma_dock_names_allowed_dock()
    ensures
        all_allowed(dock_field_names(), WidgetKind::Dock),
{
    let ns = dock_field_names();
    assert forall|x: int| 0 <= x < ns.len() implies allowed_field_names(WidgetKind::Dock).contains(#[trigger] ns[x]) by {
        if x == 0 {
            assert(allowed_field_names(WidgetKind::Dock)[11] == ns[0]);
        } else if x == 1 {
            assert(allowed_field_names(WidgetKind::Dock)[12] == ns[1]);
        } else if x == 2 {
            assert(allowed_field_names(WidgetKind::Dock)[13] == ns[2]);
        } else if x == 3 {
            assert(allowed_field_names(WidgetKind::Dock)[14] == ns[3]);
        } else if x == 4 {
            assert(allowed_field_names(WidgetKind::Dock)[15] == ns[4]);
        } else if x == 5 {
            assert(allowed_field_names(WidgetKind::Dock)[16] == ns[5]);
        } else if x == 6 {
            assert(allowed_field_names(WidgetKind::Dock)[17] == ns[6]);
        } else if x == 7 {
            assert(allowed_field_names(WidgetKind::Dock)[18] == ns[7]);
        } else if x == 8 {
            assert(allowed_field_names(WidgetKind::Dock)[19] == ns[8]);
        } else if x == 9 {
            assert(allowed_field_names(WidgetKind::Dock)[20] == ns[9]);
        } else if x == 10 {
            assert(allowed_field_names(WidgetKind::Dock)[21] == ns[10]);
        }
    }
}

proof fn lemma_dock_fields_accepted(d: DockProps)
    ensures
        names_distinct(dock_fields(d)),
        all_allowed(dock_fields(d), WidgetKind::Dock),
{
    lemma_dock_table(d);
    lemma_dock_names_distinct();
    lemma_dock_names_allowed_dock();
    lemma_picks_accepted(dock_table(d), WidgetKind::Dock);
}

pub open spec fn tray_field_names() -> Seq<Seq<char>> {
    seq!["orientation"@, "spacing"@, "icon_size"@, "max_items"@, "show_passive"@, "hide_when_empty"@]
}

pub open spec fn tray_table(t: TrayProps) -> Seq<(bool, Seq<char>)> {
    seq![
        (t.orientation is Some, "orientation"@),
        (t.spacing is Some, "spacing"@),
        (t.icon_size is Some, "icon_size"@),
        (t.max_items is Some, "max_items"@),
        (t.show_passive is Some, "show_passive"@),
        (t.hide_when_empty is Some, "hide_when_empty"@),
    ]
}

proof fn lemma_tray_table(t: TrayProps)
    ensures
        tray_fields(t) == picks(tray_table(t)),
        pick_names(tray_table(t)) == tray_field_names(),
{
    let p0 = Seq::<(bool, Seq<char>)>::empty();
    lemma_picks_push(p0, (t.orientation is Some, "orientation"@));
    let p1 = p0.push((t.orientation is Some, "orientation"@));
    lemma_picks_push(p1, (t.spacing is Some, "spacing"@));
    let p2 = p1.push((t.spacing is Some, "spacing"@));
    lemma_picks_push(p2, (t.icon_size is Some, "icon_size"@));
    let p3 = p2.push((t.icon_size is Some, "icon_size"@));
    lemma_picks_push(p3, (t.max_items is Some, "max_items"@));
    let p4 = p3.push((t.max_items is Some, "max_items"@));
    lemma_picks_push(p4, (t.show_passive is Some, "show_passive"@));
    let p5 = p4.push((t.show_passive is Some, "show_passive"@));
    lemma_picks_push(p5, (t.hide_when_empty is Some, "hide_when_empty"@));
    let p6 = p5.push((t.hide_when_empty is Some, "hide_when_empty"@));
    assert(tray_table(t) =~= p6);
    assert(tray_fields(t) == picks(tray_table(t)));
    assert(pick_names(tray_table(t)) =~= tray_field_names());
}

#[verifier::spinoff_prover]
#[verifier::rlimit(60)]
proof fn lemma_tray_names_distinct()
    ensures
        names_distinct(tray_field_names()),
{
    let ns = tray_field_names();
    reveal_strlit("hide_when_empty");
    reveal_strlit("icon_size");
    reveal_strlit("max_items");
    reveal_strlit("orientation");
    reveal_strlit("show_passive");
    reveal_strlit("spacing");
    assert forall|a: int, b: int| 0 <= a < b < ns.len() implies #[trigger] ns[a] != #[trigger] ns[b] by {
        if a == 0 && b == 1 {
            assert(ns[0].len() != ns[1].len());
        } else if a == 0 && b == 2 {
            assert(ns[0].len() != ns[2].len());
        } else if a == 0 && b == 3 {
            assert(ns[0].len() != ns[3].len());
        } else if a == 0 && b == 4 {
            assert(ns[0].len() != ns[4].len());
        } else if a == 0 && b == 5 {
            assert(ns[0].len() != ns[5].len());
        } else if a == 1 && b == 2 {
            assert(ns[1].len() != ns[2].len());
        } else if a == 1 && b == 3 {
            assert(ns[1].len() != ns[3].len());
        } else if a == 1 && b == 4 {
            assert(ns[1].len() != ns[4].len());
        } else if a == 1 && b == 5 {
            assert(ns[1].len() != ns[5].len());
        } else if a == 2 && b == 3 {
            assert(ns[2][0] != ns[3][0]);
        } else if a == 2 && b == 4 {
            assert(ns[2].len() != ns[4].len());
        } else if a == 2 && b == 5 {
            assert(ns[2].len() != ns[5].len());
        } else if a == 3 && b == 4 {
            assert(ns[3].len() != ns[4].len());
        } else if a == 3 && b == 5 {
            assert(ns[3].len() != ns[5].len());
        } else if a == 4 && b == 5 {
            assert(ns[4].len() != ns[5].len());
        }
    }
}

proof fn lemma_tray_names_allowed_tray()
    ensures
        all_allowed(tray_field_names(), WidgetKind::Tray),
{
    let ns = tray_field_names();
    assert forall|x: int| 0 <= x < ns.len() implies allowed_field_names(WidgetKind::Tray).contains(#[trigger] ns[x]) by {
        if x == 0 {
            assert(allowed_field_names(WidgetKind::Tray)[11] == ns[0]);
        } else if x == 1 {
            assert(allowed_field_names(WidgetKind::Tray)[12] == ns[1]);
        } else if x == 2 {
            assert(allowed_field_names(WidgetKind::Tray)[13] == ns[2]);
        } else if x == 3 {
            assert(allowed_field_names(WidgetKind::Tray)[14] == ns[3]);
        } else if x == 4 {
            assert(allowed_field_names(WidgetKind::Tray)[15] == ns[4]);
        } else if x == 5 {
            assert(allowed_field_names(WidgetKind::Tray)[16] == ns[5]);
        }
    }
}

proof fn lemma_tray_fields_accepted(t: TrayProps)
    ensures
        names_distinct(tray_fields(t)),
        all_allowed(tray_fields(t), WidgetKind::Tray),
{
    lemma_tray_table(t);
    lemma_tray_names_distinct();
    lemma_tray_names_allowed_tray();
    lemma_picks_accepted(tray_table(t), WidgetKind::Tray);
}

pub open spec fn image_field_names() -> Seq<Seq<char>> {
    seq!["path"@, "bind"@, "fit"@, "can_shrink"@, "on_click"@]
}

pub open spec fn image_table(i: ImageProps) -> Seq<(bool, Seq<char>)> {
    seq![
        (i.path is Some, "path"@),
        (i.bind is Some, "bind"@),
        (i.fit is Some, "fit"@),
        (i.can_shrink is Some, "can_shrink"@),
        (i.on_click.left is Some || i.on_click.middle is Some || i.on_click.right is Some || i.on_click.wheel_up is Some || i.on_click.wheel_down is Some, "on_click"@),
    ]
}

proof fn lemma_image_table(i: ImageProps)
    ensures
        image_fields(i) == picks(image_table(i)),
        pick_names(image_table(i)) == image_field_names(),
{
    let p0 = Seq::<(bool, Seq<char>)>::empty();
    lemma_picks_push(p0, (i.path is Some, "path"@));
    let p1 = p0.push((i.path is Some, "path"@));
    lemma_picks_push(p1, (i.bind is Some, "bind"@));
    let p2 = p1.push((i.bind is Some, "bind"@));
    lemma_picks_push(p2, (i.fit is Some, "fit"@));
    let p3 = p2.push((i.fit is Some, "fit"@));
    lemma_picks_push(p3, (i.can_shrink is Some, "can_shrink"@));
    let p4 = p3.push((i.can_shrink is Some, "can_shrink"@));
    lemma_picks_push(p4, (i.on_click.left is Some || i.on_click.middle is Some || i.on_click.right is Some || i.on_click.wheel_up is Some || i.on_click.wheel_down is Some, "on_click"@));
    let p5 = p4.push((i.on_click.left is Some || i.on_click.middle is Some || i.on_click.right is Some || i.on_click.wheel_up is Some || i.on_click.wheel_down is Some, "on_click"@));
    assert(image_table(i) =~= p5);
    assert(image_fields(i) == picks(image_table(i)));
    assert(pick_names(image_table(i)) =~= image_field_names());
}

#[verifier::spinoff_prover]
#[verifier::rlimit(60)]
proof fn lemma_image_names_distinct()
    ensures
        names_distinct(image_field_names()),
{
    let ns = image_field_names();
    reveal_strlit("bind");
    reveal_strlit("can_shrink");
    reveal_strlit("fit");
    reveal_strlit("on_click");
    reveal_strlit("path");
    assert forall|a: int, b: int| 0 <= a < b < ns.len() implies #[trigger] ns[a] != #[trigger] ns[b] by {
        if a == 0 && b == 1 {
            assert(ns[0][0] != ns[1][0]);
        } else if a == 0 && b == 2 {
            assert(ns[0].len() != ns[2].len());
        } else if a == 0 && b == 3 {
            assert(ns[0].len() != ns[3].len());
        } else if a == 0 && b == 4 {
            assert(ns[0].len() != ns[4].len());
        } else if a == 1 && b == 2 {
            assert(ns[1].len() != ns[2].len());
        } else if a == 1 && b == 3 {
            assert(ns[1].len() != ns[3].len());
        } else if a == 1 && b == 4 {
            assert(ns[1].len() != ns[4].len());
        } else if a == 2 && b == 3 {
            assert(ns[2].len() != ns[3].len());
        } else if a == 2 && b == 4 {
            assert(ns[2].len() != ns[4].len());
        } else if a == 3 && b == 4 {
            assert(ns[3].len() != ns[4].len());
        }
    }
}

proof fn lemma_image_names_allowed_image()
    ensures
        all_allowed(image_field_names(), WidgetKind::Image),
{
    let ns = image_field_names();
    assert forall|x: int| 0 <= x < ns.len() implies allowed_field_names(WidgetKind::Image).contains(#[trigger] ns[x]) by {
        if x == 0 {
            assert(allowed_field_names(WidgetKind::Image)[11] == ns[0]);
        } else if x == 1 {
            assert(allowed_field_names(WidgetKind::Image)[12] == ns[1]);
        } else if x == 2 {
            assert(allowed_field_names(WidgetKind::Image)[13] == ns[2]);
        } else if x == 3 {
            assert(allowed_field_names(WidgetKind::Image)[14] == ns[3]);
        } else if x == 4 {
            assert(allowed_field_names(WidgetKind::Image)[15] == ns[4]);
        }
    }
}

proof fn lemma_image_fields_accepted(i: ImageProps)
    ensures
        names_distinct(image_fields(i)),
        all_allowed(image_fields(i), WidgetKind::Image),
{
    lemma_image_table(i);
    lemma_image_names_distinct();
    lemma_image_names_allowed_image();
    lemma_picks_accepted(image_table(i), WidgetKind::Image);
}

pub open spec fn progress_field_names() -> Seq<Seq<char>> {
    seq!["bind"@, "value"@, "min"@, "max"@, "inverted"@]
}

pub open spec fn progress_table(p: ProgressProps) -> Seq<(bool, Seq<char>)> {
    seq![
        (p.bind is Some, "bind"@),
        (p.value is Some, "value"@),
        (p.min is Some, "min"@),
        (p.max is Some, "max"@),
        (p.inverted is Some, "inverted"@),
    ]
}

proof fn lemma_progress_table(p: ProgressProps)
    ensures
        progress_fields(p) == picks(progress_table(p)),
        pick_names(progress_table(p)) == progress_field_names(),
{
    let p0 = Seq::<(bool, Seq<char>)>::empty();
    lemma_picks_push(p0, (p.bind is Some, "bind"@));
    let p1 = p0.push((p.bind is Some, "bind"@));
    lemma_picks_push(p1, (p.value is Some, "value"@));
    let p2 = p1.push((p.value is Some, "value"@));
    lemma_picks_push(p2, (p.min is Some, "min"@));
    let p3 = p2.push((p.min is Some, "min"@));
    lemma_picks_push(p3, (p.max is Some, "max"@));
    let p4 = p3.push((p.max is Some, "max"@));
    lemma_picks_push(p4, (p.inverted is Some, "inverted"@));
    let p5 = p4.push((p.inverted is Some, "inverted"@));
    assert(progress_table(p) =~= p5);
    assert(progress_fields(p) == picks(progress_table(p)));
    assert(pick_names(progress_table(p)) =~= progress_field_names());
}

#[verifier::spinoff_prover]
#[verifier::rlimit(60)]
proof fn lemma_progress_names_distinct()
    ensures
        names_distinct(progress_field_names()),
{
    let ns = progress_field_names();
    reveal_strlit("bind");
    reveal_strlit("inverted");
    reveal_strlit("max");
    reveal_strlit("min");
    reveal_strlit("value");
    assert forall|a: int, b: int| 0 <= a < b < ns.len() implies #[trigger] ns[a] != #[trigger] ns[b] by {
        if a == 0 && b == 1 {
            assert(ns[0].len() != ns[1].len());
        } else if a == 0 && b == 2 {
            assert(ns[0].len() != ns[2].len());
        } else if a == 0 && b == 3 {
            assert(ns[0].len() != ns[3].len());
        } else if a == 0 && b == 4 {
            assert(ns[0].len() != ns[4].len());
        } else if a == 1 && b == 2 {
            assert(ns[1].len() != ns[2].len());
        } else if a == 1 && b == 3 {
            assert(ns[1].len() != ns[3].len());
        } else if a == 1 && b == 4 {
            assert(ns[1].len() != ns[4].len());
        } else if a == 2 && b == 3 {
            assert(ns[2][1] != ns[3][1]);
        } else if a == 2 && b == 4 {
            assert(ns[2].len() != ns[4].len());
        } else if a == 3 && b == 4 {
            assert(ns[3].len() != ns[4].len());
        }
    }
}

proof fn lemma_progress_names_allowed_progress()
    ensures
        all_allowed(progress_field_names(), WidgetKind::Progress),
{
    let ns = progress_field_names();
    assert forall|x: int| 0 <= x < ns.len() implies allowed_field_names(WidgetKind::Progress).contains(#[trigger] ns[x]) by {
        if x == 0 {
            assert(allowed_field_names(WidgetKind::Progress)[11] == ns[0]);
        } else if x == 1 {
            assert(allowed_field_names(WidgetKind::Progress)[12] == ns[1]);
        } else if x == 2 {
            assert(allowed_field_names(WidgetKind::Progress)[13] == ns[2]);
        } else if x == 3 {
            assert(allowed_field_names(WidgetKind::Progress)[14] == ns[3]);
        } else if x == 4 {
            assert(allowed_field_names(WidgetKind::Progress)[15] == ns[4]);
        }
    }
}

proof fn lemma_progress_fields_accepted(p: ProgressProps)
    ensures
        names_distinct(progress_fields(p)),
        all_allowed(progress_fields(p), WidgetKind::Progress),
{
    lemma_progress_table(p);
    lemma_progress_names_distinct();
    lemma_progress_names_allowed_progress();
    lemma_picks_accepted(progress_table(p), WidgetKind::Progress);
}

pub open spec fn slider_field_names() -> Seq<Seq<char>> {
    seq!["bind"@, "value"@, "min"@, "max"@, "step"@, "scroll_step"@, "orientation"@, "inverted"@, "draw_value"@, "digits"@]
}

pub open spec fn slider_table(s: SliderProps) -> Seq<(bool, Seq<char>)> {
    seq![
        (s.bind is Some, "bind"@),
        (s.value is Some, "value"@),
        (s.min is Some, "min"@),
        (s.max is Some, "max"@),
        (s.step is Some, "step"@),
        (s.scroll_step is Some, "scroll_step"@),
        (s.orientation is Some, "orientation"@),
        (s.inverted is Some, "inverted"@),
        (s.draw_value is Some, "draw_value"@),
        (s.digits is Some, "digits"@),
    ]
}

proof fn lemma_slider_table(s: SliderProps)
    ensures
        slider_fields(s) == picks(slider_table(s)),
        pick_names(slider_table(s)) == slider_field_names(),
{
    let p0 = Seq::<(bool, Seq<char>)>::empty();
    lemma_picks_push(p0, (s.bind is Some, "bind"@));
    let p1 = p0.push((s.bind is Some, "bind"@));
    lemma_picks_push(p1, (s.value is Some, "value"@));
    let p2 = p1.push((s.value is Some, "value"@));
    lemma_picks_push(p2, (s.min is Some, "min"@));
    let p3 = p2.push((s.min is Some, "min"@));
    lemma_picks_push(p3, (s.max is Some, "max"@));
    let p4 = p3.push((s.max is Some, "max"@));
    lemma_picks_push(p4, (s.step is Some, "step"@));
    let p5 = p4.push((s.step is Some, "step"@));
    lemma_picks_push(p5, (s.scroll_step is Some, "scroll_step"@));
    let p6 = p5.push((s.scroll_step is Some, "scroll_step"@));
    lemma_picks_push(p6, (s.orientation is Some, "orientation"@));
    let p7 = p6.push((s.orientation is Some, "orientation"@));
    lemma_picks_push(p7, (s.inverted is Some, "inverted"@));
    let p8 = p7.push((s.inverted is Some, "inverted"@));
    lemma_picks_push(p8, (s.draw_value is Some, "draw_value"@));
    let p9 = p8.push((s.draw_value is Some, "draw_value"@));
    lemma_picks_push(p9, (s.digits is Some, "digits"@));
    let p10 = p9.push((s.digits is Some, "digits"@));
    assert(slider_table(s) =~= p10);
    assert(slider_fields(s) == picks(slider_table(s)));
    assert(pick_names(slider_table(s)) =~= slider_field_names());
}

#[verifier::spinoff_prover]
#[verifier::rlimit(60)]
proof fn lemma_slider_names_distinct()
    ensures
        names_distinct(slider_field_names()),
{
    let ns = slider_field_names();
    reveal_strlit("bind");
    reveal_strlit("digits");
    reveal_strlit("draw_value");
    reveal_strlit("inverted");
    reveal_strlit("max");
    reveal_strlit("min");
    reveal_strlit("orientation");
    reveal_strlit("scroll_step");
    reveal_strlit("step");
    reveal_strlit("value");
    assert forall|a: int, b: int| 0 <= a < b < ns.len() implies #[trigger] ns[a] != #[trigger] ns[b] by {
        if a == 0 && b == 1 {
            assert(ns[0].len() != ns[1].len());
        } else if a == 0 && b == 2 {
            assert(ns[0].len() != ns[2].len());
        } else if a == 0 && b == 3 {
            assert(ns[0].len() != ns[3].len());
        } else if a == 0 && b == 4 {
            assert(ns[0][0] != ns[4][0]);
        } else if a == 0 && b == 5 {
            assert(ns[0].len() != ns[5].len());
        } else if a == 0 && b == 6 {
            assert(ns[0].len() != ns[6].len());
        } else if a == 0 && b == 7 {
            assert(ns[0].len() != ns[7].len());
        } else if a == 0 && b == 8 {
            assert(ns[0].len() != ns[8].len());
        } else if a == 0 && b == 9 {
            assert(ns[0].len() != ns[9].len());
        } else if a == 1 && b == 2 {
            assert(ns[1].len() != ns[2].len());
        } else if a == 1 && b == 3 {
            assert(ns[1].len() != ns[3].len());
        } else if a == 1 && b == 4 {
            assert(ns[1].len() != ns[4].len());
        } else if a == 1 && b == 5 {
            assert(ns[1].len() != ns[5].len());
        } else if a == 1 && b == 6 {
            assert(ns[1].len() != ns[6].len());
        } else if a == 1 && b == 7 {
            assert(ns[1].len() != ns[7].len());
        } else if a == 1 && b == 8 {
            assert(ns[1].len() != ns[8].len());
        } else if a == 1 && b == 9 {
            assert(ns[1].len() != ns[9].len());
        } else if a == 2 && b == 3 {
            assert(ns[2][1] != ns[3][1]);
        } else if a == 2 && b == 4 {
            assert(ns[2].len() != ns[4].len());
        } else if a == 2 && b == 5 {
            assert(ns[2].len() != ns[5].len());
        } else if a == 2 && b == 6 {
            assert(ns[2].len() != ns[6].len());
        } else if a == 2 && b == 7 {
            assert(ns[2].len() != ns[7].len());
        } else if a == 2 && b == 8 {
            assert(ns[2].len() != ns[8].len());
        } else if a == 2 && b == 9 {
            assert(ns[2].len() != ns[9].len());
        } else if a == 3 && b == 4 {
            assert(ns[3].len() != ns[4].len());
        } else if a == 3 && b == 5 {
            assert(ns[3].len() != ns[5].len());
        } else if a == 3 && b == 6 {
            assert(ns[3].len() != ns[6].len());
        } else if a == 3 && b == 7 {
            assert(ns[3].len() != ns[7].len());
        } else if a == 3 && b == 8 {
            assert(ns[3].len() != ns[8].len());
        } else if a == 3 && b == 9 {
            assert(ns[3].len() != ns[9].len());
        } else if a == 4 && b == 5 {
            assert(ns[4].len() != ns[5].len());
        } else if a == 4 && b == 6 {
            assert(ns[4].len() != ns[6].len());
        } else if a == 4 && b == 7 {
            assert(ns[4].len() != ns[7].len());
        } else if a == 4 && b == 8 {
            assert(ns[4].len() != ns[8].len());
        } else if a == 4 && b == 9 {
            assert(ns[4].len() != ns[9].len());
        } else if a == 5 && b == 6 {
            assert(ns[5][0] != ns[6][0]);
        } else if a == 5 && b == 7 {
            assert(ns[5].len() != ns[7].len());
        } else if a == 5 && b == 8 {
            assert(ns[5].len() != ns[8].len());
        } else if a == 5 && b == 9 {
            assert(ns[5].len() != ns[9].len());
        } else if a == 6 && b == 7 {
            assert(ns[6].len() != ns[7].len());
        } else if a == 6 && b == 8 {
            assert(ns[6].len() != ns[8].len());
        } else if a == 6 && b == 9 {
            assert(ns[6].len() != ns[9].len());
        } else if a == 7 && b == 8 {
            assert(ns[7].len() != ns[8].len());
        } else if a == 7 && b == 9 {
            assert(ns[7].len() != ns[9].len());
        } else if a == 8 && b == 9 {
            assert(ns[8].len() != ns[9].len());
        }
    }
}

proof fn lemma_slider_names_allowed_slider()
    ensures
        all_allowed(slider_field_names(), WidgetKind::Slider),
{
    let ns = slider_field_names();
    assert forall|x: int| 0 <= x < ns.len() implies allowed_field_names(WidgetKind::Slider).contains(#[trigger] ns[x]) by {
        if x == 0 {
            assert(allowed_field_names(WidgetKind::Slider)[11] == ns[0]);
        } else if x == 1 {
            assert(allowed_field_names(WidgetKind::Slider)[12] == ns[1]);
        } else if x == 2 {
            assert(allowed_field_names(WidgetKind::Slider)[13] == ns[2]);
        } else if x == 3 {
            assert(allowed_field_names(WidgetKind::Slider)[14] == ns[3]);
        } else if x == 4 {
            assert(allowed_field_names(WidgetKind::Slider)[15] == ns[4]);
        } else if x == 5 {
            assert(allowed_field_names(WidgetKind::Slider)[16] == ns[5]);
        } else if x == 6 {
            assert(allowed_field_names(WidgetKind::Slider)[17] == ns[6]);
        } else if x == 7 {
            assert(allowed_field_names(WidgetKind::Slider)[18] == ns[7]);
        } else if x == 8 {
            assert(allowed_field_names(WidgetKind::Slider)[19] == ns[8]);
        } else if x == 9 {
            assert(allowed_field_names(WidgetKind::Slider)[20] == ns[9]);
        }
    }
}

proof fn lemma_slider_fields_accepted(s: SliderProps)
    ensures
        names_distinct(slider_fields(s)),
        all_allowed(slider_fields(s), WidgetKind::Slider),
{
    lemma_slider_table(s);
    lemma_slider_names_distinct();
    lemma_slider_names_allowed_slider();
    lemma_picks_accepted(slider_table(s), WidgetKind::Slider);
}

pub open spec fn list_field_names() -> Seq<Seq<char>> {
    seq!["bind"@, "count"@, "orientation"@, "spacing"@]
}

pub open spec fn list_table(l: ListProps) -> Seq<(bool, Seq<char>)> {
    seq![
        (l.bind is Some, "bind"@),
        (l.count is Some, "count"@),
        (l.orientation is Some, "orientation"@),
        (l.spacing is Some, "spacing"@),
    ]
}

proof fn lemma_list_table(l: ListProps)
    ensures
        list_fields(l) == picks(list_table(l)),
        pick_names(list_table(l)) == list_field_names(),
{
    let p0 = Seq::<(bool, Seq<char>)>::empty();
    lemma_picks_push(p0, (l.bind is Some, "bind"@));
    let p1 = p0.push((l.bind is Some, "bind"@));
    lemma_picks_push(p1, (l.count is Some, "count"@));
    let p2 = p1.push((l.count is Some, "count"@));
    lemma_picks_push(p2, (l.orientation is Some, "orientation"@));
    let p3 = p2.push((l.orientation is Some, "orientation"@));
    lemma_picks_push(p3, (l.spacing is Some, "spacing"@));
    let p4 = p3.push((l.spacing is Some, "spacing"@));
    assert(list_table(l) =~= p4);
    assert(list_fields(l) == picks(list_table(l)));
    assert(pick_names(list_table(l)) =~= list_field_names());
}

#[verifier::spinoff_prover]
#[verifier::rlimit(60)]
proof fn lemma_list_names_distinct()
    ensures
        names_distinct(list_field_names()),
{
    let ns = list_field_names();
    reveal_strlit("bind");
    reveal_strlit("count");
    reveal_strlit("orientation");
    reveal_strlit("spacing");
    assert forall|a: int, b: int| 0 <= a < b < ns.len() implies #[trigger] ns[a] != #[trigger] ns[b] by {
        if a == 0 && b == 1 {
            assert(ns[0].len() != ns[1].len());
        } else if a == 0 && b == 2 {
            assert(ns[0].len() != ns[2].len());
        } else if a == 0 && b == 3 {
            assert(ns[0].len() != ns[3].len());
        } else if a == 1 && b == 2 {
            assert(ns[1].len() != ns[2].len());
        } else if a == 1 && b == 3 {
            assert(ns[1].len() != ns[3].len());
        } else if a == 2 && b == 3 {
            assert(ns[2].len() != ns[3].len());
        }
    }
}

proof fn lemma_list_names_allowed_list()
    ensures
        all_allowed(list_field_names(), WidgetKind::List),
{
    let ns = list_field_names();
    assert forall|x: int| 0 <= x < ns.len() implies allowed_field_names(WidgetKind::List).contains(#[trigger] ns[x]) by {
        if x == 0 {
            assert(allowed_field_names(WidgetKind::List)[12] == ns[0]);
        } else if x == 1 {
            assert(allowed_field_names(WidgetKind::List)[13] == ns[1]);
        } else if x == 2 {
            assert(allowed_field_names(WidgetKind::List)[14] == ns[2]);
        } else if x == 3 {
            assert(allowed_field_names(WidgetKind::List)[15] == ns[3]);
        }
    }
}

proof fn lemma_list_fields_accepted(l: ListProps)
    ensures
        names_distinct(list_fields(l)),
        all_allowed(list_fields(l), WidgetKind::List),
{
    lemma_list_table(l);
    lemma_list_names_distinct();
    lemma_list_names_allowed_list();
    lemma_picks_accepted(list_table(l), WidgetKind::List);
}

pub open spec fn popover_field_names() -> Seq<Seq<char>> {
    seq!["position"@, "autohide"@, "has_arrow"@]
}

pub open spec fn popover_table(p: PopoverProps) -> Seq<(bool, Seq<char>)> {
    seq![
        (p.position is Some, "position"@),
        (p.autohide is Some, "autohide"@),
        (p.has_arrow is Some, "has_arrow"@),
    ]
}

proof fn lemma_popover_table(p: PopoverProps)
    ensures
        popover_fields(p) == picks(popover_table(p)),
        pick_names(popover_table(p)) == popover_field_names(),
{
    let p0 = Seq::<(bool, Seq<char>)>::empty();
    lemma_picks_push(p0, (p.position is Some, "position"@));
    let p1 = p0.push((p.position is Some, "position"@));
    lemma_picks_push(p1, (p.autohide is Some, "autohide"@));
    let p2 = p1.push((p.autohide is Some, "autohide"@));
    lemma_picks_push(p2, (p.has_arrow is Some, "has_arrow"@));
    let p3 = p2.push((p.has_arrow is Some, "has_arrow"@));
    assert(popover_table(p) =~= p3);
    assert(popover_fields(p) == picks(popover_table(p)));
    assert(pick_names(popover_table(p)) =~= popover_field_names());
}

#[verifier::spinoff_prover]
#[verifier::rlimit(60)]
proof fn lemma_popover_names_distinct()
    ensures
        names_distinct(popover_field_names()),
{
    let ns = popover_field_names();
    reveal_strlit("autohide");
    reveal_strlit("has_arrow");
    reveal_strlit("position");
    assert forall|a: int, b: int| 0 <= a < b < ns.len() implies #[trigger] ns[a] != #[trigger] ns[b] by {
        if a == 0 && b == 1 {
            assert(ns[0][0] != ns[1][0]);
        } else if a == 0 && b == 2 {
            assert(ns[0].len() != ns[2].len());
        } else if a == 1 && b == 2 {
            assert(ns[1].len() != ns[2].len());
        }
    }
}

proof fn lemma_popover_names_allowed_popover()
    ensures
        all_allowed(popover_field_names(), WidgetKind::Popover),
{
    let ns = popover_field_names();
    assert forall|x: int| 0 <= x < ns.len() implies allowed_field_names(WidgetKind::Popover).contains(#[trigger] ns[x]) by {
        if x == 0 {
            assert(allowed_field_names(WidgetKind::Popover)[12] == ns[0]);
        } else if x == 1 {
            assert(allowed_field_names(WidgetKind::Popover)[13] == ns[1]);
        } else if x == 2 {
            assert(allowed_field_names(WidgetKind::Popover)[14] == ns[2]);
        }
    }
}

proof fn lemma_popover_fields_accepted(p: PopoverProps)
    ensures
        names_distinct(popover_fields(p)),
        all_allowed(popover_fields(p), WidgetKind::Popover),
{
    lemma_popover_table(p);
    lemma_popover_names_distinct();
    lemma_popover_names_allowed_popover();
    lemma_picks_accepted(popover_table(p), WidgetKind::Popover);
}

/// The props variant that a widget of kind `k` carries (the three boxes
/// share theirs).
pub open spec fn props_of_kind(k: WidgetKind, p: WidgetProps) -> bool {
    match p {
        WidgetProps::HBox(_) => k == WidgetKind::HBox,
        WidgetProps::VBox(_) => k == WidgetKind::VBox,
        WidgetProps::CenterBox(_) => k == WidgetKind::CenterBox,
        WidgetProps::Revealer(_) => k == WidgetKind::Revealer,
        WidgetProps::Scroll(_) => k == WidgetKind::Scroll,
        WidgetProps::Overlay(_) => k == WidgetKind::Overlay,
        WidgetProps::List(_) => k == WidgetKind::List,
        WidgetProps::Popover(_) => k == WidgetKind::Popover,
        WidgetProps::Label(_) => k == WidgetKind::Label,
        WidgetProps::Button(_) => k == WidgetKind::Button,
        WidgetProps::Clock(_) => k == WidgetKind::Clock,
        WidgetProps::Workspaces(_) => k == WidgetKind::Workspaces,
        WidgetProps::Dock(_) => k == WidgetKind::Dock,
        WidgetProps::Tray(_) => k == WidgetKind::Tray,
        WidgetProps::Image(_) => k == WidgetKind::Image,
        WidgetProps::Progress(_) => k == WidgetKind::Progress,
        WidgetProps::Slider(_) => k == WidgetKind::Slider,
    }
}

/// The kind-specific fields a widget sets are each named once, and its kind
/// accepts every one of them: the validator never reports one of them as
/// disallowed.
pub proof fn law_props_fields_accepted(k: WidgetKind, p: WidgetProps)
    requires
        props_of_kind(k, p),
    ensures
        names_distinct(props_fields(p)),
        all_allowed(props_fields(p), k),
{
    match p {
        WidgetProps::HBox(b) => lemma_box_fields_accepted(b),
        WidgetProps::VBox(b) => lemma_box_fields_accepted(b),
        WidgetProps::CenterBox(b) => lemma_box_fields_accepted(b),
        WidgetProps::Revealer(r) => lemma_revealer_fields_accepted(r),
        WidgetProps::Scroll(s) => lemma_scroll_fields_accepted(s),
        WidgetProps::Label(l) => lemma_label_fields_accepted(l),
        WidgetProps::Button(b) => lemma_button_fields_accepted(b),
        WidgetProps::Clock(c) => lemma_clock_fields_accepted(c),
        WidgetProps::Workspaces(w) => lemma_workspaces_fields_accepted(w),
        WidgetProps::Dock(d) => lemma_dock_fields_accepted(d),
        WidgetProps::Tray(t) => lemma_tray_fields_accepted(t),
        WidgetProps::Image(i) => lemma_image_fields_accepted(i),
        WidgetProps::Progress(p) => lemma_progress_fields_accepted(p),
        WidgetProps::Slider(s) => lemma_slider_fields_accepted(s),
        WidgetProps::List(l) => lemma_list_fields_accepted(l),
        WidgetProps::Popover(p) => lemma_popover_fields_accepted(p),
        WidgetProps::Overlay(_) => {},
    }
}

} // verus!
