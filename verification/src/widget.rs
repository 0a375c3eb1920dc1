//! Widget kinds of the configuration language, the fields each kind
//! accepts, and click bindings.
use vstd::prelude::*;

use crate::text::{decimal, lower_seq, signed_decimal, str_eq, to_ascii_lowercase, trim, trim_str};

verus! {

/// The kinds of widget a configuration can build.
#[derive(Debug, Clone, Copy, PartialEq, Eq)]
pub enum WidgetKind {
    HBox,
    VBox,
    CenterBox,
    Revealer,
    Scroll,
    Overlay,
    List,
    Popover,
    Label,
    Button,
    Clock,
    Workspaces,
    Dock,
    Tray,
    Image,
    Progress,
    Slider,
}

/// The name of a widget kind in the configuration language.
pub open spec fn kind_name(k: WidgetKind) -> Seq<char> {
    match k {
        WidgetKind::HBox => "hbox"@,
        WidgetKind::VBox => "vbox"@,
        WidgetKind::CenterBox => "centerbox"@,
        WidgetKind::Revealer => "revealer"@,
        WidgetKind::Scroll => "scroll"@,
        WidgetKind::Overlay => "overlay"@,
        WidgetKind::List => "list"@,
        WidgetKind::Popover => "popover"@,
        WidgetKind::Label => "label"@,
        WidgetKind::Button => "button"@,
        WidgetKind::Clock => "clock"@,
        WidgetKind::Workspaces => "workspaces"@,
        WidgetKind::Dock => "dock"@,
        WidgetKind::Tray => "tray"@,
        WidgetKind::Image => "image"@,
        WidgetKind::Progress => "progress"@,
        WidgetKind::Slider => "slider"@,
    }
}

/// The widget kind a name stands for, if any.
pub open spec fn kind_from_name(s: Seq<char>) -> Option<WidgetKind> {
    if s == "hbox"@ {
        Some(WidgetKind::HBox)
    } else if s == "vbox"@ {
        Some(WidgetKind::VBox)
    } else if s == "centerbox"@ {
        Some(WidgetKind::CenterBox)
    } else if s == "revealer"@ {
        Some(WidgetKind::Revealer)
    } else if s == "scroll"@ {
        Some(WidgetKind::Scroll)
    } else if s == "overlay"@ {
        Some(WidgetKind::Overlay)
    } else if s == "list"@ {
        Some(WidgetKind::List)
    } else if s == "popover"@ {
        Some(WidgetKind::Popover)
    } else if s == "label"@ {
        Some(WidgetKind::Label)
    } else if s == "button"@ {
        Some(WidgetKind::Button)
    } else if s == "clock"@ {
        Some(WidgetKind::Clock)
    } else if s == "workspaces"@ {
        Some(WidgetKind::Workspaces)
    } else if s == "dock"@ {
        Some(WidgetKind::Dock)
    } else if s == "tray"@ {
        Some(WidgetKind::Tray)
    } else if s == "image"@ {
        Some(WidgetKind::Image)
    } else if s == "progress"@ {
        Some(WidgetKind::Progress)
    } else if s == "slider"@ {
        Some(WidgetKind::Slider)
    } else {
        None
    }
}

/// The fields that a widget of each kind may set.
pub open spec fn allowed_field_names(k: WidgetKind) -> Seq<Seq<char>> {
    match k {
        WidgetKind::HBox => seq!["class"@, "classes"@, "visible"@, "visible_bind"@, "width"@, "height"@, "hexpand"@, "vexpand"@, "halign"@, "valign"@, "class_bind"@, "children"@, "spacing"@],
        WidgetKind::VBox => seq!["class"@, "classes"@, "visible"@, "visible_bind"@, "width"@, "height"@, "hexpand"@, "vexpand"@, "halign"@, "valign"@, "class_bind"@, "children"@, "spacing"@],
        WidgetKind::CenterBox => seq!["class"@, "classes"@, "visible"@, "visible_bind"@, "width"@, "height"@, "hexpand"@, "vexpand"@, "halign"@, "valign"@, "class_bind"@, "children"@, "spacing"@],
        WidgetKind::Revealer => seq!["class"@, "classes"@, "visible"@, "visible_bind"@, "width"@, "height"@, "hexpand"@, "vexpand"@, "halign"@, "valign"@, "class_bind"@, "children"@, "reveal"@, "reveal_bind"@, "transition"@, "duration"@],
        WidgetKind::Scroll => seq!["class"@, "classes"@, "visible"@, "visible_bind"@, "width"@, "height"@, "hexpand"@, "vexpand"@, "halign"@, "valign"@, "class_bind"@, "children"@, "h_policy"@, "v_policy"@, "overlay_scrolling"@, "kinetic_scrolling"@, "propagate_natural_width"@, "propagate_natural_height"@, "min_content_width"@, "min_content_height"@],
        WidgetKind::Overlay => seq!["class"@, "classes"@, "visible"@, "visible_bind"@, "width"@, "height"@, "hexpand"@, "vexpand"@, "halign"@, "valign"@, "class_bind"@, "children"@],
        WidgetKind::List => seq!["class"@, "classes"@, "visible"@, "visible_bind"@, "width"@, "height"@, "hexpand"@, "vexpand"@, "halign"@, "valign"@, "class_bind"@, "children"@, "bind"@, "count"@, "orientation"@, "spacing"@],
        WidgetKind::Popover => seq!["class"@, "classes"@, "visible"@, "visible_bind"@, "width"@, "height"@, "hexpand"@, "vexpand"@, "halign"@, "valign"@, "class_bind"@, "children"@, "position"@, "autohide"@, "has_arrow"@],
        WidgetKind::Label => seq!["class"@, "classes"@, "visible"@, "visible_bind"@, "width"@, "height"@, "hexpand"@, "vexpand"@, "halign"@, "valign"@, "class_bind"@, "text"@, "bind"@, "binds"@, "format"@, "format_states"@, "rules"@, "on_click"@, "max_chars"@, "ellipsize"@],
        WidgetKind::Button => seq!["class"@, "classes"@, "visible"@, "visible_bind"@, "width"@, "height"@, "hexpand"@, "vexpand"@, "halign"@, "valign"@, "class_bind"@, "text"@, "bind"@, "format"@, "format_states"@, "on_click"@, "angle"@],
        WidgetKind::Clock => seq!["class"@, "classes"@, "visible"@, "visible_bind"@, "width"@, "height"@, "hexpand"@, "vexpand"@, "halign"@, "valign"@, "class_bind"@, "format"@, "display_format"@, "format_states"@, "interval"@, "bind"@, "spacing"@, "angle"@],
        WidgetKind::Workspaces => seq!["class"@, "classes"@, "visible"@, "visible_bind"@, "width"@, "height"@, "hexpand"@, "vexpand"@, "halign"@, "valign"@, "class_bind"@, "count"@, "active_only"@, "all_outputs"@, "output"@, "orientation"@, "spacing"@, "format"@, "format_states"@, "labels"@, "state_labels"@, "format_icons"@, "show_clients"@, "clients_max_items"@, "clients_icon_size"@, "clients_rules"@, "clients_use_glyphs"@, "clients_glyph_fallback"@, "clients_spacing"@, "angle"@],
        WidgetKind::Dock => seq!["class"@, "classes"@, "visible"@, "visible_bind"@, "width"@, "height"@, "hexpand"@, "vexpand"@, "halign"@, "valign"@, "class_bind"@, "orientation"@, "output"@, "all_outputs"@, "spacing"@, "max_items"@, "format"@, "format_states"@, "image_map"@, "icon_size"@, "on_click"@, "angle"@],
        WidgetKind::Tray => seq!["class"@, "classes"@, "visible"@, "visible_bind"@, "width"@, "height"@, "hexpand"@, "vexpand"@, "halign"@, "valign"@, "class_bind"@, "orientation"@, "spacing"@, "icon_size"@, "max_items"@, "show_passive"@, "hide_when_empty"@],
        WidgetKind::Image => seq!["class"@, "classes"@, "visible"@, "visible_bind"@, "width"@, "height"@, "hexpand"@, "vexpand"@, "halign"@, "valign"@, "class_bind"@, "path"@, "bind"@, "fit"@, "can_shrink"@, "on_click"@],
        WidgetKind::Progress => seq!["class"@, "classes"@, "visible"@, "visible_bind"@, "width"@, "height"@, "hexpand"@, "vexpand"@, "halign"@, "valign"@, "class_bind"@, "bind"@, "value"@, "min"@, "max"@, "inverted"@],
        WidgetKind::Slider => seq!["class"@, "classes"@, "visible"@, "visible_bind"@, "width"@, "height"@, "hexpand"@, "vexpand"@, "halign"@, "valign"@, "class_bind"@, "bind"@, "value"@, "min"@, "max"@, "step"@, "scroll_step"@, "orientation"@, "inverted"@, "draw_value"@, "digits"@],
    }
}

pub open spec fn strs_view(v: Seq<&str>) -> Seq<Seq<char>> {
    v.map_values(|s: &str| s@)
}

impl WidgetKind {
    /// The widget kind that a configuration names, if the name is known.
    pub fn from_lua_kind(kind: &str) -> (r: Option<WidgetKind>)
        ensures
            r == kind_from_name(kind@),
    {
        if str_eq(kind, "hbox") {
            Some(WidgetKind::HBox)
        } else if str_eq(kind, "vbox") {
            Some(WidgetKind::VBox)
        } else if str_eq(kind, "centerbox") {
            Some(WidgetKind::CenterBox)
        } else if str_eq(kind, "revealer") {
            Some(WidgetKind::Revealer)
        } else if str_eq(kind, "scroll") {
            Some(WidgetKind::Scroll)
        } else if str_eq(kind, "overlay") {
            Some(WidgetKind::Overlay)
        } else if str_eq(kind, "list") {
            Some(WidgetKind::List)
        } else if str_eq(kind, "popover") {
            Some(WidgetKind::Popover)
        } else if str_eq(kind, "label") {
            Some(WidgetKind::Label)
        } else if str_eq(kind, "button") {
            Some(WidgetKind::Button)
        } else if str_eq(kind, "clock") {
            Some(WidgetKind::Clock)
        } else if str_eq(kind, "workspaces") {
            Some(WidgetKind::Workspaces)
        } else if str_eq(kind, "dock") {
            Some(WidgetKind::Dock)
        } else if str_eq(kind, "tray") {
            Some(WidgetKind::Tray)
        } else if str_eq(kind, "image") {
            Some(WidgetKind::Image)
        } else if str_eq(kind, "progress") {
            Some(WidgetKind::Progress)
        } else if str_eq(kind, "slider") {
            Some(WidgetKind::Slider)
        } else {
            None
        }
    }

    /// The configuration name of this kind.
    pub fn as_lua_kind(self) -> (r: &'static str)
        ensures
            r@ == kind_name(self),
    {
        match self {
            WidgetKind::HBox => "hbox",
            WidgetKind::VBox => "vbox",
            WidgetKind::CenterBox => "centerbox",
            WidgetKind::Revealer => "revealer",
            WidgetKind::Scroll => "scroll",
            WidgetKind::Overlay => "overlay",
            WidgetKind::List => "list",
            WidgetKind::Popover => "popover",
            WidgetKind::Label => "label",
            WidgetKind::Button => "button",
            WidgetKind::Clock => "clock",
            WidgetKind::Workspaces => "workspaces",
            WidgetKind::Dock => "dock",
            WidgetKind::Tray => "tray",
            WidgetKind::Image => "image",
            WidgetKind::Progress => "progress",
            WidgetKind::Slider => "slider",
        }
    }

    /// The style class of a widget of this kind: its configuration name.
    pub fn css_class(self) -> (r: &'static str)
        ensures
            r@ == kind_name(self),
    {
        self.as_lua_kind()
    }

    /// The fields that a widget of this kind may set.
    pub fn allowed_fields(self) -> (r: &'static [&'static str])
        ensures
            strs_view(r@) == allowed_field_names(self),
    {
        match self {
            WidgetKind::HBox => {
                let r: &'static [&'static str] = &["class", "classes", "visible", "visible_bind", "width", "height", "hexpand", "vexpand", "halign", "valign", "class_bind", "children", "spacing"];
                assert(strs_view(r@) =~= allowed_field_names(self));
                r
            },
            WidgetKind::VBox => {
                let r: &'static [&'static str] = &["class", "classes", "visible", "visible_bind", "width", "height", "hexpand", "vexpand", "halign", "valign", "class_bind", "children", "spacing"];
                assert(strs_view(r@) =~= allowed_field_names(self));
                r
            },
            WidgetKind::CenterBox => {
                let r: &'static [&'static str] = &["class", "classes", "visible", "visible_bind", "width", "height", "hexpand", "vexpand", "halign", "valign", "class_bind", "children", "spacing"];
                assert(strs_view(r@) =~= allowed_field_names(self));
                r
            },
            WidgetKind::Revealer => {
                let r: &'static [&'static str] = &["class", "classes", "visible", "visible_bind", "width", "height", "hexpand", "vexpand", "halign", "valign", "class_bind", "children", "reveal", "reveal_bind", "transition", "duration"];
                assert(strs_view(r@) =~= allowed_field_names(self));
                r
            },
            WidgetKind::Scroll => {
                let r: &'static [&'static str] = &["class", "classes", "visible", "visible_bind", "width", "height", "hexpand", "vexpand", "halign", "valign", "class_bind", "children", "h_policy", "v_policy", "overlay_scrolling", "kinetic_scrolling", "propagate_natural_width", "propagate_natural_height", "min_content_width", "min_content_height"];
                assert(strs_view(r@) =~= allowed_field_names(self));
                r
            },
            WidgetKind::Overlay => {
                let r: &'static [&'static str] = &["class", "classes", "visible", "visible_bind", "width", "height", "hexpand", "vexpand", "halign", "valign", "class_bind", "children"];
                assert(strs_view(r@) =~= allowed_field_names(self));
                r
            },
            WidgetKind::List => {
                let r: &'static [&'static str] = &["class", "classes", "visible", "visible_bind", "width", "height", "hexpand", "vexpand", "halign", "valign", "class_bind", "children", "bind", "count", "orientation", "spacing"];
                assert(strs_view(r@) =~= allowed_field_names(self));
                r
            },
            WidgetKind::Popover => {
                let r: &'static [&'static str] = &["class", "classes", "visible", "visible_bind", "width", "height", "hexpand", "vexpand", "halign", "valign", "class_bind", "children", "position", "autohide", "has_arrow"];
                assert(strs_view(r@) =~= allowed_field_names(self));
                r
            },
            WidgetKind::Label => {
                let r: &'static [&'static str] = &["class", "classes", "visible", "visible_bind", "width", "height", "hexpand", "vexpand", "halign", "valign", "class_bind", "text", "bind", "binds", "format", "format_states", "rules", "on_click", "max_chars", "ellipsize"];
                assert(strs_view(r@) =~= allowed_field_names(self));
                r
            },
            WidgetKind::Button => {
                let r: &'static [&'static str] = &["class", "classes", "visible", "visible_bind", "width", "height", "hexpand", "vexpand", "halign", "valign", "class_bind", "text", "bind", "format", "format_states", "on_click", "angle"];
                assert(strs_view(r@) =~= allowed_field_names(self));
                r
            },
            WidgetKind::Clock => {
                let r: &'static [&'static str] = &["class", "classes", "visible", "visible_bind", "width", "height", "hexpand", "vexpand", "halign", "valign", "class_bind", "format", "display_format", "format_states", "interval", "bind", "spacing", "angle"];
                assert(strs_view(r@) =~= allowed_field_names(self));
                r
            },
            WidgetKind::Workspaces => {
                let r: &'static [&'static str] = &["class", "classes", "visible", "visible_bind", "width", "height", "hexpand", "vexpand", "halign", "valign", "class_bind", "count", "active_only", "all_outputs", "output", "orientation", "spacing", "format", "format_states", "labels", "state_labels", "format_icons", "show_clients", "clients_max_items", "clients_icon_size", "clients_rules", "clients_use_glyphs", "clients_glyph_fallback", "clients_spacing", "angle"];
                assert(strs_view(r@) =~= allowed_field_names(self));
                r
            },
            WidgetKind::Dock => {
                let r: &'static [&'static str] = &["class", "classes", "visible", "visible_bind", "width", "height", "hexpand", "vexpand", "halign", "valign", "class_bind", "orientation", "output", "all_outputs", "spacing", "max_items", "format", "format_states", "image_map", "icon_size", "on_click", "angle"];
                assert(strs_view(r@) =~= allowed_field_names(self));
                r
            },
            WidgetKind::Tray => {
                let r: &'static [&'static str] = &["class", "classes", "visible", "visible_bind", "width", "height", "hexpand", "vexpand", "halign", "valign", "class_bind", "orientation", "spacing", "icon_size", "max_items", "show_passive", "hide_when_empty"];
                assert(strs_view(r@) =~= allowed_field_names(self));
                r
            },
            WidgetKind::Image => {
                let r: &'static [&'static str] = &["class", "classes", "visible", "visible_bind", "width", "height", "hexpand", "vexpand", "halign", "valign", "class_bind", "path", "bind", "fit", "can_shrink", "on_click"];
                assert(strs_view(r@) =~= allowed_field_names(self));
                r
            },
            WidgetKind::Progress => {
                let r: &'static [&'static str] = &["class", "classes", "visible", "visible_bind", "width", "height", "hexpand", "vexpand", "halign", "valign", "class_bind", "bind", "value", "min", "max", "inverted"];
                assert(strs_view(r@) =~= allowed_field_names(self));
                r
            },
            WidgetKind::Slider => {
                let r: &'static [&'static str] = &["class", "classes", "visible", "visible_bind", "width", "height", "hexpand", "vexpand", "halign", "valign", "class_bind", "bind", "value", "min", "max", "step", "scroll_step", "orientation", "inverted", "draw_value", "digits"];
                assert(strs_view(r@) =~= allowed_field_names(self));
                r
            },
        }
    }
}

/// Every widget kind, in the order they are declared.
pub open spec fn kinds_in_order() -> Seq<WidgetKind> {
    seq![WidgetKind::HBox, WidgetKind::VBox, WidgetKind::CenterBox, WidgetKind::Revealer, WidgetKind::Scroll, WidgetKind::Overlay, WidgetKind::List, WidgetKind::Popover, WidgetKind::Label, WidgetKind::Button, WidgetKind::Clock, WidgetKind::Workspaces, WidgetKind::Dock, WidgetKind::Tray, WidgetKind::Image, WidgetKind::Progress, WidgetKind::Slider]
}

/// Every widget kind, in the order they are declared; each occurs once.
pub fn all_kinds() -> (r: Vec<WidgetKind>)
    ensures
        r@ == kinds_in_order(),
        forall|k: WidgetKind| #[trigger] r@.contains(k),
{
    let r = vec![WidgetKind::HBox, WidgetKind::VBox, WidgetKind::CenterBox, WidgetKind::Revealer, WidgetKind::Scroll, WidgetKind::Overlay, WidgetKind::List, WidgetKind::Popover, WidgetKind::Label, WidgetKind::Button, WidgetKind::Clock, WidgetKind::Workspaces, WidgetKind::Dock, WidgetKind::Tray, WidgetKind::Image, WidgetKind::Progress, WidgetKind::Slider];
    assert(r@ =~= kinds_in_order());
    assert forall|k: WidgetKind| #[trigger] r@.contains(k) by {
        match k {
            WidgetKind::HBox => assert(r@[0] == k),
            WidgetKind::VBox => assert(r@[1] == k),
            WidgetKind::CenterBox => assert(r@[2] == k),
            WidgetKind::Revealer => assert(r@[3] == k),
            WidgetKind::Scroll => assert(r@[4] == k),
            WidgetKind::Overlay => assert(r@[5] == k),
            WidgetKind::List => assert(r@[6] == k),
            WidgetKind::Popover => assert(r@[7] == k),
            WidgetKind::Label => assert(r@[8] == k),
            WidgetKind::Button => assert(r@[9] == k),
            WidgetKind::Clock => assert(r@[10] == k),
            WidgetKind::Workspaces => assert(r@[11] == k),
            WidgetKind::Dock => assert(r@[12] == k),
            WidgetKind::Tray => assert(r@[13] == k),
            WidgetKind::Image => assert(r@[14] == k),
            WidgetKind::Progress => assert(r@[15] == k),
            WidgetKind::Slider => assert(r@[16] == k),
        }
    }
    r
}

/// The names of the constructors the configuration language offers: each
/// widget kind's, in the order the kinds are declared, then `window`.
pub fn constructor_names() -> (r: Vec<&'static str>)
    ensures
        strs_view(r@) == kinds_in_order().map_values(|k: WidgetKind| kind_name(k)) + seq!["window"@],
{
    let kinds = all_kinds();
    let mut r: Vec<&'static str> = Vec::new();
    let mut i: usize = 0;
    while i < kinds.len()
        invariant
            kinds@ == kinds_in_order(),
            i <= kinds.len(),
            strs_view(r@) == kinds@.take(i as int).map_values(|k: WidgetKind| kind_name(k)),
        decreases kinds.len() - i,
    {
        let ghost prev = strs_view(r@);
        let n = kinds[i].as_lua_kind();
        r.push(n);
        assert(strs_view(r@) =~= prev.push(n@));
        assert(kinds@.take(i + 1) =~= kinds@.take(i as int).push(kinds@[i as int]));
        assert(kinds@.take(i + 1).map_values(|k: WidgetKind| kind_name(k)) =~= kinds@.take(i as int).map_values(
            |k: WidgetKind| kind_name(k),
        ).push(kind_name(kinds@[i as int])));
        i += 1;
    }
    assert(kinds@.take(kinds.len() as int) =~= kinds@);
    let ghost before = strs_view(r@);
    r.push("window");
    assert(strs_view(r@) =~= before + seq!["window"@]);
    r
}

/// No two kinds share a name.
pub proof fn law_kind_names_distinct(k1: WidgetKind, k2: WidgetKind)
    ensures
        kind_name(k1) == kind_name(k2) ==> k1 == k2,
{
    law_kind_name_round_trip(k1);
    law_kind_name_round_trip(k2);
}

/// Every kind's name is read back as that kind.
pub proof fn law_kind_name_round_trip(k: WidgetKind)
    ensures
        kind_from_name(kind_name(k)) == Some(k),
{
    reveal_strlit("hbox");
    assert("hbox"@.len() == 4);
    assert("hbox"@[0] == 'h');
    assert("hbox"@[1] == 'b');
    assert("hbox"@[2] == 'o');
    reveal_strlit("vbox");
    assert("vbox"@.len() == 4);
    assert("vbox"@[0] == 'v');
    assert("vbox"@[1] == 'b');
    assert("vbox"@[2] == 'o');
    reveal_strlit("centerbox");
    assert("centerbox"@.len() == 9);
    assert("centerbox"@[0] == 'c');
    assert("centerbox"@[1] == 'e');
    assert("centerbox"@[2] == 'n');
    reveal_strlit("revealer");
    assert("revealer"@.len() == 8);
    assert("revealer"@[0] == 'r');
    assert("revealer"@[1] == 'e');
    assert("revealer"@[2] == 'v');
    reveal_strlit("scroll");
    assert("scroll"@.len() == 6);
    assert("scroll"@[0] == 's');
    assert("scroll"@[1] == 'c');
    assert("scroll"@[2] == 'r');
    reveal_strlit("overlay");
    assert("overlay"@.len() == 7);
    assert("overlay"@[0] == 'o');
    assert("overlay"@[1] == 'v');
    assert("overlay"@[2] == 'e');
    reveal_strlit("list");
    assert("list"@.len() == 4);
    assert("list"@[0] == 'l');
    assert("list"@[1] == 'i');
    assert("list"@[2] == 's');
    reveal_strlit("popover");
    assert("popover"@.len() == 7);
    assert("popover"@[0] == 'p');
    assert("popover"@[1] == 'o');
    assert("popover"@[2] == 'p');
    reveal_strlit("label");
    assert("label"@.len() == 5);
    assert("label"@[0] == 'l');
    assert("label"@[1] == 'a');
    assert("label"@[2] == 'b');
    reveal_strlit("button");
    assert("button"@.len() == 6);
    assert("button"@[0] == 'b');
    assert("button"@[1] == 'u');
    assert("button"@[2] == 't');
    reveal_strlit("clock");
    assert("clock"@.len() == 5);
    assert("clock"@[0] == 'c');
    assert("clock"@[1] == 'l');
    assert("clock"@[2] == 'o');
    reveal_strlit("workspaces");
    assert("workspaces"@.len() == 10);
    assert("workspaces"@[0] == 'w');
    assert("workspaces"@[1] == 'o');
    assert("workspaces"@[2] == 'r');
    reveal_strlit("dock");
    assert("dock"@.len() == 4);
    assert("dock"@[0] == 'd');
    assert("dock"@[1] == 'o');
    assert("dock"@[2] == 'c');
    reveal_strlit("tray");
    assert("tray"@.len() == 4);
    assert("tray"@[0] == 't');
    assert("tray"@[1] == 'r');
    assert("tray"@[2] == 'a');
    reveal_strlit("image");
    assert("image"@.len() == 5);
    assert("image"@[0] == 'i');
    assert("image"@[1] == 'm');
    assert("image"@[2] == 'a');
    reveal_strlit("progress");
    assert("progress"@.len() == 8);
    assert("progress"@[0] == 'p');
    assert("progress"@[1] == 'r');
    assert("progress"@[2] == 'o');
    reveal_strlit("slider");
    assert("slider"@.len() == 6);
    assert("slider"@[0] == 's');
    assert("slider"@[1] == 'l');
    assert("slider"@[2] == 'i');
}

/// What a click on a widget runs: a shell command, or a Lua callback kept
/// under the given number.
#[derive(Debug)]
pub enum ClickAction {
    Shell(String),
    LuaCallback(u64),
}

/// Optional actions for each mouse button and wheel direction.
#[derive(Debug)]
pub struct ClickBindings<T> {
    pub left: Option<T>,
    pub middle: Option<T>,
    pub right: Option<T>,
    pub wheel_up: Option<T>,
    pub wheel_down: Option<T>,
}

impl<T> ClickBindings<T> {
    /// Whether any button or wheel direction is bound.
    pub fn has_any(&self) -> (r: bool)
        ensures
            r == (self.left is Some || self.middle is Some || self.right is Some
                || self.wheel_up is Some || self.wheel_down is Some),
    {
        self.left.is_some() || self.middle.is_some() || self.right.is_some()
            || self.wheel_up.is_some() || self.wheel_down.is_some()
    }

    /// Bindings with nothing bound.
    pub fn none() -> (r: Self)
        ensures
            r.left is None,
            r.middle is None,
            r.right is None,
            r.wheel_up is None,
            r.wheel_down is None,
    {
        ClickBindings { left: None, middle: None, right: None, wheel_up: None, wheel_down: None }
    }
}

impl<T> Default for ClickBindings<T> {
    fn default() -> (r: Self)
        ensures
            r.left is None,
            r.middle is None,
            r.right is None,
            r.wheel_up is None,
            r.wheel_down is None,
    {
        Self::none()
    }
}

/// What a click on a dock item does to its window.
#[derive(Debug, Clone, Copy, PartialEq, Eq)]
pub enum DockClickAction {
    NoAction,
    Activate,
    Close,
    Minimize,
    Restore,
}

/// The dock action a (trimmed, lower-cased) name stands for.
pub open spec fn dock_action_named(s: Seq<char>) -> Option<DockClickAction> {
    if s.len() == 0 || s == "none"@ {
        Some(DockClickAction::NoAction)
    } else if s == "activate"@ {
        Some(DockClickAction::Activate)
    } else if s == "close"@ {
        Some(DockClickAction::Close)
    } else if s == "minimize"@ {
        Some(DockClickAction::Minimize)
    } else if s == "restore"@ || s == "unminimize"@ {
        Some(DockClickAction::Restore)
    } else {
        None
    }
}

/// `"config.lua:<line>: "` for a known line, empty otherwise.
pub open spec fn line_prefix(line: Option<i32>) -> Seq<char> {
    match line {
        Some(l) => "config.lua:"@ + signed_decimal(l as int) + ": "@,
        None => seq![],
    }
}

/// The location prefix of a configuration message.
pub fn format_line_prefix(line: Option<i32>) -> (r: String)
    ensures
        r@ == line_prefix(line),
{
    match line {
        Some(l) => {
            let mut s = String::from_str("config.lua:");
            let n = crate::text::i64_to_string(l as i64);
            s.append(n.as_str());
            s.append(": ");
            s
        },
        None => String::new(),
    }
}

/// The message for a dock action name that is not known.
pub open spec fn bad_dock_action_message(line: Option<i32>, name: Seq<char>) -> Seq<char> {
    line_prefix(line) + "invalid dock click action '"@ + name
        + "'; expected one of: none, activate, close, minimize, restore"@
}

/// Reads a dock click action name, ignoring surrounding whitespace and
/// ASCII case.
pub fn parse_dock_click_action(raw: &str, line: Option<i32>) -> (r: Result<DockClickAction, String>)
    ensures
        r matches Ok(a) ==> dock_action_named(lower_seq(trim(raw@))) == Some(a),
        r matches Err(m) ==> dock_action_named(lower_seq(trim(raw@))) is None && m@
            == bad_dock_action_message(line, lower_seq(trim(raw@))),
{
    let t = trim_str(raw);
    let name = to_ascii_lowercase(t.as_str());
    let n = name.as_str();
    if n.is_empty() || str_eq(n, "none") {
        Ok(DockClickAction::NoAction)
    } else if str_eq(n, "activate") {
        Ok(DockClickAction::Activate)
    } else if str_eq(n, "close") {
        Ok(DockClickAction::Close)
    } else if str_eq(n, "minimize") {
        Ok(DockClickAction::Minimize)
    } else if str_eq(n, "restore") || str_eq(n, "unminimize") {
        Ok(DockClickAction::Restore)
    } else {
        let mut m = format_line_prefix(line);
        m.append("invalid dock click action '");
        m.append(n);
        m.append("'; expected one of: none, activate, close, minimize, restore");
        Err(m)
    }
}

/// Styling of a piece of rich text.
#[derive(Debug)]
pub struct RichTextStyle {
    pub format: Option<String>,
    pub class_name: Option<String>,
    pub color: Option<String>,
    pub background: Option<String>,
    pub weight: Option<String>,
    pub style: Option<String>,
    pub underline: Option<String>,
    pub font: Option<String>,
    pub size: Option<String>,
    pub rise: Option<String>,
    pub alpha: Option<String>,
    pub strikethrough: Option<bool>,
}

/// A rule that picks an icon for client windows by class or title.
#[derive(Debug)]
pub struct IconifyRule {
    pub class: Option<String>,
    pub title: Option<String>,
    pub icon: Option<String>,
    pub text: Option<String>,
}

/// Properties of a tray widget.
#[derive(Debug)]
pub struct TrayProps {
    pub orientation: Option<String>,
    pub spacing: Option<i32>,
    pub icon_size: Option<i32>,
    pub max_items: Option<u32>,
    pub show_passive: Option<bool>,
    pub hide_when_empty: Option<bool>,
}

/// Properties of an image widget.
#[derive(Debug)]
pub struct ImageProps {
    pub path: Option<String>,
    pub bind: Option<String>,
    pub fit: Option<String>,
    pub can_shrink: Option<bool>,
    pub on_click: ClickBindings<ClickAction>,
}

/// Properties of a list widget.
#[derive(Debug)]
pub struct ListProps {
    pub bind: Option<String>,
    pub count: Option<u32>,
    pub orientation: Option<String>,
    pub spacing: Option<i32>,
}

/// Properties of an overlay widget (it has none of its own).
#[derive(Debug)]
pub struct OverlayProps {}

/// Properties of a popover widget.
#[derive(Debug)]
pub struct PopoverProps {
    pub position: Option<String>,
    pub autohide: Option<bool>,
    pub has_arrow: Option<bool>,
}

/// Properties of a horizontal, vertical or centered box.
#[derive(Debug)]
pub struct BoxProps {
    pub spacing: Option<i32>,
}

/// Properties of a revealer widget.
#[derive(Debug)]
pub struct RevealerProps {
    pub reveal: Option<bool>,
    pub reveal_bind: Option<String>,
    pub transition: Option<String>,
    pub duration: Option<u32>,
}

/// Properties of a scrolled window.
#[derive(Debug)]
pub struct ScrollProps {
    pub h_policy: Option<String>,
    pub v_policy: Option<String>,
    pub overlay_scrolling: Option<bool>,
    pub kinetic_scrolling: Option<bool>,
    pub propagate_natural_width: Option<bool>,
    pub propagate_natural_height: Option<bool>,
    pub min_content_width: Option<i32>,
    pub min_content_height: Option<i32>,
}

/// A number written in the configuration, as Lua holds it: an integer, or
/// the bits of a float.
#[derive(Debug, Clone, Copy, PartialEq, Eq)]
pub enum LuaNumber {
    Int(i64),
    Float(u64),
}

/// A rule that restyles the part of a label that a token or a value range
/// selects.
#[derive(Debug)]
pub struct RichFormatRule {
    pub target: Option<String>,
    pub token: Option<String>,
    /// The pattern the rule matches (the configuration's `match` field).
    pub pattern: Option<String>,
    pub min: Option<LuaNumber>,
    pub max: Option<LuaNumber>,
    pub style: RichTextStyle,
}

/// Properties of a label.
#[derive(Debug)]
pub struct LabelProps {
    pub text: Option<String>,
    pub bind: Option<String>,
    pub binds: Vec<(String, String)>,
    pub on_click: ClickBindings<ClickAction>,
    pub format: Option<String>,
    pub format_states: Vec<(String, String)>,
    pub rules: Vec<RichFormatRule>,
    pub max_chars: Option<i32>,
    pub ellipsize: Option<String>,
}

/// Properties of a button.
#[derive(Debug)]
pub struct ButtonProps {
    pub text: Option<String>,
    pub bind: Option<String>,
    pub on_click: ClickBindings<ClickAction>,
    pub format: Option<String>,
    pub format_states: Vec<(String, String)>,
    pub angle: Option<LuaNumber>,
}

/// Properties of a clock.
#[derive(Debug)]
pub struct ClockProps {
    pub format: Option<String>,
    pub display_format: Option<String>,
    pub format_states: Vec<(String, String)>,
    pub interval: Option<u64>,
    pub bind: Option<String>,
    pub spacing: Option<i32>,
    pub angle: Option<LuaNumber>,
}

/// Properties of a workspace switcher.
#[derive(Debug)]
pub struct WorkspacesProps {
    pub count: Option<u32>,
    pub active_only: Option<bool>,
    pub all_outputs: Option<bool>,
    pub output: Option<String>,
    pub orientation: Option<String>,
    pub spacing: Option<i32>,
    pub format: Option<String>,
    pub format_states: Vec<(String, String)>,
    pub labels: Vec<String>,
    pub state_labels: Vec<(String, Vec<String>)>,
    pub format_icons: Vec<(String, String)>,
    pub show_clients: Option<bool>,
    pub clients_max_items: Option<u32>,
    pub clients_icon_size: Option<i32>,
    pub clients_rules: Vec<IconifyRule>,
    pub clients_use_glyphs: Option<bool>,
    pub clients_glyph_fallback: Option<String>,
    pub clients_spacing: Option<i32>,
    pub angle: Option<LuaNumber>,
}

/// Properties of a dock.
#[derive(Debug)]
pub struct DockProps {
    pub orientation: Option<String>,
    pub output: Option<String>,
    pub all_outputs: Option<bool>,
    pub spacing: Option<i32>,
    pub max_items: Option<u32>,
    pub format: Option<String>,
    pub format_states: Vec<(String, String)>,
    pub image_map: Vec<(String, String)>,
    pub icon_size: Option<i32>,
    pub on_click: ClickBindings<DockClickAction>,
    pub angle: Option<LuaNumber>,
}

/// Properties of a progress bar.
#[derive(Debug)]
pub struct ProgressProps {
    pub bind: Option<String>,
    pub value: Option<LuaNumber>,
    pub min: Option<LuaNumber>,
    pub max: Option<LuaNumber>,
    pub inverted: Option<bool>,
}

/// Properties of a slider.
#[derive(Debug)]
pub struct SliderProps {
    pub bind: Option<String>,
    pub value: Option<LuaNumber>,
    pub min: Option<LuaNumber>,
    pub max: Option<LuaNumber>,
    pub step: Option<LuaNumber>,
    pub scroll_step: Option<LuaNumber>,
    pub orientation: Option<String>,
    pub inverted: Option<bool>,
    pub draw_value: Option<bool>,
    pub digits: Option<i32>,
}

/// The properties of a widget, by kind.
#[derive(Debug)]
pub enum WidgetProps {
    HBox(BoxProps),
    VBox(BoxProps),
    CenterBox(BoxProps),
    Revealer(RevealerProps),
    Scroll(ScrollProps),
    Overlay(OverlayProps),
    List(ListProps),
    Popover(PopoverProps),
    Label(LabelProps),
    Button(ButtonProps),
    Clock(ClockProps),
    Workspaces(WorkspacesProps),
    Dock(DockProps),
    Tray(TrayProps),
    Image(ImageProps),
    Progress(ProgressProps),
    Slider(SliderProps),
}

/// The fields every widget may have.
#[derive(Debug)]
pub struct WidgetBase {
    pub output: Option<String>,
    pub visible: Option<bool>,
    pub visible_bind: Option<String>,
    pub width: Option<i32>,
    pub height: Option<i32>,
    pub hexpand: Option<bool>,
    pub vexpand: Option<bool>,
    pub halign: Option<String>,
    pub valign: Option<String>,
    pub class_bind: Option<String>,
    pub classes: Vec<String>,
    pub children: Vec<WidgetConfig>,
}

/// One widget of the configuration, with the line it was written on.
#[derive(Debug)]
pub struct WidgetConfig {
    pub line: Option<i32>,
    pub kind: WidgetKind,
    pub base: WidgetBase,
    pub props: WidgetProps,
}

/// A layer-shell window of the configuration and the widget tree it shows.
#[derive(Debug)]
pub struct WindowConfig {
    pub name: Option<String>,
    pub output: Option<String>,
    pub visible: bool,
    pub layer: String,
    pub exclusive: bool,
    pub anchors: Vec<String>,
    pub width: Option<i32>,
    pub height: Option<i32>,
    pub margin_top: i32,
    pub margin_bottom: i32,
    pub margin_left: i32,
    pub margin_right: i32,
    pub root: WidgetConfig,
}

impl WidgetConfig {
    /// The fields the widget's kind accepts.
    pub fn allowed_fields(&self) -> (r: &'static [&'static str])
        ensures
            strs_view(r@) == allowed_field_names(self.kind),
    {
        self.kind.allowed_fields()
    }
}

} // verus!
