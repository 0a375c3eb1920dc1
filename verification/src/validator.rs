//! Checks of a widget tree that do not stop the configuration from loading:
//! each finding is a warning message, in the order the tree is walked.
use vstd::prelude::*;

use crate::fields::{base_fields, props_fields};
use crate::order::texts;
use crate::text::{decimal, signed_decimal, str_eq, trim, u64_to_string, i64_to_string, is_blank};
use crate::widget::{
    allowed_field_names, format_line_prefix, kind_name, line_prefix, strs_view, WidgetConfig,
    WidgetKind, WidgetProps,
};

verus! {

/// The texts joined with a separator between each two.
pub open spec fn join_with(ws: Seq<Seq<char>>, sep: Seq<char>) -> Seq<char>
    decreases ws.len(),
{
    if ws.len() == 0 {
        seq![]
    } else if ws.len() == 1 {
        ws[0]
    } else {
        join_with(ws.drop_last(), sep) + sep + ws.last()
    }
}

/// Joins the texts with a separator.
pub fn join_strs(ws: &[&str], sep: &str) -> (r: String)
    ensures
        r@ == join_with(strs_view(ws@), sep@),
{
    let mut out = String::new();
    let mut i: usize = 0;
    while i < ws.len()
        invariant
            i <= ws.len(),
            out@ == join_with(strs_view(ws@.take(i as int)), sep@),
        decreases ws.len() - i,
    {
        proof {
            assert(strs_view(ws@.take(i + 1)).drop_last() =~= strs_view(ws@.take(i as int)));
            assert(strs_view(ws@.take(i + 1)).last() == ws@[i as int]@);
        }
        if i > 0 {
            out.append(sep);
        } else {
            assert(strs_view(ws@.take(1))[0] == ws@[0]@);
        }
        out.append(ws[i]);
        i += 1;
    }
    assert(ws@.take(ws.len() as int) =~= ws@);
    out
}

/// The fields a widget sets that its kind does not accept, in order.
pub open spec fn disallowed_fields(c: WidgetConfig) -> Seq<Seq<char>> {
    (base_fields(c.base) + props_fields(c.props)).filter(
        |f: Seq<char>| !allowed_field_names(c.kind).contains(f),
    )
}

/// The warning for a field the widget's kind does not accept.
pub open spec fn disallowed_message(c: WidgetConfig, field: Seq<char>) -> Seq<char> {
    line_prefix(c.line) + kind_name(c.kind) + " does not allow field '"@ + field
        + "'; allowed fields: ["@ + join_with(allowed_field_names(c.kind), ", "@) + "]"@
}

/// The warning for a field the widget's kind does not accept.
pub fn warn_disallowed_field(cfg: &WidgetConfig, field: &str, allowed: &[&str]) -> (r: String)
    requires
        strs_view(allowed@) == allowed_field_names(cfg.kind),
    ensures
        r@ == disallowed_message(*cfg, field@),
{
    let mut m = format_line_prefix(cfg.line);
    m.append(cfg.kind.as_lua_kind());
    m.append(" does not allow field '");
    m.append(field);
    m.append("'; allowed fields: [");
    let joined = join_strs(allowed, ", ");
    m.append(joined.as_str());
    m.append("]");
    m
}

fn allows(allowed: &[&str], field: &str) -> (r: bool)
    ensures
        r == strs_view(allowed@).contains(field@),
{
    let mut i: usize = 0;
    while i < allowed.len()
        invariant
            i <= allowed.len(),
            forall|j: int| 0 <= j < i ==> allowed@[j]@ != field@,
        decreases allowed.len() - i,
    {
        if str_eq(allowed[i], field) {
            assert(strs_view(allowed@)[i as int] == field@);
            return true;
        }
        i += 1;
    }
    proof {
        if strs_view(allowed@).contains(field@) {
            let k = choose|k: int| 0 <= k < strs_view(allowed@).len() && strs_view(allowed@)[k] == field@;
            assert(allowed@[k]@ == field@);
        }
    }
    false
}

/// The warnings for the fields a widget sets that its kind does not accept.
pub fn warn_disallowed_fields(cfg: &WidgetConfig) -> (r: Vec<String>)
    ensures
        texts(r@) == disallowed_fields(*cfg).map_values(|f: Seq<char>| disallowed_message(*cfg, f)),
{
    let allowed = cfg.allowed_fields();
    let mut present = cfg.base.present_fields();
    let mut extra = cfg.props.present_fields();
    let ghost all = strs_view(present@) + strs_view(extra@);
    present.append(&mut extra);
    assert(strs_view(present@) =~= all);
    let ghost keep = |f: Seq<char>| !allowed_field_names(cfg.kind).contains(f);
    let mut out: Vec<String> = Vec::new();
    let mut i: usize = 0;
    while i < present.len()
        invariant
            i <= present.len(),
            strs_view(present@) == all,
            all == base_fields(cfg.base) + props_fields(cfg.props),
            strs_view(allowed@) == allowed_field_names(cfg.kind),
            keep == (|f: Seq<char>| !allowed_field_names(cfg.kind).contains(f)),
            texts(out@) == all.take(i as int).filter(keep).map_values(
                |f: Seq<char>| disallowed_message(*cfg, f),
            ),
        decreases present.len() - i,
    {
        proof {
            assert(all.take(i + 1).drop_last() =~= all.take(i as int));
            assert(all.take(i + 1).last() == present@[i as int]@);
        }
        let f = present[i];
        let ghost before = texts(out@);
        if !allows(allowed, f) {
            let msg = warn_disallowed_field(cfg, f, allowed);
            out.push(msg);
            proof {
                assert(texts(out@) =~= before.push(disallowed_message(*cfg, f@)));
                assert(all.take(i + 1).filter(keep) =~= all.take(i as int).filter(keep).push(f@)) by {
                    assert(all.take(i + 1) =~= all.take(i as int).push(f@));
                    all.take(i as int).lemma_filter_push(f@, keep);
                }
                assert(texts(out@) =~= all.take(i + 1).filter(keep).map_values(
                    |f: Seq<char>| disallowed_message(*cfg, f),
                ));
            }
        } else {
            proof {
                assert(all.take(i + 1).filter(keep) =~= all.take(i as int).filter(keep)) by {
                    assert(all.take(i + 1) =~= all.take(i as int).push(f@));
                    all.take(i as int).lemma_filter_push(f@, keep);
                }
            }
        }
        i += 1;
    }
    assert(all.take(present.len() as int) =~= all);
    out
}

/// Whether an optional text holds more than whitespace.
pub open spec fn nonblank_opt(s: Option<String>) -> bool {
    match s {
        Some(t) => trim(t@).len() > 0,
        None => false,
    }
}

/// The warnings for a widget that shows exactly one child.
pub open spec fn one_child_warnings(p: Seq<char>, name: Seq<char>, role: Seq<char>, n: nat) -> Seq<Seq<char>> {
    if n == 0 {
        seq![p + name + " requires one child in 'children'"@]
    } else if n > 1 {
        seq![p + name + " uses only first child as "@ + role + "; got "@ + decimal(n)]
    } else {
        seq![]
    }
}

/// The warnings a widget's kind calls for beyond its fields.
pub open spec fn kind_warnings(c: WidgetConfig) -> Seq<Seq<char>> {
    let p = line_prefix(c.line);
    let n = c.base.children.len() as nat;
    match c.kind {
        WidgetKind::CenterBox => if n > 3 {
            seq![p + "centerbox uses only first 3 children (start/center/end); got "@ + decimal(n)]
        } else {
            seq![]
        },
        WidgetKind::Scroll => one_child_warnings(p, "scroll"@, "content"@, n),
        WidgetKind::Revealer => match c.props {
            WidgetProps::Revealer(_) => one_child_warnings(p, "revealer"@, "content"@, n),
            _ => seq![],
        },
        WidgetKind::Image => match c.props {
            WidgetProps::Image(i) => if !nonblank_opt(i.path) && !nonblank_opt(i.bind) {
                seq![p + "image requires non-empty 'path' or 'bind'"@]
            } else {
                seq![]
            },
            _ => seq![],
        },
        WidgetKind::List => match c.props {
            WidgetProps::List(l) => (if n == 0 {
                seq![p + "list requires one template child in 'children'"@]
            } else if n > 1 {
                seq![p + "list uses only first child as template; got "@ + decimal(n)]
            } else {
                seq![]
            }) + (if l.count == Some(0u32) {
                seq![p + "list.count should be > 0; got 0"@]
            } else {
                seq![]
            }),
            _ => seq![],
        },
        WidgetKind::Tray => match c.props {
            WidgetProps::Tray(t) => (if t.max_items == Some(0u32) {
                seq![p + "tray.max_items should be > 0; got 0"@]
            } else {
                seq![]
            }) + match t.icon_size {
                Some(v) => if v <= 0 {
                    seq![p + "tray.icon_size should be > 0; got "@ + signed_decimal(v as int)]
                } else {
                    seq![]
                },
                None => seq![],
            },
            _ => seq![],
        },
        WidgetKind::Popover => if n == 0 {
            seq![p + "popover requires children[1] trigger widget and children[2] content widget"@]
        } else if n < 2 {
            seq![p + "popover should define children[1] trigger and children[2] content"@]
        } else if n > 2 {
            seq![p + "popover uses only first 2 children; got "@ + decimal(n)]
        } else {
            seq![]
        },
        WidgetKind::Overlay => if n == 0 {
            seq![p + "overlay requires at least one child (base content)"@]
        } else {
            seq![]
        },
        _ => seq![],
    }
}

fn one_child(prefix: &String, name: &str, role: &str, n: usize) -> (r: Vec<String>)
    ensures
        texts(r@) == one_child_warnings(prefix@, name@, role@, n as nat),
{
    let mut out: Vec<String> = Vec::new();
    if n == 0 {
        let mut m = prefix.clone();
        m.append(name);
        m.append(" requires one child in 'children'");
        out.push(m);
    } else if n > 1 {
        let mut m = prefix.clone();
        m.append(name);
        m.append(" uses only first child as ");
        m.append(role);
        m.append("; got ");
        let k = u64_to_string(n as u64);
        m.append(k.as_str());
        out.push(m);
    }
    assert(texts(out@) =~= one_child_warnings(prefix@, name@, role@, n as nat));
    out
}

fn single(m: String) -> (r: Vec<String>)
    ensures
        texts(r@) == seq![m@],
{
    let mut out: Vec<String> = Vec::new();
    out.push(m);
    assert(texts(out@) =~= seq![m@]);
    out
}

fn prefixed(prefix: &String, text: &str) -> (r: String)
    ensures
        r@ == prefix@ + text@,
{
    let mut m = prefix.clone();
    m.append(text);
    m
}

fn prefixed_count(prefix: &String, text: &str, n: usize) -> (r: String)
    ensures
        r@ == prefix@ + text@ + decimal(n as nat),
{
    let mut m = prefix.clone();
    m.append(text);
    let k = u64_to_string(n as u64);
    m.append(k.as_str());
    m
}

fn appended(a: Vec<String>, b: Vec<String>) -> (r: Vec<String>)
    ensures
        texts(r@) == texts(a@) + texts(b@),
{
    let mut a = a;
    let mut b = b;
    let ghost ta = texts(a@);
    let ghost tb = texts(b@);
    a.append(&mut b);
    assert(texts(a@) =~= ta + tb);
    a
}

fn nonblank_text(s: &Option<String>) -> (r: bool)
    ensures
        r == nonblank_opt(*s),
{
    match s {
        Some(t) => !is_blank(t.as_str()),
        None => false,
    }
}

/// The warnings a widget's kind calls for beyond its fields.
pub fn kind_checks(cfg: &WidgetConfig) -> (r: Vec<String>)
    ensures
        texts(r@) == kind_warnings(*cfg),
{
    let p = format_line_prefix(cfg.line);
    let n = cfg.base.children.len();
    let none: Vec<String> = Vec::new();
    assert(texts(none@) =~= seq![]);
    match cfg.kind {
        WidgetKind::CenterBox => if n > 3 {
            single(prefixed_count(&p, "centerbox uses only first 3 children (start/center/end); got ", n))
        } else {
            none
        },
        WidgetKind::Scroll => one_child(&p, "scroll", "content", n),
        WidgetKind::Revealer => match &cfg.props {
            WidgetProps::Revealer(_) => one_child(&p, "revealer", "content", n),
            _ => none,
        },
        WidgetKind::Image => match &cfg.props {
            WidgetProps::Image(i) => if !nonblank_text(&i.path) && !nonblank_text(&i.bind) {
                single(prefixed(&p, "image requires non-empty 'path' or 'bind'"))
            } else {
                none
            },
            _ => none,
        },
        WidgetKind::List => match &cfg.props {
            WidgetProps::List(l) => {
                let first = if n == 0 {
                    single(prefixed(&p, "list requires one template child in 'children'"))
                } else if n > 1 {
                    single(prefixed_count(&p, "list uses only first child as template; got ", n))
                } else {
                    Vec::new()
                };
                assert(n == 1 ==> texts(first@) =~= seq![]);
                let second = if l.count == Some(0u32) {
                    single(prefixed(&p, "list.count should be > 0; got 0"))
                } else {
                    Vec::new()
                };
                assert(l.count != Some(0u32) ==> texts(second@) =~= seq![]);
                appended(first, second)
            },
            _ => none,
        },
        WidgetKind::Tray => match &cfg.props {
            WidgetProps::Tray(t) => {
                let first = if t.max_items == Some(0u32) {
                    single(prefixed(&p, "tray.max_items should be > 0; got 0"))
                } else {
                    Vec::new()
                };
                assert(t.max_items != Some(0u32) ==> texts(first@) =~= seq![]);
                let second = match t.icon_size {
                    Some(v) => if v <= 0 {
                        let mut m = prefixed(&p, "tray.icon_size should be > 0; got ");
                        let k = i64_to_string(v as i64);
                        m.append(k.as_str());
                        single(m)
                    } else {
                        Vec::new()
                    },
                    None => Vec::new(),
                };
                assert(!(t.icon_size matches Some(v) && v <= 0) ==> texts(second@) =~= seq![]);
                appended(first, second)
            },
            _ => none,
        },
        WidgetKind::Popover => if n == 0 {
            single(prefixed(&p, "popover requires children[1] trigger widget and children[2] content widget"))
        } else if n < 2 {
            single(prefixed(&p, "popover should define children[1] trigger and children[2] content"))
        } else if n > 2 {
            single(prefixed_count(&p, "popover uses only first 2 children; got ", n))
        } else {
            none
        },
        WidgetKind::Overlay => if n == 0 {
            single(prefixed(&p, "overlay requires at least one child (base content)"))
        } else {
            none
        },
        _ => none,
    }
}

/// All warnings for one widget: first its disallowed fields, then what its
/// kind calls for.
pub open spec fn widget_warnings(c: WidgetConfig) -> Seq<Seq<char>> {
    disallowed_fields(c).map_values(|f: Seq<char>| disallowed_message(c, f)) + kind_warnings(c)
}

/// The warnings for one widget, without its children.
pub fn validate_widget(cfg: &WidgetConfig) -> (r: Vec<String>)
    ensures
        texts(r@) == widget_warnings(*cfg),
{
    appended(warn_disallowed_fields(cfg), kind_checks(cfg))
}

/// The warnings for a widget and, after it, for each of its children's
/// trees in order.
pub open spec fn tree_warnings(c: WidgetConfig) -> Seq<Seq<char>>
    decreases c,
{
    widget_warnings(c) + forest_warnings(c.base.children@)
}

/// The warnings for a row of widget trees.
pub open spec fn forest_warnings(cs: Seq<WidgetConfig>) -> Seq<Seq<char>>
    decreases cs,
{
    if cs.len() == 0 {
        seq![]
    } else {
        forest_warnings(cs.drop_last()) + tree_warnings(cs.last())
    }
}

/// The warnings for a whole widget tree, parent before children.
pub fn validate_widget_tree(cfg: &WidgetConfig) -> (r: Vec<String>)
    ensures
        texts(r@) == tree_warnings(*cfg),
    decreases cfg,
{
    let mut out = validate_widget(cfg);
    let ghost own = texts(out@);
    let ghost cs = cfg.base.children@;
    let mut i: usize = 0;
    while i < cfg.base.children.len()
        invariant
            i <= cs.len(),
            cs == cfg.base.children@,
            texts(out@) == own + forest_warnings(cs.take(i as int)),
        decreases cs.len() - i,
    {
        proof {
            assert(cs.take(i + 1).drop_last() =~= cs.take(i as int));
            assert(cs.take(i + 1).last() == cs[i as int]);
        }
        let sub = validate_widget_tree(&cfg.base.children[i]);
        let ghost before = texts(out@);
        out = appended(out, sub);
        assert(texts(out@) =~= own + forest_warnings(cs.take(i + 1)));
        i += 1;
    }
    assert(cs.take(cs.len() as int) =~= cs);
    out
}

} // verus!
