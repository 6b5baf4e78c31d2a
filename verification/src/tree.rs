//! The windows of a Sway scene graph.
//!
//! `swaymsg -t get_tree` prints one JSON object per container; each has a
//! `focused` flag and a `window` member, and may hold further containers
//! under `nodes` and `floating_nodes`. A container whose `window` is a number
//! is a window, and is read into a [`Node`]. The walk is depth first: a
//! container, then its `nodes`, then its `floating_nodes`.

use vstd::prelude::*;
use crate::json::Json;
use crate::json::value_content;
use crate::json::object_content;
use crate::json::parsed_object;
use crate::json::parse_object;
use crate::json::error_message;
use crate::json::object_get;
use crate::json::is_null;
use crate::json::as_bool;
use crate::json::as_u64;
use crate::json::as_str;
use crate::json::as_array;
use crate::json::as_object;
use crate::path::text_of;
use crate::text::concat3;

verus! {

/// A member of a container, or of its window properties, that the walk reads.
#[derive(Clone, Copy, Debug, PartialEq, Eq, Structural)]
pub enum Field {
    Focused,
    Window,
    Pid,
    Type,
    AppId,
    WindowProperties,
    Class,
    Instance,
    Title,
    TransientFor,
    WindowRole,
    Nodes,
    FloatingNodes,
}

impl Field {
    /// The member's key in the JSON object.
    pub open spec fn key(self) -> Seq<char> {
        match self {
            Field::Focused => "focused"@,
            Field::Window => "window"@,
            Field::Pid => "pid"@,
            Field::Type => "type"@,
            Field::AppId => "app_id"@,
            Field::WindowProperties => "window_properties"@,
            Field::Class => "class"@,
            Field::Instance => "instance"@,
            Field::Title => "title"@,
            Field::TransientFor => "transient_for"@,
            Field::WindowRole => "window_role"@,
            Field::Nodes => "nodes"@,
            Field::FloatingNodes => "floating_nodes"@,
        }
    }

    /// The member's key in the JSON object.
    pub fn name(self) -> (r: &'static str)
        ensures
            r@ == self.key(),
    {
        match self {
            Field::Focused => "focused",
            Field::Window => "window",
            Field::Pid => "pid",
            Field::Type => "type",
            Field::AppId => "app_id",
            Field::WindowProperties => "window_properties",
            Field::Class => "class",
            Field::Instance => "instance",
            Field::Title => "title",
            Field::TransientFor => "transient_for",
            Field::WindowRole => "window_role",
            Field::Nodes => "nodes",
            Field::FloatingNodes => "floating_nodes",
        }
    }
}

/// Why a scene graph could not be read.
#[derive(Clone, Debug, PartialEq, Eq)]
pub enum TreeError {
    /// The text is not one JSON object; the payload is the parser's message.
    Syntax(String),
    /// A member that must be there is not.
    Missing(Field),
    /// A member holds a value of the wrong kind.
    Invalid(Field),
}

/// The mathematical value of a [`TreeError`].
pub enum TreeErrorView {
    Syntax(Seq<char>),
    Missing(Field),
    Invalid(Field),
}

impl View for TreeError {
    type V = TreeErrorView;

    open spec fn view(&self) -> TreeErrorView {
        match self {
            TreeError::Syntax(m) => TreeErrorView::Syntax(m@),
            TreeError::Missing(f) => TreeErrorView::Missing(*f),
            TreeError::Invalid(f) => TreeErrorView::Invalid(*f),
        }
    }
}

/// What a tree error says to the user.
pub open spec fn tree_message_of(e: TreeErrorView) -> Seq<char> {
    match e {
        TreeErrorView::Syntax(m) => m,
        TreeErrorView::Missing(f) => "missing member `"@ + f.key() + "`"@,
        TreeErrorView::Invalid(f) => "member of the wrong kind `"@ + f.key() + "`"@,
    }
}

impl TreeError {
    /// What this error says to the user.
    pub fn message(&self) -> (r: String)
        ensures
            r@ == tree_message_of(self@),
    {
        match self {
            TreeError::Syntax(m) => m.clone(),
            TreeError::Missing(f) => concat3("missing member `", f.name(), "`"),
            TreeError::Invalid(f) => concat3("member of the wrong kind `", f.name(), "`"),
        }
    }
}

/// The `window_properties` member of a window.
#[derive(Clone, Debug, PartialEq, Eq)]
pub struct WindowProperties {
    pub class: String,
    pub instance: String,
    pub title: String,
    pub transient_for: Option<String>,
    pub window_role: Option<String>,
}

/// The mathematical value of a [`WindowProperties`].
pub struct WindowPropertiesView {
    pub class: Seq<char>,
    pub instance: Seq<char>,
    pub title: Seq<char>,
    pub transient_for: Option<Seq<char>>,
    pub window_role: Option<Seq<char>>,
}

impl View for WindowProperties {
    type V = WindowPropertiesView;

    open spec fn view(&self) -> WindowPropertiesView {
        WindowPropertiesView {
            class: self.class@,
            instance: self.instance@,
            title: self.title@,
            transient_for: text_of(self.transient_for),
            window_role: text_of(self.window_role),
        }
    }
}

/// One window of the scene graph.
#[derive(Debug)]
pub struct Node {
    app_id: Option<String>,
    class: String,
    id: u64,
    is_focused: bool,
    instance: String,
    transient_for: Option<String>,
    window_role: Option<String>,
    title: String,
    type_: String,
    pid: u64,
}

/// The mathematical value of a [`Node`].
pub struct NodeView {
    pub app_id: Option<Seq<char>>,
    pub class: Seq<char>,
    pub id: u64,
    pub is_focused: bool,
    pub instance: Seq<char>,
    pub transient_for: Option<Seq<char>>,
    pub window_role: Option<Seq<char>>,
    pub title: Seq<char>,
    pub type_: Seq<char>,
    pub pid: u64,
}

impl View for Node {
    type V = NodeView;

    closed spec fn view(&self) -> NodeView {
        NodeView {
            app_id: text_of(self.app_id),
            class: self.class@,
            id: self.id,
            is_focused: self.is_focused,
            instance: self.instance@,
            transient_for: text_of(self.transient_for),
            window_role: text_of(self.window_role),
            title: self.title@,
            type_: self.type_@,
            pid: self.pid,
        }
    }
}

/// The window that the given members describe.
pub open spec fn node_of(
    app_id: Option<Seq<char>>,
    is_focused: bool,
    id: u64,
    pid: u64,
    properties: WindowPropertiesView,
    type_: Seq<char>,
) -> NodeView {
    NodeView {
        app_id,
        class: properties.class,
        id,
        is_focused,
        instance: properties.instance,
        transient_for: properties.transient_for,
        window_role: properties.window_role,
        title: properties.title,
        type_,
        pid,
    }
}

impl Node {
    /// The window's class.
    pub fn class(&self) -> (r: &str)
        ensures
            r@ == self@.class,
    {
        self.class.as_str()
    }

    /// The container's identifier.
    pub fn id(&self) -> (r: u64)
        ensures
            r == self@.id,
    {
        self.id
    }

    /// The identifier of the process that owns the window.
    pub fn pid(&self) -> (r: u64)
        ensures
            r == self@.pid,
    {
        self.pid
    }

    /// The window's title.
    pub fn title(&self) -> (r: &str)
        ensures
            r@ == self@.title,
    {
        self.title.as_str()
    }

    /// Whether this window answers the description: it has the class
    /// `class`, where one is asked for, and the title `title`, where one is
    /// asked for.
    pub fn matches(&self, class: &Option<String>, title: &Option<String>) -> (r: bool)
        ensures
            r == fits(self@, text_of(*class), text_of(*title)),
    {
        let class_fits = match class {
            Some(c) => self.class == *c,
            None => true,
        };
        let title_fits = match title {
            Some(t) => self.title == *t,
            None => true,
        };
        class_fits && title_fits
    }

    /// A window made of the given members.
    pub fn new(
        app_id: Option<String>,
        is_focused: bool,
        id: u64,
        pid: u64,
        properties: WindowProperties,
        type_: String,
    ) -> (r: Node)
        ensures
            r@ == node_of(text_of(app_id), is_focused, id, pid, properties@, type_@),
    {
        Node {
            app_id,
            class: properties.class,
            id,
            type_,
            is_focused,
            pid,
            instance: properties.instance,
            title: properties.title,
            transient_for: properties.transient_for,
            window_role: properties.window_role,
        }
    }
}

/// Whether a window answers a description by class and title. A part of the
/// description that is not given fits every window.
pub open spec fn fits(n: NodeView, class: Option<Seq<char>>, title: Option<Seq<char>>) -> bool {
    &&& class matches Some(c) ==> n.class == c
    &&& title matches Some(t) ==> n.title == t
}

/// The values of a sequence of windows.
pub open spec fn views(nodes: Seq<Node>) -> Seq<NodeView> {
    nodes.map_values(|n: Node| n@)
}

/// The member of `obj` under `field`, which holds text where it is there.
pub open spec fn text_member(obj: Map<Seq<char>, Json>, field: Field) -> Result<
    Option<Seq<char>>,
    TreeErrorView,
> {
    if !obj.contains_key(field.key()) {
        Ok(None)
    } else {
        match obj[field.key()] {
            Json::Text(s) => Ok(Some(s)),
            _ => Err(TreeErrorView::Invalid(field)),
        }
    }
}

/// The member of `obj` under `field`, which holds text or `null` where it is
/// there.
pub open spec fn optional_text_member(obj: Map<Seq<char>, Json>, field: Field) -> Result<
    Option<Seq<char>>,
    TreeErrorView,
> {
    if !obj.contains_key(field.key()) {
        Ok(None)
    } else {
        match obj[field.key()] {
            Json::Null => Ok(None),
            Json::Text(s) => Ok(Some(s)),
            _ => Err(TreeErrorView::Invalid(field)),
        }
    }
}

/// The window properties that `v` holds. Each of the five members is first
/// held to its kind, in the order class, instance, title, transient_for,
/// window_role; then the first three are asked for. Other members are
/// ignored.
pub open spec fn properties_of(v: Json) -> Result<WindowPropertiesView, TreeErrorView> {
    match v {
        Json::Object(obj) => match text_member(obj, Field::Class) {
            Err(e) => Err(e),
            Ok(class) => match text_member(obj, Field::Instance) {
                Err(e) => Err(e),
                Ok(instance) => match text_member(obj, Field::Title) {
                    Err(e) => Err(e),
                    Ok(title) => match optional_text_member(obj, Field::TransientFor) {
                        Err(e) => Err(e),
                        Ok(transient_for) => match optional_text_member(obj, Field::WindowRole) {
                            Err(e) => Err(e),
                            Ok(window_role) => if class is None {
                                Err(TreeErrorView::Missing(Field::Class))
                            } else if instance is None {
                                Err(TreeErrorView::Missing(Field::Instance))
                            } else if title is None {
                                Err(TreeErrorView::Missing(Field::Title))
                            } else {
                                Ok(
                                    WindowPropertiesView {
                                        class: class->0,
                                        instance: instance->0,
                                        title: title->0,
                                        transient_for,
                                        window_role,
                                    },
                                )
                            },
                        },
                    },
                },
            },
        },
        _ => Err(TreeErrorView::Invalid(Field::WindowProperties)),
    }
}

/// The window that the container `obj` is, given its `focused` flag and the
/// number under `window`: `pid`, `type`, `app_id` and `window_properties`
/// are read in that order.
pub open spec fn record_of(obj: Map<Seq<char>, Json>, focused: bool, id: u64) -> Result<
    NodeView,
    TreeErrorView,
> {
    if !obj.contains_key(Field::Pid.key()) {
        Err(TreeErrorView::Missing(Field::Pid))
    } else {
        match obj[Field::Pid.key()] {
            Json::Number(Some(pid)) => if !obj.contains_key(Field::Type.key()) {
                Err(TreeErrorView::Missing(Field::Type))
            } else {
                match obj[Field::Type.key()] {
                    Json::Text(type_) => if !obj.contains_key(Field::AppId.key()) {
                        Err(TreeErrorView::Missing(Field::AppId))
                    } else {
                        match optional_text_member(obj, Field::AppId) {
                            Err(e) => Err(e),
                            Ok(app_id) => if !obj.contains_key(Field::WindowProperties.key()) {
                                Err(TreeErrorView::Missing(Field::WindowProperties))
                            } else {
                                match properties_of(obj[Field::WindowProperties.key()]) {
                                    Err(e) => Err(e),
                                    Ok(properties) => Ok(
                                        node_of(app_id, focused, id, pid, properties, type_),
                                    ),
                                }
                            },
                        }
                    },
                    _ => Err(TreeErrorView::Invalid(Field::Type)),
                }
            },
            _ => Err(TreeErrorView::Invalid(Field::Pid)),
        }
    }
}

/// The window that the container `obj` itself is, if it is one: `focused`
/// must be a boolean, and `window` either `null` (no window) or an integer
/// from zero to `u64::MAX`, written without sign, fraction or exponent.
pub open spec fn window_of(obj: Map<Seq<char>, Json>) -> Result<Option<NodeView>, TreeErrorView> {
    if !obj.contains_key(Field::Focused.key()) {
        Err(TreeErrorView::Missing(Field::Focused))
    } else {
        match obj[Field::Focused.key()] {
            Json::Bool(focused) => if !obj.contains_key(Field::Window.key()) {
                Err(TreeErrorView::Missing(Field::Window))
            } else {
                match obj[Field::Window.key()] {
                    Json::Null => Ok(None),
                    Json::Number(Some(id)) => match record_of(obj, focused, id) {
                        Err(e) => Err(e),
                        Ok(n) => Ok(Some(n)),
                    },
                    _ => Err(TreeErrorView::Invalid(Field::Window)),
                }
            },
            _ => Err(TreeErrorView::Invalid(Field::Focused)),
        }
    }
}

/// What a walk has found: the windows met so far, in order, and the defect
/// that stopped it, if one did.
pub struct Walk {
    pub nodes: Seq<NodeView>,
    pub failure: Option<TreeErrorView>,
}

/// The walk of the container `v`, which was found under `slot`: its own
/// window, then the walks of its `nodes`, then those of its
/// `floating_nodes`. The first defect ends the walk; the windows met before
/// it stay.
pub open spec fn walk_value(v: Json, slot: Field) -> Walk
    decreases v, 1int,
{
    match v {
        Json::Object(obj) => match window_of(obj) {
            Err(e) => Walk { nodes: Seq::empty(), failure: Some(e) },
            Ok(w) => {
                let own = match w {
                    Some(n) => seq![n],
                    None => Seq::empty(),
                };
                let tiled = walk_slot(v, Field::Nodes);
                if tiled.failure is Some {
                    Walk { nodes: own + tiled.nodes, failure: tiled.failure }
                } else {
                    let floating = walk_slot(v, Field::FloatingNodes);
                    Walk { nodes: own + tiled.nodes + floating.nodes, failure: floating.failure }
                }
            },
        },
        _ => Walk { nodes: Seq::empty(), failure: Some(TreeErrorView::Invalid(slot)) },
    }
}

/// The walks of the containers that the container `v` holds under `slot`:
/// nothing where it has no such member, a defect where the member is no
/// array.
pub open spec fn walk_slot(v: Json, slot: Field) -> Walk
    decreases v, 0int,
{
    match v {
        Json::Object(obj) => if !obj.contains_key(slot.key()) {
            Walk { nodes: Seq::empty(), failure: None }
        } else {
            match obj[slot.key()] {
                Json::Array(items) => walk_items(items, slot),
                _ => Walk { nodes: Seq::empty(), failure: Some(TreeErrorView::Invalid(slot)) },
            }
        },
        _ => Walk { nodes: Seq::empty(), failure: None },
    }
}

/// The walks of the containers `items`, one after the other, all of them
/// found under `slot`.
pub open spec fn walk_items(items: Seq<Json>, slot: Field) -> Walk
    decreases items, 2int,
{
    if items.len() == 0 {
        Walk { nodes: Seq::empty(), failure: None }
    } else {
        let before = walk_items(items.drop_last(), slot);
        if before.failure is Some {
            before
        } else {
            let last = walk_value(items.last(), slot);
            Walk { nodes: before.nodes + last.nodes, failure: last.failure }
        }
    }
}

/// The walk of a whole scene graph, whose root container has the members
/// `obj`.
pub open spec fn walk(obj: Map<Seq<char>, Json>) -> Walk {
    walk_value(Json::Object(obj), Field::Nodes)
}

/// The defect that a result reports, if it reports one.
pub open spec fn failure_of(r: Result<(), TreeError>) -> Option<TreeErrorView> {
    match r {
        Ok(_) => None,
        Err(e) => Some(e@),
    }
}

/// The scene graph that `text` holds: the windows of the walk, or the reason
/// why there is none.
pub open spec fn tree_of(text: Seq<char>) -> Result<Seq<NodeView>, TreeErrorView> {
    match parsed_object(text) {
        Err(message) => Err(TreeErrorView::Syntax(message)),
        Ok(obj) => match walk(obj).failure {
            Some(e) => Err(e),
            None => Ok(walk(obj).nodes),
        },
    }
}

/// Once a walk over a list has met a defect, the rest of the list adds
/// nothing to it.
pub proof fn lemma_walk_items_stops(items: Seq<Json>, k: int, slot: Field)
    requires
        0 <= k <= items.len(),
        walk_items(items.take(k), slot).failure is Some,
    ensures
        walk_items(items, slot) == walk_items(items.take(k), slot),
    decreases items.len() - k,
{
    if k == items.len() {
        assert(items.take(k) == items);
    } else {
        assert(items.take(k + 1).drop_last() == items.take(k));
        lemma_walk_items_stops(items, k + 1, slot);
    }
}

fn read_text_member(m: &serde_json::Map<String, serde_json::Value>, field: Field) -> (r: Result<
    Option<String>,
    TreeError,
>)
    ensures
        match r {
            Ok(o) => text_member(object_content(*m), field) == Ok::<
                Option<Seq<char>>,
                TreeErrorView,
            >(text_of(o)),
            Err(e) => text_member(object_content(*m), field) == Err::<
                Option<Seq<char>>,
                TreeErrorView,
            >(e@),
        },
{
    match object_get(m, field.name()) {
        None => Ok(None),
        Some(v) => match as_str(v) {
            Some(s) => Ok(Some(s.to_owned())),
            None => Err(TreeError::Invalid(field)),
        },
    }
}

fn read_optional_text_member(
    m: &serde_json::Map<String, serde_json::Value>,
    field: Field,
) -> (r: Result<Option<String>, TreeError>)
    ensures
        match r {
            Ok(o) => optional_text_member(object_content(*m), field) == Ok::<
                Option<Seq<char>>,
                TreeErrorView,
            >(text_of(o)),
            Err(e) => optional_text_member(object_content(*m), field) == Err::<
                Option<Seq<char>>,
                TreeErrorView,
            >(e@),
        },
{
    match object_get(m, field.name()) {
        None => Ok(None),
        Some(v) => {
            if is_null(v) {
                Ok(None)
            } else {
                match as_str(v) {
                    Some(s) => Ok(Some(s.to_owned())),
                    None => Err(TreeError::Invalid(field)),
                }
            }
        },
    }
}

/// Reads the `window_properties` member of a window.
pub fn read_properties(v: &serde_json::Value) -> (r: Result<WindowProperties, TreeError>)
    ensures
        match r {
            Ok(p) => properties_of(value_content(*v)) == Ok::<WindowPropertiesView, TreeErrorView>(
                p@,
            ),
            Err(e) => properties_of(value_content(*v)) == Err::<
                WindowPropertiesView,
                TreeErrorView,
            >(e@),
        },
{
    let obj = match as_object(v) {
        Some(obj) => obj,
        None => {
            return Err(TreeError::Invalid(Field::WindowProperties));
        },
    };
    let class = match read_text_member(obj, Field::Class) {
        Ok(o) => o,
        Err(e) => {
            return Err(e);
        },
    };
    let instance = match read_text_member(obj, Field::Instance) {
        Ok(o) => o,
        Err(e) => {
            return Err(e);
        },
    };
    let title = match read_text_member(obj, Field::Title) {
        Ok(o) => o,
        Err(e) => {
            return Err(e);
        },
    };
    let transient_for = match read_optional_text_member(obj, Field::TransientFor) {
        Ok(o) => o,
        Err(e) => {
            return Err(e);
        },
    };
    let window_role = match read_optional_text_member(obj, Field::WindowRole) {
        Ok(o) => o,
        Err(e) => {
            return Err(e);
        },
    };
    let class = match class {
        Some(s) => s,
        None => {
            return Err(TreeError::Missing(Field::Class));
        },
    };
    let instance = match instance {
        Some(s) => s,
        None => {
            return Err(TreeError::Missing(Field::Instance));
        },
    };
    let title = match title {
        Some(s) => s,
        None => {
            return Err(TreeError::Missing(Field::Title));
        },
    };
    Ok(WindowProperties { class, instance, title, transient_for, window_role })
}

fn read_record(m: &serde_json::Map<String, serde_json::Value>, focused: bool, id: u64) -> (r:
    Result<Node, TreeError>)
    ensures
        match r {
            Ok(n) => record_of(object_content(*m), focused, id) == Ok::<NodeView, TreeErrorView>(
                n@,
            ),
            Err(e) => record_of(object_content(*m), focused, id) == Err::<NodeView, TreeErrorView>(
                e@,
            ),
        },
{
    let pid = match object_get(m, Field::Pid.name()) {
        None => {
            return Err(TreeError::Missing(Field::Pid));
        },
        Some(v) => match as_u64(v) {
            Some(pid) => pid,
            None => {
                return Err(TreeError::Invalid(Field::Pid));
            },
        },
    };
    let type_ = match object_get(m, Field::Type.name()) {
        None => {
            return Err(TreeError::Missing(Field::Type));
        },
        Some(v) => match as_str(v) {
            Some(s) => s.to_owned(),
            None => {
                return Err(TreeError::Invalid(Field::Type));
            },
        },
    };
    if object_get(m, Field::AppId.name()).is_none() {
        return Err(TreeError::Missing(Field::AppId));
    }
    let app_id = match read_optional_text_member(m, Field::AppId) {
        Ok(o) => o,
        Err(e) => {
            return Err(e);
        },
    };
    let properties = match object_get(m, Field::WindowProperties.name()) {
        None => {
            return Err(TreeError::Missing(Field::WindowProperties));
        },
        Some(v) => match read_properties(v) {
            Ok(p) => p,
            Err(e) => {
                return Err(e);
            },
        },
    };
    Ok(Node::new(app_id, focused, id, pid, properties, type_))
}

/// Reads the window that the container `m` itself is, if it is one.
pub fn read_window(m: &serde_json::Map<String, serde_json::Value>) -> (r: Result<
    Option<Node>,
    TreeError,
>)
    ensures
        match r {
            Ok(Some(n)) => window_of(object_content(*m)) == Ok::<Option<NodeView>, TreeErrorView>(
                Some(n@),
            ),
            Ok(None) => window_of(object_content(*m)) == Ok::<Option<NodeView>, TreeErrorView>(
                None,
            ),
            Err(e) => window_of(object_content(*m)) == Err::<Option<NodeView>, TreeErrorView>(e@),
        },
{
    let focused = match object_get(m, Field::Focused.name()) {
        None => {
            return Err(TreeError::Missing(Field::Focused));
        },
        Some(v) => match as_bool(v) {
            Some(b) => b,
            None => {
                return Err(TreeError::Invalid(Field::Focused));
            },
        },
    };
    match object_get(m, Field::Window.name()) {
        None => Err(TreeError::Missing(Field::Window)),
        Some(v) => {
            if is_null(v) {
                Ok(None)
            } else {
                match as_u64(v) {
                    None => Err(TreeError::Invalid(Field::Window)),
                    Some(id) => match read_record(m, focused, id) {
                        Ok(n) => Ok(Some(n)),
                        Err(e) => Err(e),
                    },
                }
            }
        },
    }
}

/// Walks the containers that `m` holds under `slot` and appends their
/// windows to `output`.
fn walk_children(
    m: &serde_json::Map<String, serde_json::Value>,
    slot: Field,
    output: &mut Vec<Node>,
) -> (r: Result<(), TreeError>)
    ensures
        views(final(output)@) == views(old(output)@) + walk_slot(
            Json::Object(object_content(*m)),
            slot,
        ).nodes,
        failure_of(r) == walk_slot(Json::Object(object_content(*m)), slot).failure,
    decreases Json::Object(object_content(*m)), 0int,
{
    let ghost start = views(output@);
    assert(start + Seq::<NodeView>::empty() == start);
    let items = match object_get(m, slot.name()) {
        None => {
            return Ok(());
        },
        Some(v) => match as_array(v) {
            Some(items) => items,
            None => {
                return Err(TreeError::Invalid(slot));
            },
        },
    };
    let ghost docs = Seq::new(items@.len(), |k: int| value_content(items@[k]));
    assert(docs.take(0) == Seq::<Json>::empty());
    let mut i: usize = 0;
    while i < items.len()
        invariant
            i <= items.len(),
            start == views(old(output)@),
            docs == Seq::new(items@.len(), |k: int| value_content(items@[k])),
            object_content(*m).contains_key(slot.key()),
            object_content(*m)[slot.key()] == Json::Array(docs),
            views(output@) == start + walk_items(docs.take(i as int), slot).nodes,
            walk_items(docs.take(i as int), slot).failure is None,
        decreases items.len() - i,
    {
        let ghost before = walk_items(docs.take(i as int), slot);
        let ghost so_far = views(output@);
        assert(docs.take(i + 1).drop_last() == docs.take(i as int));
        assert(docs.take(i + 1).last() == docs[i as int]);
        match as_object(&items[i]) {
            None => {
                proof {
                    assert(walk_items(docs.take(i + 1), slot).nodes == before.nodes
                        + Seq::<NodeView>::empty());
                    assert(before.nodes + Seq::<NodeView>::empty() == before.nodes);
                    lemma_walk_items_stops(docs, i + 1, slot);
                }
                return Err(TreeError::Invalid(slot));
            },
            Some(child) => {
                let r = walk_tree(child, output);
                proof {
                    let last = walk_value(docs[i as int], slot);
                    assert(last == walk(object_content(*child)));
                    assert(views(output@) == so_far + last.nodes);
                    assert(so_far + last.nodes == start + (before.nodes + last.nodes));
                }
                match r {
                    Err(e) => {
                        proof {
                            lemma_walk_items_stops(docs, i + 1, slot);
                        }
                        return Err(e);
                    },
                    Ok(()) => {},
                }
            },
        }
        i += 1;
    }
    assert(docs.take(i as int) == docs);
    Ok(())
}

/// Walks the scene graph whose root container is `m`, depth first, and
/// appends its windows to `output`. The first defect ends the walk; the
/// windows met before it stay in `output`.
pub fn walk_tree(m: &serde_json::Map<String, serde_json::Value>, output: &mut Vec<Node>) -> (r:
    Result<(), TreeError>)
    ensures
        views(final(output)@) == views(old(output)@) + walk(object_content(*m)).nodes,
        failure_of(r) == walk(object_content(*m)).failure,
    decreases Json::Object(object_content(*m)), 1int,
{
    let ghost start = views(output@);
    assert(start + Seq::<NodeView>::empty() == start);
    match read_window(m) {
        Err(e) => {
            return Err(e);
        },
        Ok(None) => {},
        Ok(Some(n)) => {
            let ghost seen = output@;
            output.push(n);
            assert(views(output@) == start + seq![n@]) by {
                assert(output@ == seen.push(n));
                assert(views(seen.push(n)) == views(seen).push(n@));
            }
        },
    }
    let ghost mid = views(output@);
    match walk_children(m, Field::Nodes, output) {
        Err(e) => {
            return Err(e);
        },
        Ok(()) => {},
    }
    let ghost tiled = walk_slot(Json::Object(object_content(*m)), Field::Nodes).nodes;
    let r = walk_children(m, Field::FloatingNodes, output);
    proof {
        let floating = walk_slot(Json::Object(object_content(*m)), Field::FloatingNodes).nodes;
        let first = mid.subrange(start.len() as int, mid.len() as int);
        assert(mid == start + first);
        assert(views(output@) == mid + tiled + floating);
        assert(mid + tiled + floating == start + (first + tiled + floating));
    }
    r
}

/// Reads the scene graph that `text` holds, as `swaymsg -t get_tree` prints
/// it, into the list of its windows.
pub fn get_tree(text: &str) -> (r: Result<Vec<Node>, TreeError>)
    ensures
        match r {
            Ok(nodes) => tree_of(text@) == Ok::<Seq<NodeView>, TreeErrorView>(views(nodes@)),
            Err(e) => tree_of(text@) == Err::<Seq<NodeView>, TreeErrorView>(e@),
        },
{
    let m = match parse_object(text) {
        Ok(m) => m,
        Err(e) => {
            return Err(TreeError::Syntax(error_message(&e)));
        },
    };
    let mut output: Vec<Node> = Vec::new();
    assert(views(output@) == Seq::<NodeView>::empty());
    match walk_tree(&m, &mut output) {
        Err(e) => Err(e),
        Ok(()) => {
            assert(Seq::<NodeView>::empty() + walk(object_content(m)).nodes == walk(
                object_content(m),
            ).nodes);
            Ok(output)
        },
    }
}

} // verus!
