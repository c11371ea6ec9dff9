use vstd::prelude::*;

use crate::geometry::{Body, BodyKind, PolygonModel, Rgba, TexturedPolygon, Vertex};

verus! {

/// A drawable that the renderer knows how to draw. Only the crate's own
/// drawable implements it, through `Sealed`.
pub trait Sealed {}

pub trait NativeDrawable: Sealed {}

impl Sealed for Body {}

impl NativeDrawable for Body {}

/// A size that is not yet resolved by a layout stage.
#[derive(Clone, Copy, Debug, PartialEq, Eq, Structural)]
pub enum Dimension {
    /// Inherited from the parent, with an offset.
    Relative(i32),
    Percentage(i32),
    Pixels(i32),
}

#[derive(Clone, Debug)]
pub struct MenuItem {
    pub title: String,
}

#[derive(Debug)]
pub enum Submenu {
    Menu(Menu),
    MenuItem(MenuItem),
}

#[derive(Debug)]
pub struct Menu {
    pub title: String,
    pub children: Vec<Submenu>,
}

#[derive(Debug)]
pub struct MainMenu {
    pub menu: Menu,
}

#[derive(Clone, Copy, Debug, PartialEq, Eq, Structural)]
pub struct StatusBar {}

#[derive(Clone, Copy, Debug, PartialEq, Eq, Structural)]
pub struct Event {}

#[derive(Clone, Debug)]
pub struct Button {
    pub title: String,
}

#[derive(Clone, Debug)]
pub struct TextField {
    pub text: String,
    pub editable: bool,
}

#[derive(Debug)]
pub struct Container {
    pub width: Dimension,
    pub height: Dimension,
    pub children: Vec<Component>,
}

/// A description of one UI element.
#[derive(Debug)]
pub enum Component {
    MainMenu(MainMenu),
    Container(Container),
    Button(Button),
    TextField(TextField),
    /// The introductory icon of a window.
    Icon,
}

#[derive(Debug)]
pub struct Window {
    pub title: String,
    pub menu: Option<MainMenu>,
    pub container: Option<Container>,
    pub status_bar: Option<StatusBar>,
    pub height: Dimension,
    pub width: Dimension,
}

impl Default for Container {
    fn default() -> (r: Container)
        ensures
            r.width == Dimension::Relative(-1i32),
            r.height == Dimension::Relative(-1i32),
            r.children@.len() == 0,
    {
        Container {
            width: Dimension::Relative(-1),
            height: Dimension::Relative(-1),
            children: Vec::new(),
        }
    }
}

impl Default for Window {
    fn default() -> (r: Window)
        ensures
            r.title@ == "RUI Lopez"@,
            r.menu.is_none(),
            r.container.is_none(),
            r.status_bar.is_none(),
            r.height == Dimension::Relative(-1i32),
            r.width == Dimension::Relative(-1i32),
    {
        Window {
            title: "RUI Lopez".to_string(),
            menu: None,
            container: None,
            status_bar: None,
            height: Dimension::Relative(-1),
            width: Dimension::Relative(-1),
        }
    }
}

impl Default for Button {
    fn default() -> (r: Button)
        ensures
            r.title@ == "Button"@,
    {
        Button { title: "Button".to_string() }
    }
}

impl Default for TextField {
    fn default() -> (r: TextField)
        ensures
            r.text@ == "TextField"@,
            !r.editable,
    {
        TextField { text: "TextField".to_string(), editable: false }
    }
}

/// The kind of body a component elaborates to.
pub open spec fn kind_of(c: Component) -> BodyKind {
    match c {
        Component::MainMenu(_) => BodyKind::MainMenu,
        Component::Container(_) => BodyKind::Container,
        Component::Button(_) => BodyKind::Button,
        Component::TextField(_) => BodyKind::TextField,
        Component::Icon => BodyKind::Icon,
    }
}

/// The icon's triangle: red at the top, blue bottom left, green bottom right.
pub open spec fn icon_vertices() -> Seq<Vertex> {
    seq![
        Vertex { x: 400, y: 150, color: Rgba { r: 255, g: 0, b: 0, a: 255 }, u: 0, v: 0 },
        Vertex { x: 200, y: 450, color: Rgba { r: 0, g: 0, b: 255, a: 255 }, u: 0, v: 0 },
        Vertex { x: 600, y: 450, color: Rgba { r: 0, g: 255, b: 0, a: 255 }, u: 0, v: 0 },
    ]
}

/// The polygons a component elaborates to by itself: the icon's triangle, and
/// none for the others (a container's children elaborate to bodies of their own).
pub open spec fn own_polygons(c: Component) -> Seq<PolygonModel> {
    match c {
        Component::Icon => seq![
            PolygonModel { vertices: icon_vertices(), indices: Seq::empty(), texture: None },
        ],
        _ => Seq::empty(),
    }
}

/// The kinds of the bodies that the components of `s` elaborate to, in order:
/// a container stands for what its children elaborate to.
pub open spec fn frame_kinds(s: Seq<Component>) -> Seq<BodyKind>
    decreases s,
{
    if s.len() == 0 {
        Seq::empty()
    } else {
        let last = s[s.len() - 1];
        frame_kinds(s.subrange(0, s.len() - 1)) + match last {
            Component::Container(ct) => frame_kinds(ct.children@),
            _ => seq![kind_of(last)],
        }
    }
}

pub open spec fn body_kinds(bs: Seq<Body>) -> Seq<BodyKind> {
    bs.map_values(|b: Body| b.kind)
}

/// Elaborates a list of components, descending into containers, into one
/// body per component that is not a container.
pub fn elaborate_all(children: &Vec<Component>, parent: &Component) -> (r: Vec<Body>)
    ensures
        body_kinds(r@) == frame_kinds(children@),
        forall|i: int| 0 <= i < r@.len() ==> (#[trigger] r@[i]).wf(),
    decreases children,
{
    let mut out: Vec<Body> = Vec::new();
    let mut i: usize = 0;
    while i < children.len()
        invariant
            0 <= i <= children@.len(),
            body_kinds(out@) == frame_kinds(children@.subrange(0, i as int)),
            forall|k: int| 0 <= k < out@.len() ==> (#[trigger] out@[k]).wf(),
        decreases children@.len() - i,
    {
        let child = &children[i];
        let ghost before = out@;
        match child {
            Component::Container(ct) => {
                proof {
                    assert(decreases_to!(children => children[i as int]));
                }
                let mut sub = elaborate_all(&ct.children, child);
                out.append(&mut sub);
            },
            _ => {
                let b = child.build(parent);
                out.push(b);
            },
        }
        proof {
            let s = children@.subrange(0, i + 1);
            assert(s.subrange(0, s.len() - 1) =~= children@.subrange(0, i as int));
            assert(s[s.len() - 1] == children@[i as int]);
            assert(body_kinds(out@) =~= frame_kinds(s));
        }
        i = i + 1;
    }
    assert(children@.subrange(0, i as int) =~= children@);
    out
}

impl Component {
    pub fn get_height(&self) -> (r: Dimension)
        ensures
            r == match *self {
                Component::Container(c) => c.height,
                _ => Dimension::Relative(-1i32),
            },
    {
        match self {
            Component::Container(c) => c.height,
            _ => Dimension::Relative(-1),
        }
    }

    pub fn get_width(&self) -> (r: Dimension)
        ensures
            r == match *self {
                Component::Container(c) => c.width,
                _ => Dimension::Relative(-1i32),
            },
    {
        match self {
            Component::Container(c) => c.width,
            _ => Dimension::Relative(-1),
        }
    }

    /// Elaborates this component into one drawable body; `parent` is the
    /// component it sits in (the icon for a window's top-level parts).
    pub fn build(&self, parent: &Component) -> (r: Body)
        ensures
            r.wf(),
            r.kind == kind_of(*self),
            r.model() == own_polygons(*self),
    {
        let mut body = Body::new(self.kind());
        match self {
            Component::Icon => {
                let v0 = Vertex { x: 400, y: 150, color: Rgba { r: 255, g: 0, b: 0, a: 255 }, u: 0, v: 0 };
                let v1 = Vertex { x: 200, y: 450, color: Rgba { r: 0, g: 0, b: 255, a: 255 }, u: 0, v: 0 };
                let v2 = Vertex { x: 600, y: 450, color: Rgba { r: 0, g: 255, b: 0, a: 255 }, u: 0, v: 0 };
                let p = TexturedPolygon { vertices: vec![v0, v1, v2], indices: Vec::new(), texture: None };
                assert(p@.vertices =~= icon_vertices());
                assert(p@.indices =~= Seq::<u32>::empty());
                body.push_polygon(p);
                assert(body.model() =~= own_polygons(*self));
            },
            _ => {
                assert(body.model() =~= own_polygons(*self));
            },
        }
        body
    }

    /// The kind of body this component elaborates to.
    pub fn kind(&self) -> (r: BodyKind)
        ensures
            r == kind_of(*self),
    {
        match self {
            Component::MainMenu(_) => BodyKind::MainMenu,
            Component::Container(_) => BodyKind::Container,
            Component::Button(_) => BodyKind::Button,
            Component::TextField(_) => BodyKind::TextField,
            Component::Icon => BodyKind::Icon,
        }
    }
}

impl MainMenu {
    /// A menu bar elaborates to a body with no polygons yet.
    pub fn build(&self, parent: &Component) -> (r: Body)
        ensures
            r.wf(),
            r.kind == BodyKind::MainMenu,
            r.model().len() == 0,
    {
        Body::new(BodyKind::MainMenu)
    }
}

impl Container {
    /// One body per component inside the container, in child order, nested
    /// containers elaborated in place, so that drawing order is tree order.
    pub fn elaborate(&self, parent: &Component) -> (r: Vec<Body>)
        ensures
            body_kinds(r@) == frame_kinds(self.children@),
            forall|i: int| 0 <= i < r@.len() ==> (#[trigger] r@[i]).wf(),
    {
        elaborate_all(&self.children, parent)
    }
}

impl Window {
    /// The bodies of one frame, in drawing order: the icon, then the main
    /// menu where the window has one.
    pub fn build(&self) -> (r: Vec<Body>)
        ensures
            r@.len() == if self.menu.is_some() { 2int } else { 1int },
            r@[0].kind == BodyKind::Icon,
            r@[0].model() == own_polygons(Component::Icon),
            self.menu.is_some() ==> r@[1].kind == BodyKind::MainMenu && r@[1].model().len() == 0,
            forall|i: int| 0 <= i < r@.len() ==> (#[trigger] r@[i]).wf(),
    {
        let pseudo = Component::Icon;
        let icon = pseudo.build(&pseudo);
        let mut res: Vec<Body> = vec![icon];
        match &self.menu {
            Some(menu) => {
                let b = menu.build(&pseudo);
                res.push(b);
            },
            None => {},
        }
        res
    }
}

} // verus!
