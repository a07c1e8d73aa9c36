//! The layout of a device: named elements, and views that place elements and screens.

use crate::text::{lowercase, lowercase_of, texts, trim, trimmed};
use vstd::prelude::*;
use vstd::string::StringExecFns;

verus! {

/// A whole layout document: the elements it defines and the views that use them.
#[derive(Debug)]
pub struct MameLayout {
    pub element: Vec<NameElement>,
    pub view: Vec<LayoutView>,
}

/// An element definition: its name and what it is made of.
#[derive(Debug)]
pub struct NameElement {
    pub name: String,
    pub items: Vec<NameElementChildren>,
}

/// One part of an element definition.
#[derive(PartialEq, Debug)]
pub enum NameElementChildren {
    Image(Image),
    Rect(Rect),
}

/// An image part of an element definition.
#[derive(PartialEq, Debug)]
pub struct Image {}

/// A rectangle part of an element definition.
#[derive(PartialEq, Debug)]
pub struct Rect {}

/// A named, ordered composition of bounds, elements and screens.
#[derive(Clone, Debug)]
pub struct LayoutView {
    pub name: String,
    pub items: Vec<ViewElement>,
}

/// One item of a view.
#[derive(Clone, Debug)]
pub enum ViewElement {
    Bounds(CompleteBounds),
    Element(Element),
    Overlay(Element),
    Screen(Screen),
}

/// Bounds given by their corner and size.
#[derive(Clone, Debug)]
pub struct XYBounds {
    pub x: i32,
    pub y: i32,
    pub width: i32,
    pub height: i32,
}

/// A bounds record as a layout writes it: any of the fields may be missing.
#[derive(Clone, Debug)]
pub struct CompleteBounds {
    pub x: Option<i32>,
    pub y: Option<i32>,
    pub width: Option<i32>,
    pub height: Option<i32>,
    pub xc: Option<i32>,
    pub yc: Option<i32>,
    pub left: Option<i32>,
    pub right: Option<i32>,
    pub top: Option<i32>,
    pub bottom: Option<i32>,
}

/// A rectangle in layout coordinates.
#[derive(Clone, Copy, Debug, PartialEq, Eq, Structural)]
pub struct Bounds {
    pub x: i64,
    pub y: i64,
    pub width: i64,
    pub height: i64,
}

impl Bounds {
    /// Whether each field is a difference of two thirty-two-bit numbers, as it is for every
    /// rectangle that comes from a bounds record.
    pub open spec fn in_range(self) -> bool {
        &&& -0xffff_ffff <= self.x <= 0xffff_ffff
        &&& -0xffff_ffff <= self.y <= 0xffff_ffff
        &&& -0xffff_ffff <= self.width <= 0xffff_ffff
        &&& -0xffff_ffff <= self.height <= 0xffff_ffff
    }

    /// Whether each field is a sum or difference of a few thirty-two-bit numbers, as it is
    /// for every rectangle that the layout computes.
    pub open spec fn in_range_wide(self) -> bool {
        &&& -0x3_ffff_ffff <= self.x <= 0x3_ffff_ffff
        &&& -0x3_ffff_ffff <= self.y <= 0x3_ffff_ffff
        &&& -0x3_ffff_ffff <= self.width <= 0x3_ffff_ffff
        &&& -0x3_ffff_ffff <= self.height <= 0x3_ffff_ffff
    }
}

/// A bounds record holds none of the three complete groups of fields.
#[derive(Clone, Copy, Debug, PartialEq, Eq, Structural)]
pub struct MalformedBounds {}

impl CompleteBounds {
    /// Whether corner and size are all present.
    pub open spec fn has_corner_form(&self) -> bool {
        self.x is Some && self.y is Some && self.width is Some && self.height is Some
    }

    /// Whether centre and size are all present.
    pub open spec fn has_center_form(&self) -> bool {
        self.xc is Some && self.yc is Some && self.width is Some && self.height is Some
    }

    /// Whether the four edges are all present.
    pub open spec fn has_edge_form(&self) -> bool {
        self.left is Some && self.right is Some && self.top is Some && self.bottom is Some
    }

    /// The rectangle that the record describes: by corner and size where those are present,
    /// else by centre and size, else by edges; none where no group is complete.
    pub open spec fn resolved(&self) -> Option<Bounds> {
        if self.has_corner_form() {
            Some(
                Bounds {
                    x: self.x->0 as i64,
                    y: self.y->0 as i64,
                    width: self.width->0 as i64,
                    height: self.height->0 as i64,
                },
            )
        } else if self.has_center_form() {
            Some(
                Bounds {
                    x: (self.xc->0 - self.width->0) as i64,
                    y: (self.yc->0 - self.height->0) as i64,
                    width: self.width->0 as i64,
                    height: self.height->0 as i64,
                },
            )
        } else if self.has_edge_form() {
            Some(
                Bounds {
                    x: self.left->0 as i64,
                    y: self.top->0 as i64,
                    width: (self.right->0 - self.left->0) as i64,
                    height: (self.bottom->0 - self.top->0) as i64,
                },
            )
        } else {
            None
        }
    }

    /// Brings the record into the one form the rest of the library works on.
    pub fn to_xy(&self) -> (res: Result<Bounds, MalformedBounds>)
        ensures
            match self.resolved() {
                Some(b) => res == Ok::<Bounds, MalformedBounds>(b) && b.in_range(),
                None => res is Err,
            },
    {
        if let (Some(x), Some(y), Some(width), Some(height)) = (
            self.x,
            self.y,
            self.width,
            self.height,
        ) {
            Ok(Bounds { x: x as i64, y: y as i64, width: width as i64, height: height as i64 })
        } else if let (Some(xc), Some(yc), Some(width), Some(height)) = (
            self.xc,
            self.yc,
            self.width,
            self.height,
        ) {
            Ok(
                Bounds {
                    x: xc as i64 - width as i64,
                    y: yc as i64 - height as i64,
                    width: width as i64,
                    height: height as i64,
                },
            )
        } else if let (Some(left), Some(right), Some(top), Some(bottom)) = (
            self.left,
            self.right,
            self.top,
            self.bottom,
        ) {
            Ok(
                Bounds {
                    x: left as i64,
                    y: top as i64,
                    width: right as i64 - left as i64,
                    height: bottom as i64 - top as i64,
                },
            )
        } else {
            Err(MalformedBounds {})
        }
    }
}

/// An element placed in a view.
#[derive(Clone, Debug)]
pub struct Element {
    pub ref_name: String,
    pub bounds: CompleteBounds,
    pub blend: Option<BlendType>,
}

/// How an element is blended onto what lies under it.
#[derive(Clone, Copy, PartialEq, Eq, Structural, Debug)]
pub enum BlendType {
    Add,
    Alpha,
    Multiply,
}

/// A screen placed in a view.
#[derive(Clone, Debug)]
pub struct Screen {
    pub index: i32,
    pub bounds: CompleteBounds,
    pub blend: Option<BlendType>,
}

/// Why no view could be chosen.
#[derive(Clone, Copy, Debug, PartialEq, Eq, Structural)]
pub enum ViewError {
    /// The view that was asked for by name is not in the layout.
    NotFound,
    /// No view was asked for, and the layout has none of the preferred names.
    NoSuitableView,
}

/// The names of the views that are preferred, the most preferred first.
pub open spec fn preferred_names() -> Seq<Seq<char>> {
    seq![
        "backgrounds only (no frame)"@,
        "background only (no frame)"@,
        "backgrounds only (no shadow)"@,
        "background only (no shadow)"@,
        "backgrounds only"@,
        "background only"@,
        "background"@,
        "handheld layout"@,
        "external layout"@,
        "screen focus"@,
        "unit only"@,
    ]
}

/// Whether `i` is the last place in the list where `name` stands.
pub open spec fn is_last_place(names: Seq<Seq<char>>, name: Seq<char>, i: int) -> bool {
    &&& 0 <= i < names.len()
    &&& names[i] == name
    &&& forall|j: int| i < j < names.len() ==> #[trigger] names[j] != name
}

/// Whether `name` stands in the list.
pub open spec fn is_listed(names: Seq<Seq<char>>, name: Seq<char>) -> bool {
    exists|i: int| 0 <= i < names.len() && #[trigger] names[i] == name
}

/// Whether `i` is the place of the most preferred name in the list: a preferred name stands
/// there and at no later place, and no more preferred name stands in the list at all.
pub open spec fn is_preferred_place(names: Seq<Seq<char>>, i: int) -> bool {
    exists|k: int|
        0 <= k < preferred_names().len() && is_last_place(names, #[trigger] preferred_names()[k], i)
            && forall|m: int| 0 <= m < k ==> !is_listed(names, #[trigger] preferred_names()[m])
}

/// Whether a preferred name stands in the list.
pub open spec fn has_preferred(names: Seq<Seq<char>>) -> bool {
    exists|k: int|
        0 <= k < preferred_names().len() && is_listed(names, #[trigger] preferred_names()[k])
}

/// The names of the views in lower case, by which views are looked up.
pub open spec fn lowered_names(views: Seq<LayoutView>) -> Seq<Seq<char>> {
    views.map_values(|v: LayoutView| lowercase_of(v.name@))
}

/// Finds the last place in the list where `name` stands.
pub fn find_name(names: &Vec<String>, name: &String) -> (res: Option<usize>)
    ensures
        match res {
            Some(i) => is_last_place(texts(names@), name@, i as int),
            None => !is_listed(texts(names@), name@),
        },
{
    let mut i: usize = names.len();
    while i > 0
        invariant
            i <= names@.len(),
            forall|j: int| i <= j < names@.len() ==> #[trigger] texts(names@)[j] != name@,
        decreases i,
    {
        i -= 1;
        if names[i] == *name {
            assert(texts(names@)[i as int] == name@);
            return Some(i);
        }
        assert(texts(names@)[i as int] == names@[i as int]@);
    }
    None
}

/// The preferred names, the most preferred first.
pub fn preferred_name_list() -> (res: Vec<String>)
    ensures
        texts(res@) == preferred_names(),
{
    let mut names: Vec<String> = Vec::new();
    names.push(String::from_str("backgrounds only (no frame)"));
    names.push(String::from_str("background only (no frame)"));
    names.push(String::from_str("backgrounds only (no shadow)"));
    names.push(String::from_str("background only (no shadow)"));
    names.push(String::from_str("backgrounds only"));
    names.push(String::from_str("background only"));
    names.push(String::from_str("background"));
    names.push(String::from_str("handheld layout"));
    names.push(String::from_str("external layout"));
    names.push(String::from_str("screen focus"));
    names.push(String::from_str("unit only"));
    assert(texts(names@) =~= preferred_names());
    names
}

/// Finds the place of the most preferred name in a list of names in lower case.
pub fn select_name(names: &Vec<String>) -> (res: Option<usize>)
    ensures
        match res {
            Some(i) => is_preferred_place(texts(names@), i as int),
            None => !has_preferred(texts(names@)),
        },
{
    let preferred: Vec<String> = preferred_name_list();
    let mut k: usize = 0;
    while k < preferred.len()
        invariant
            k <= preferred@.len(),
            texts(preferred@) == preferred_names(),
            forall|m: int|
                0 <= m < k ==> !is_listed(texts(names@), #[trigger] preferred_names()[m]),
        decreases preferred@.len() - k,
    {
        assert(texts(preferred@)[k as int] == preferred@[k as int]@);
        match find_name(names, &preferred[k]) {
            Some(i) => {
                return Some(i);
            },
            None => {},
        }
        k += 1;
    }
    None
}

/// The names of the views in lower case.
pub fn view_names(views: &Vec<LayoutView>) -> (res: Vec<String>)
    ensures
        texts(res@) == lowered_names(views@),
{
    let mut names: Vec<String> = Vec::new();
    let mut i: usize = 0;
    while i < views.len()
        invariant
            i <= views@.len(),
            texts(names@) == lowered_names(views@).take(i as int),
        decreases views@.len() - i,
    {
        let ghost before = texts(names@);
        let lowered: String = lowercase(views[i].name.as_str());
        names.push(lowered);
        assert(texts(names@) =~= before.push(lowercase_of(views@[i as int].name@)));
        i += 1;
        assert(texts(names@) =~= lowered_names(views@).take(i as int));
    }
    assert(lowered_names(views@).take(i as int) =~= lowered_names(views@));
    names
}

/// Picks the view to work on when none was asked for: the last view that goes by the most
/// preferred name that any view goes by.
pub fn select_view(views: &Vec<LayoutView>) -> (res: Option<usize>)
    ensures
        match res {
            Some(i) => is_preferred_place(lowered_names(views@), i as int),
            None => !has_preferred(lowered_names(views@)),
        },
{
    let names: Vec<String> = view_names(views);
    select_name(&names)
}

/// Picks the view of a layout to work on: the last one that goes by the name asked for, with
/// the blanks around that name dropped and in lower case, or, when none is asked for, the
/// most preferred one. The result is the view's place in the layout.
pub fn parse_layout(layout: &MameLayout, specified_layout: Option<&String>) -> (res: Result<
    usize,
    ViewError,
>)
    ensures
        match specified_layout {
            Some(name) => match res {
                Ok(i) => is_last_place(
                    lowered_names(layout.view@),
                    lowercase_of(trimmed(name@)),
                    i as int,
                ),
                Err(e) => e == ViewError::NotFound && !is_listed(
                    lowered_names(layout.view@),
                    lowercase_of(trimmed(name@)),
                ),
            },
            None => match res {
                Ok(i) => is_preferred_place(lowered_names(layout.view@), i as int),
                Err(e) => e == ViewError::NoSuitableView && !has_preferred(
                    lowered_names(layout.view@),
                ),
            },
        },
{
    let names: Vec<String> = view_names(&layout.view);
    match specified_layout {
        Some(name) => {
            let trimmed: String = trim(name.as_str());
            let wanted: String = lowercase(trimmed.as_str());
            match find_name(&names, &wanted) {
                Some(i) => Ok(i),
                None => Err(ViewError::NotFound),
            }
        },
        None => match select_name(&names) {
            Some(i) => Ok(i),
            None => Err(ViewError::NoSuitableView),
        },
    }
}

} // verus!
