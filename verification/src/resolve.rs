//! Resolving a view: which of its items are drawn, the bounds that it gives itself, and what
//! its elements share and span.

use crate::layout::{Bounds, ViewElement};
use crate::text::{chars_of, contains, find_in, lowercase, lowercase_of, views};
use vstd::prelude::*;

verus! {

/// Why a view could not be resolved.
#[derive(Clone, Copy, Debug, PartialEq, Eq, Structural)]
pub enum ResolveError {
    /// A bounds record holds none of the three complete groups of fields.
    MalformedBounds,
    /// The view has more than one bounds item of its own.
    MultipleViewBounds,
}

/// The words that mark an element as decoration that is not drawn.
pub open spec fn ignored_words() -> Seq<Seq<char>> {
    seq!["dust"@, "bubbles"@, "unit"@, "backdrop"@, "gradient"@]
}

/// Whether a name that is already in lower case holds one of the ignored words.
pub open spec fn holds_ignored_word(lowered: Seq<char>) -> bool {
    exists|k: int|
        0 <= k < ignored_words().len() && contains(lowered, #[trigger] ignored_words()[k])
}

/// Whether an element of this name is decoration that is not drawn: its name, in lower case,
/// holds one of the ignored words.
pub open spec fn is_ignored_name(name: Seq<char>) -> bool {
    holds_ignored_word(lowercase_of(name))
}

/// Tells whether a name that is already in lower case holds one of the ignored words.
pub fn has_ignored_word(lowered: &str) -> (res: bool)
    ensures
        res == holds_ignored_word(lowered@),
{
    let hay: Vec<char> = chars_of(lowered);
    let mut words: Vec<Vec<char>> = Vec::new();
    words.push(chars_of("dust"));
    words.push(chars_of("bubbles"));
    words.push(chars_of("unit"));
    words.push(chars_of("backdrop"));
    words.push(chars_of("gradient"));
    assert(views(words@) =~= ignored_words());
    let mut k: usize = 0;
    while k < words.len()
        invariant
            k <= words@.len(),
            hay@ == lowered@,
            views(words@) == ignored_words(),
            forall|m: int| 0 <= m < k ==> !contains(lowered@, #[trigger] ignored_words()[m]),
        decreases words@.len() - k,
    {
        assert(views(words@)[k as int] == words@[k as int]@);
        if find_in(&hay, &words[k]) {
            return true;
        }
        k += 1;
    }
    false
}

/// Tells whether an element of this name is decoration that is not drawn.
pub fn is_ignored(name: &str) -> (res: bool)
    ensures
        res == is_ignored_name(name@),
{
    let lowered: String = lowercase(name);
    has_ignored_word(lowered.as_str())
}

/// The name that an item refers to, where it places an element.
pub open spec fn ref_of(item: ViewElement) -> Option<Seq<char>> {
    match item {
        ViewElement::Element(e) => Some(e.ref_name@),
        ViewElement::Overlay(e) => Some(e.ref_name@),
        _ => None,
    }
}

/// Whether no item before `i` refers to the element that item `i` refers to.
pub open spec fn is_first_use(items: Seq<ViewElement>, i: int) -> bool {
    forall|j: int| 0 <= j < i ==> ref_of(#[trigger] items[j]) != ref_of(items[i])
}

/// Whether item `i` is drawn: a screen always; an element where it is the first use of its
/// name and the name is not ignored; a bounds item never.
pub open spec fn is_kept(items: Seq<ViewElement>, i: int) -> bool {
    match items[i] {
        ViewElement::Bounds(_) => false,
        ViewElement::Screen(_) => true,
        ViewElement::Element(e) => is_first_use(items, i) && !is_ignored_name(e.ref_name@),
        ViewElement::Overlay(e) => is_first_use(items, i) && !is_ignored_name(e.ref_name@),
    }
}

/// The places of the items that are drawn, among the first `n`, in their order.
pub open spec fn kept_places(items: Seq<ViewElement>, n: int) -> Seq<usize>
    decreases n,
{
    if n <= 0 {
        Seq::empty()
    } else if is_kept(items, n - 1) {
        kept_places(items, n - 1).push((n - 1) as usize)
    } else {
        kept_places(items, n - 1)
    }
}

/// Whether item `i` is the first bounds item of the view.
pub open spec fn is_first_bounds(items: Seq<ViewElement>, i: int) -> bool {
    &&& 0 <= i < items.len()
    &&& items[i] is Bounds
    &&& forall|j: int| 0 <= j < i ==> !(#[trigger] items[j] is Bounds)
}

/// Whether the view has a bounds item.
pub open spec fn has_bounds(items: Seq<ViewElement>) -> bool {
    exists|i: int| 0 <= i < items.len() && #[trigger] items[i] is Bounds
}

/// Whether the view has a bounds item after item `i`.
pub open spec fn has_bounds_after(items: Seq<ViewElement>, i: int) -> bool {
    exists|j: int| i < j < items.len() && #[trigger] items[j] is Bounds
}

/// The bounds that a view gives itself: those of its bounds item, where it has one. A first
/// bounds item that is malformed is an error, and so is a second bounds item after a first
/// that is well formed.
pub open spec fn declared_bounds(items: Seq<ViewElement>) -> Result<Option<Bounds>, ResolveError> {
    if !has_bounds(items) {
        Ok(None)
    } else {
        let i = choose|i: int| is_first_bounds(items, i);
        match items[i]->Bounds_0.resolved() {
            None => Err(ResolveError::MalformedBounds),
            Some(b) => if has_bounds_after(items, i) {
                Err(ResolveError::MultipleViewBounds)
            } else {
                Ok(Some(b))
            },
        }
    }
}

/// A view has one first bounds item at most, and what the view gives itself goes by it.
pub proof fn lemma_declared_bounds(items: Seq<ViewElement>, i: int)
    requires
        is_first_bounds(items, i),
    ensures
        has_bounds(items),
        declared_bounds(items) == match items[i]->Bounds_0.resolved() {
            None => Err::<Option<Bounds>, ResolveError>(ResolveError::MalformedBounds),
            Some(b) => if has_bounds_after(items, i) {
                Err(ResolveError::MultipleViewBounds)
            } else {
                Ok(Some(b))
            },
        },
{
    assert(items[i] is Bounds);
    let c = choose|c: int| is_first_bounds(items, c);
    assert(is_first_bounds(items, c));
    assert(items[c] is Bounds);
    assert(c == i);
}

/// The items of a view that are drawn, and the bounds that the view gives itself.
#[derive(Debug)]
pub struct FilteredItems {
    /// The view's own bounds, where it has a bounds item.
    pub view_bounds: Option<Bounds>,
    /// The places of the items that are drawn, in their order.
    pub kept: Vec<usize>,
}

/// The places listed are those of the items that are drawn: each once, in rising order.
pub proof fn lemma_kept_places(items: Seq<ViewElement>, n: int)
    requires
        0 <= n <= items.len(),
        n <= usize::MAX,
    ensures
        forall|k: int|
            0 <= k < kept_places(items, n).len() ==> 0 <= (#[trigger] kept_places(items, n)[k]) < n
                && is_kept(items, kept_places(items, n)[k] as int),
        forall|k: int, m: int|
            0 <= k < m < kept_places(items, n).len() ==> kept_places(items, n)[k] < kept_places(
                items,
                n,
            )[m],
        forall|i: int|
            0 <= i < n && is_kept(items, i) ==> kept_places(items, n).contains(i as usize),
    decreases n,
{
    if n > 0 {
        lemma_kept_places(items, n - 1);
        let before = kept_places(items, n - 1);
        let now = kept_places(items, n);
        if is_kept(items, n - 1) {
            assert(now[now.len() - 1] == (n - 1) as usize);
            assert forall|i: int| 0 <= i < n && is_kept(items, i) implies now.contains(
                i as usize,
            ) by {
                if i < n - 1 {
                    let k = choose|k: int| 0 <= k < before.len() && before[k] == i as usize;
                    assert(now[k] == i as usize);
                } else {
                    assert(now[now.len() - 1] == i as usize);
                }
            }
        }
    }
}

/// An element that a view refers to twice is drawn at most once, and never at its second
/// place: of two items that refer to the same element, the later one is not drawn.
pub proof fn lemma_duplicate_ref_dropped(items: Seq<ViewElement>, i: int, j: int)
    requires
        0 <= i < j < items.len(),
        items.len() <= usize::MAX,
        ref_of(items[i]) is Some,
        ref_of(items[i]) == ref_of(items[j]),
    ensures
        !is_kept(items, j),
        !kept_places(items, items.len() as int).contains(j as usize),
{
    lemma_kept_places(items, items.len() as int);
    let places = kept_places(items, items.len() as int);
    if places.contains(j as usize) {
        let k = choose|k: int| 0 <= k < places.len() && places[k] == j as usize;
        assert(is_kept(items, places[k] as int));
    }
}

/// An element that a view refers to is drawn at the first place that refers to it, unless its
/// name is ignored.
pub proof fn lemma_first_ref_kept(items: Seq<ViewElement>, i: int)
    requires
        0 <= i < items.len(),
        items.len() <= usize::MAX,
        ref_of(items[i]) is Some,
        is_first_use(items, i),
        !is_ignored_name(ref_of(items[i])->0),
    ensures
        kept_places(items, items.len() as int).contains(i as usize),
{
    lemma_kept_places(items, items.len() as int);
    assert(is_kept(items, i));
}

/// Tells whether an item before `i` refers to the element that item `i` refers to by `name`.
pub fn used_before(items: &Vec<ViewElement>, i: usize, name: &String) -> (res: bool)
    requires
        i < items@.len(),
        ref_of(items@[i as int]) == Some(name@),
    ensures
        res == !is_first_use(items@, i as int),
{
    let mut j: usize = 0;
    while j < i
        invariant
            j <= i,
            i < items@.len(),
            ref_of(items@[i as int]) == Some(name@),
            forall|k: int| 0 <= k < j ==> ref_of(#[trigger] items@[k]) != ref_of(items@[i as int]),
        decreases i - j,
    {
        let same: bool = match &items[j] {
            ViewElement::Element(e) => e.ref_name == *name,
            ViewElement::Overlay(e) => e.ref_name == *name,
            _ => false,
        };
        if same {
            assert(ref_of(items@[j as int]) == ref_of(items@[i as int]));
            return true;
        }
        j += 1;
    }
    false
}

/// Goes through the items of a view: notes the view's own bounds and lists the items that
/// are drawn. A first bounds item that is malformed, or else a second bounds item, is an
/// error.
pub fn filter_items(items: &Vec<ViewElement>) -> (res: Result<FilteredItems, ResolveError>)
    ensures
        match res {
            Ok(filtered) => {
                &&& declared_bounds(items@) == Ok::<Option<Bounds>, ResolveError>(
                    filtered.view_bounds,
                )
                &&& filtered.kept@ == kept_places(items@, items@.len() as int)
                &&& filtered.view_bounds matches Some(b) ==> b.in_range()
            },
            Err(e) => declared_bounds(items@) == Err::<Option<Bounds>, ResolveError>(e),
        },
{
    let mut view_bounds: Option<Bounds> = None;
    let mut kept: Vec<usize> = Vec::new();
    let ghost mut first: int = 0;
    let mut n: usize = 0;
    while n < items.len()
        invariant
            n <= items@.len(),
            kept@ == kept_places(items@, n as int),
            match view_bounds {
                Some(b) => b.in_range() && first < n && is_first_bounds(items@, first)
                    && items@[first]->Bounds_0.resolved() == Some(b) && forall|j: int|
                    first < j < n ==> !(#[trigger] items@[j] is Bounds),
                None => forall|j: int| 0 <= j < n ==> !(#[trigger] items@[j] is Bounds),
            },
        decreases items@.len() - n,
    {
        match &items[n] {
            ViewElement::Bounds(bounds) => {
                if view_bounds.is_some() {
                    proof {
                        assert(has_bounds_after(items@, first));
                        lemma_declared_bounds(items@, first);
                    }
                    return Err(ResolveError::MultipleViewBounds);
                }
                match bounds.to_xy() {
                    Ok(b) => {
                        view_bounds = Some(b);
                        proof {
                            first = n as int;
                        }
                    },
                    Err(_) => {
                        proof {
                            assert(is_first_bounds(items@, n as int));
                            lemma_declared_bounds(items@, n as int);
                        }
                        return Err(ResolveError::MalformedBounds);
                    },
                }
            },
            ViewElement::Element(element) => {
                if !used_before(items, n, &element.ref_name) && !is_ignored(
                    element.ref_name.as_str(),
                ) {
                    kept.push(n);
                }
            },
            ViewElement::Overlay(element) => {
                if !used_before(items, n, &element.ref_name) && !is_ignored(
                    element.ref_name.as_str(),
                ) {
                    kept.push(n);
                }
            },
            ViewElement::Screen(_) => {
                kept.push(n);
            },
        }
        n += 1;
    }
    proof {
        if view_bounds is Some {
            assert(!has_bounds_after(items@, first));
            lemma_declared_bounds(items@, first);
        }
    }
    Ok(FilteredItems { view_bounds, kept })
}

/// The smallest `x` among rectangles, and zero where there is none.
pub open spec fn least_x(bounds: Seq<Bounds>) -> int
    decreases bounds.len(),
{
    if bounds.len() == 0 {
        0
    } else if bounds.len() == 1 {
        bounds[0].x as int
    } else if least_x(bounds.drop_last()) <= bounds.last().x {
        least_x(bounds.drop_last())
    } else {
        bounds.last().x as int
    }
}

/// The smallest `y` among rectangles, and zero where there is none.
pub open spec fn least_y(bounds: Seq<Bounds>) -> int
    decreases bounds.len(),
{
    if bounds.len() == 0 {
        0
    } else if bounds.len() == 1 {
        bounds[0].y as int
    } else if least_y(bounds.drop_last()) <= bounds.last().y {
        least_y(bounds.drop_last())
    } else {
        bounds.last().y as int
    }
}

/// The largest right edge among rectangles, and at least zero.
pub open spec fn reach_x(bounds: Seq<Bounds>) -> int
    decreases bounds.len(),
{
    if bounds.len() == 0 {
        0
    } else if reach_x(bounds.drop_last()) >= bounds.last().x + bounds.last().width {
        reach_x(bounds.drop_last())
    } else {
        bounds.last().x + bounds.last().width
    }
}

/// The largest lower edge among rectangles, and at least zero.
pub open spec fn reach_y(bounds: Seq<Bounds>) -> int
    decreases bounds.len(),
{
    if bounds.len() == 0 {
        0
    } else if reach_y(bounds.drop_last()) >= bounds.last().y + bounds.last().height {
        reach_y(bounds.drop_last())
    } else {
        bounds.last().y + bounds.last().height
    }
}

/// A number, or zero where it is negative.
pub open spec fn at_least_zero(v: int) -> int {
    if v < 0 {
        0
    } else {
        v
    }
}

/// What the elements of a view share and span.
#[derive(Clone, Copy, Debug, PartialEq, Eq, Structural)]
pub struct Extents {
    /// The offset common to all elements along `x`: their smallest `x`, or zero where that
    /// is negative.
    pub common_x: i64,
    /// The offset common to all elements along `y`.
    pub common_y: i64,
    /// The bounds that the elements give the view: from the origin to their largest edges,
    /// less the common offset.
    pub view_bounds: Bounds,
}

/// What the given rectangles share and span.
pub open spec fn extents_of(bounds: Seq<Bounds>) -> Extents {
    let common_x = at_least_zero(least_x(bounds));
    let common_y = at_least_zero(least_y(bounds));
    Extents {
        common_x: common_x as i64,
        common_y: common_y as i64,
        view_bounds: Bounds {
            x: 0,
            y: 0,
            width: (reach_x(bounds) - common_x) as i64,
            height: (reach_y(bounds) - common_y) as i64,
        },
    }
}

/// Whether every rectangle is in range.
pub open spec fn all_in_range(bounds: Seq<Bounds>) -> bool {
    forall|i: int| 0 <= i < bounds.len() ==> (#[trigger] bounds[i]).in_range()
}

/// The common offset is the smallest corner of the elements where that is not negative: no
/// element starts before it, and each of the two edges is bounded by the values found.
pub proof fn lemma_extents_bound(bounds: Seq<Bounds>, i: int)
    requires
        0 <= i < bounds.len(),
    ensures
        least_x(bounds) <= bounds[i].x,
        least_y(bounds) <= bounds[i].y,
        bounds[i].x + bounds[i].width <= reach_x(bounds),
        bounds[i].y + bounds[i].height <= reach_y(bounds),
        0 <= reach_x(bounds),
        0 <= reach_y(bounds),
    decreases bounds.len(),
{
    if bounds.len() > 1 {
        if i < bounds.len() - 1 {
            lemma_extents_bound(bounds.drop_last(), i);
        } else {
            lemma_extents_bound(bounds.drop_last(), 0);
        }
    } else {
        assert(reach_x(bounds.drop_last()) == 0);
        assert(reach_y(bounds.drop_last()) == 0);
    }
}

/// Measures what the elements of a view share and span.
pub fn measure(elements: &Vec<Bounds>) -> (res: Extents)
    requires
        all_in_range(elements@),
    ensures
        res == extents_of(elements@),
        0 <= res.common_x <= 0xffff_ffff,
        0 <= res.common_y <= 0xffff_ffff,
        res.view_bounds.in_range_wide(),
{
    let mut min_x: i64 = 0;
    let mut min_y: i64 = 0;
    let mut max_x: i64 = 0;
    let mut max_y: i64 = 0;
    let mut n: usize = 0;
    while n < elements.len()
        invariant
            n <= elements@.len(),
            all_in_range(elements@),
            min_x == least_x(elements@.take(n as int)),
            min_y == least_y(elements@.take(n as int)),
            max_x == reach_x(elements@.take(n as int)),
            max_y == reach_y(elements@.take(n as int)),
            -0xffff_ffff <= min_x <= 0xffff_ffff,
            -0xffff_ffff <= min_y <= 0xffff_ffff,
            0 <= max_x <= 0x1_ffff_fffe,
            0 <= max_y <= 0x1_ffff_fffe,
        decreases elements@.len() - n,
    {
        let b: Bounds = elements[n];
        proof {
            assert(elements@.take(n + 1).drop_last() =~= elements@.take(n as int));
            assert(elements@.take(n + 1).last() == b);
            assert(b.in_range());
        }
        if n == 0 || b.x < min_x {
            min_x = b.x;
        }
        if n == 0 || b.y < min_y {
            min_y = b.y;
        }
        if b.x + b.width > max_x {
            max_x = b.x + b.width;
        }
        if b.y + b.height > max_y {
            max_y = b.y + b.height;
        }
        n += 1;
    }
    assert(elements@.take(n as int) =~= elements@);
    let common_x: i64 = if min_x < 0 {
        0
    } else {
        min_x
    };
    let common_y: i64 = if min_y < 0 {
        0
    } else {
        min_y
    };
    Extents {
        common_x,
        common_y,
        view_bounds: Bounds { x: 0, y: 0, width: max_x - common_x, height: max_y - common_y },
    }
}

/// A rectangle moved by the common offset. A corner that was not negative does not become
/// negative: it stops at zero. One that was negative stays negative and moves all the way.
pub open spec fn translated(bounds: Bounds, common_x: int, common_y: int) -> Bounds {
    Bounds {
        x: (if bounds.x >= 0 {
            at_least_zero(bounds.x - common_x)
        } else {
            bounds.x - common_x
        }) as i64,
        y: (if bounds.y >= 0 {
            at_least_zero(bounds.y - common_y)
        } else {
            bounds.y - common_y
        }) as i64,
        width: bounds.width,
        height: bounds.height,
    }
}

/// Moves a rectangle by the common offset.
pub fn translate(bounds: &Bounds, common_x: i64, common_y: i64) -> (res: Bounds)
    requires
        bounds.in_range(),
        0 <= common_x <= 0xffff_ffff,
        0 <= common_y <= 0xffff_ffff,
    ensures
        res == translated(*bounds, common_x as int, common_y as int),
        res.in_range_wide(),
{
    let x: i64 = if bounds.x >= 0 {
        if bounds.x - common_x < 0 {
            0
        } else {
            bounds.x - common_x
        }
    } else {
        bounds.x - common_x
    };
    let y: i64 = if bounds.y >= 0 {
        if bounds.y - common_y < 0 {
            0
        } else {
            bounds.y - common_y
        }
    } else {
        bounds.y - common_y
    };
    Bounds { x, y, width: bounds.width, height: bounds.height }
}

} // verus!
