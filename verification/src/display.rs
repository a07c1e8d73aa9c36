//! The colours that the drawn artwork is shown in: each shape is drawn in the colour that
//! marks its title, and then shown in the colour that its title has.

use crate::blend::Rgba;
use crate::canvas::{bytes_of, lemma_bytes_of, pixel_of, Canvas};
use crate::codec::{color_title, title_of_color};
use vstd::prelude::*;

verus! {

/// Opaque black, the colour of a shape whose title has no colour of its own.
pub open spec fn black() -> Rgba {
    Rgba { red: 0, green: 0, blue: 0, alpha: 255 }
}

/// Whether `i` is the first place in the list that gives the title a colour.
pub open spec fn is_first_color(colours: Seq<(u16, Rgba)>, id: u16, i: int) -> bool {
    &&& 0 <= i < colours.len()
    &&& colours[i].0 == id
    &&& forall|j: int| 0 <= j < i ==> (#[trigger] colours[j]).0 != id
}

/// Whether the list gives the title a colour.
pub open spec fn has_color(colours: Seq<(u16, Rgba)>, id: u16) -> bool {
    exists|i: int| 0 <= i < colours.len() && (#[trigger] colours[i]).0 == id
}

/// The colour that the shapes of a title are shown in: the first that the list gives the
/// title, and black where it gives none.
pub open spec fn display_color(colours: Seq<(u16, Rgba)>, id: u16) -> Rgba {
    if has_color(colours, id) {
        colours[choose|i: int| is_first_color(colours, id, i)].1
    } else {
        black()
    }
}

/// The title that a pixel of the drawn artwork is marked with: an opaque pixel without red
/// carries the title that its green and blue stand for.
pub open spec fn marked_title(pixel: Rgba) -> Option<u16> {
    if pixel.alpha == 255 {
        title_of_color(pixel.red, pixel.green, pixel.blue)
    } else {
        None
    }
}

/// A pixel of the drawn artwork as it is shown: a marked pixel in the colour of its title,
/// any other as it is.
pub open spec fn shown_pixel(colours: Seq<(u16, Rgba)>, pixel: Rgba) -> Rgba {
    match marked_title(pixel) {
        Some(id) => display_color(colours, id),
        None => pixel,
    }
}

/// The number of pixels among the first `n` that are marked with a title which has no colour.
pub open spec fn unresolved_count(colours: Seq<(u16, Rgba)>, data: Seq<u8>, n: int) -> nat
    decreases n,
{
    if n <= 0 {
        0
    } else {
        let before = unresolved_count(colours, data, n - 1);
        match marked_title(pixel_of(data, n - 1)) {
            Some(id) => if has_color(colours, id) {
                before
            } else {
                before + 1
            },
            None => before,
        }
    }
}

/// The bytes of the drawn artwork as it is shown.
pub open spec fn shown_bytes(colours: Seq<(u16, Rgba)>, data: Seq<u8>) -> Seq<u8> {
    bytes_of(data.len() as int / 4, |i: int| shown_pixel(colours, pixel_of(data, i)))
}

/// The first colour in a list is the one that the title is shown in.
pub proof fn lemma_display_color(colours: Seq<(u16, Rgba)>, id: u16, i: int)
    requires
        is_first_color(colours, id, i),
    ensures
        has_color(colours, id),
        display_color(colours, id) == colours[i].1,
{
    assert(colours[i].0 == id);
    let c = choose|c: int| is_first_color(colours, id, c);
    assert(is_first_color(colours, id, c));
    if c < i {
        assert(colours[c].0 != id);
    } else if i < c {
        assert(colours[i].0 != id);
    }
}

/// Finds the colour that the shapes of a title are shown in. A title without colour is shown
/// in black, and the second part of the result tells that it had none.
pub fn display_color_for(colours: &Vec<(u16, Rgba)>, id: u16) -> (res: (Rgba, bool))
    ensures
        res.0 == display_color(colours@, id),
        res.1 == has_color(colours@, id),
{
    let mut i: usize = 0;
    while i < colours.len()
        invariant
            i <= colours@.len(),
            forall|j: int| 0 <= j < i ==> (#[trigger] colours@[j]).0 != id,
        decreases colours@.len() - i,
    {
        if colours[i].0 == id {
            proof {
                lemma_display_color(colours@, id, i as int);
            }
            return (colours[i].1, true);
        }
        i += 1;
    }
    (Rgba { red: 0, green: 0, blue: 0, alpha: 255 }, false)
}

/// Brings the drawn artwork from the colours that mark its titles to the colours it is shown
/// in, and counts the pixels whose title has no colour: those are shown in black.
pub fn show_colors(canvas: &mut Canvas, colours: &Vec<(u16, Rgba)>) -> (unresolved: usize)
    requires
        old(canvas).wf(),
    ensures
        final(canvas).wf(),
        final(canvas).same_size(old(canvas)),
        final(canvas).data@ == shown_bytes(colours@, old(canvas).data@),
        unresolved == unresolved_count(colours@, old(canvas).data@, old(canvas).count()),
{
    let count: usize = canvas.pixel_count();
    let ghost drawn = canvas.data@;
    let mut unresolved: usize = 0;
    let mut i: usize = 0;
    while i < count
        invariant
            i <= count,
            canvas.wf(),
            canvas.same_size(old(canvas)),
            count == canvas.count(),
            drawn.len() == 4 * count,
            unresolved == unresolved_count(colours@, drawn, i as int),
            unresolved <= i,
            forall|j: int|
                0 <= j < count ==> #[trigger] canvas.pixel(j) == if j < i {
                    shown_pixel(colours@, pixel_of(drawn, j))
                } else {
                    pixel_of(drawn, j)
                },
        decreases count - i,
    {
        let pixel: Rgba = canvas.get_pixel(i);
        assert(pixel == pixel_of(drawn, i as int));
        if pixel.alpha == 255 {
            match color_title(pixel.red, pixel.green, pixel.blue) {
                Some(id) => {
                    let (colour, known): (Rgba, bool) = display_color_for(colours, id);
                    canvas.put_pixel(i, colour);
                    if !known {
                        unresolved += 1;
                    }
                },
                None => {},
            }
        }
        i += 1;
    }
    proof {
        let after = |i: int| shown_pixel(colours@, pixel_of(drawn, i));
        assert forall|i: int| 0 <= i < count implies #[trigger] pixel_of(canvas.data@, i) == after(
            i,
        ) by {
            assert(canvas.pixel(i) == after(i));
        }
        lemma_bytes_of(canvas.data@, count as int, after);
        assert(canvas.data@ =~= shown_bytes(colours@, drawn));
    }
    unresolved
}

} // verus!
