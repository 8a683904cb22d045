use vstd::prelude::*;
use rand::Rng;

verus! {

/// The fixed colours given to the most frequent classes, most frequent first.
pub open spec fn palette() -> Seq<(u8, u8, u8)> {
    seq![
        (255, 0, 0),
        (0, 255, 0),
        (0, 0, 255),
        (255, 255, 0),
        (255, 0, 255),
        (0, 255, 255),
        (255, 255, 255),
        (0, 0, 0),
        (85, 85, 85),
        (170, 170, 170),
        (128, 255, 0),
        (128, 0, 255),
        (255, 128, 0),
    ]
}

/// Darkest gray given to a class past the palette.
pub const GRAY_LOW: u8 = 10;

/// Bound, exclusive, of the grays given to classes past the palette.
pub const GRAY_HIGH: u8 = 245;

/// Relies on rand's `Rng::gen_range` on `thread_rng()`: a value of the
/// half-open range `lo..hi`, which must not be empty.
#[verifier::external_body]
fn random_in(lo: u8, hi: u8) -> (r: u8)
    requires
        lo < hi,
    ensures
        lo <= r < hi,
{
    rand::thread_rng().gen_range(lo..hi)
}

/// The colour of the class at `index` in the order of frequency: the palette
/// entry while there is one, else the gray of level `gray`.
pub fn class_color(index: usize, gray: u8) -> (r: (u8, u8, u8))
    ensures
        index < palette().len() ==> r == palette()[index as int],
        index >= palette().len() ==> r == (gray, gray, gray),
{
    let colors: Vec<(u8, u8, u8)> = vec![
        (255, 0, 0),
        (0, 255, 0),
        (0, 0, 255),
        (255, 255, 0),
        (255, 0, 255),
        (0, 255, 255),
        (255, 255, 255),
        (0, 0, 0),
        (85, 85, 85),
        (170, 170, 170),
        (128, 255, 0),
        (128, 0, 255),
        (255, 128, 0),
    ];
    assert(colors@ =~= palette());
    if index < colors.len() {
        colors[index]
    } else {
        (gray, gray, gray)
    }
}

/// The colour of the class at `index`: the palette entry while there is one,
/// else a gray drawn at random from `GRAY_LOW..GRAY_HIGH`.
pub fn pick_color(index: usize) -> (r: (u8, u8, u8))
    ensures
        index < palette().len() ==> r == palette()[index as int],
        index >= palette().len() ==> r.0 == r.1 && r.1 == r.2 && GRAY_LOW <= r.0 < GRAY_HIGH,
{
    if index < 13 {
        class_color(index, 0)
    } else {
        let g = random_in(GRAY_LOW, GRAY_HIGH);
        class_color(index, g)
    }
}

} // verus!
