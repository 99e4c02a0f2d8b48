//! Pixel content of the shared buffer.
//!
//! The buffer holds `width * height` pixels, row by row from the top, four
//! bytes each in the order blue, green, red, alpha.

use vstd::prelude::*;
use vstd::arithmetic::div_mod::{
    lemma_div_is_ordered,
    lemma_div_multiples_vanish,
    lemma_fundamental_div_mod_converse,
};

verus! {

/// The smaller of two integers.
pub open spec fn smaller(a: int, b: int) -> int {
    if a <= b {
        a
    } else {
        b
    }
}

/// The share `part / whole` of full intensity, rounded down.
pub open spec fn level(part: int, whole: int) -> int {
    part * 255 / whole
}

/// The red channel of the gradient at column `x` and row `y`: strongest at
/// the top-left corner.
pub open spec fn red(width: int, height: int, x: int, y: int) -> int {
    smaller(level(width - x, width), level(height - y, height))
}

/// The green channel of the gradient: strongest at the top-right corner.
pub open spec fn green(width: int, height: int, x: int, y: int) -> int {
    smaller(level(x, width), level(height - y, height))
}

/// The blue channel of the gradient: strongest at the bottom-left corner.
pub open spec fn blue(width: int, height: int, x: int, y: int) -> int {
    smaller(level(width - x, width), level(y, height))
}

/// Where the first byte of the pixel at column `x` and row `y` lies.
pub open spec fn offset(width: int, x: int, y: int) -> int {
    4 * (y * width + x)
}

/// The byte of the gradient at the given index of the buffer.
pub open spec fn gradient_byte(width: int, height: int, index: int) -> int {
    let pixel = index / 4;
    let x = pixel % width;
    let y = pixel / width;
    let channel = index % 4;
    if channel == 0 {
        blue(width, height, x, y)
    } else if channel == 1 {
        green(width, height, x, y)
    } else if channel == 2 {
        red(width, height, x, y)
    } else {
        255
    }
}

/// The gradient as the bytes of a buffer of `width` by `height` pixels.
pub open spec fn gradient(width: nat, height: nat) -> Seq<u8> {
    Seq::new(
        width * height * 4,
        |index: int| gradient_byte(width as int, height as int, index) as u8,
    )
}

/// Every channel of the gradient is a byte.
pub proof fn lemma_level_is_byte(part: int, whole: int)
    requires
        0 <= part <= whole,
        0 < whole,
    ensures
        0 <= level(part, whole) <= 255,
{
    lemma_div_is_ordered(0, part * 255, whole);
    lemma_div_is_ordered(part * 255, whole * 255, whole);
    lemma_div_multiples_vanish(255, whole);
}

/// The four bytes of the pixel at column `x` and row `y` of the gradient.
pub proof fn lemma_gradient_pixel(width: int, height: int, x: int, y: int)
    requires
        0 <= x < width,
        0 <= y < height,
    ensures
        gradient_byte(width, height, offset(width, x, y)) == blue(width, height, x, y),
        gradient_byte(width, height, offset(width, x, y) + 1) == green(width, height, x, y),
        gradient_byte(width, height, offset(width, x, y) + 2) == red(width, height, x, y),
        gradient_byte(width, height, offset(width, x, y) + 3) == 255,
        0 <= blue(width, height, x, y) <= 255,
        0 <= green(width, height, x, y) <= 255,
        0 <= red(width, height, x, y) <= 255,
{
    lemma_fundamental_div_mod_converse(y * width + x, width, y, x);
    lemma_level_is_byte(width - x, width);
    lemma_level_is_byte(x, width);
    lemma_level_is_byte(height - y, height);
    lemma_level_is_byte(y, height);
}

/// The share `part / whole` of full intensity, rounded down.
fn level_of(part: u32, whole: u32) -> (value: u8)
    requires
        part <= whole,
        0 < whole,
    ensures
        value == level(part as int, whole as int),
{
    proof {
        lemma_level_is_byte(part as int, whole as int);
    }
    let scaled: u64 = (part as u64) * 255;
    (scaled / (whole as u64)) as u8
}

/// The smaller of two bytes.
fn least(a: u8, b: u8) -> (m: u8)
    ensures
        m == smaller(a as int, b as int),
{
    if a <= b {
        a
    } else {
        b
    }
}

/// Renders the gradient into a fresh buffer of `width` by `height` pixels.
/// `lemma_gradient_pixel` reads the result pixel by pixel.
pub fn draw(width: u32, height: u32) -> (pixels: Vec<u8>)
    requires
        width * height * 4 <= usize::MAX,
    ensures
        pixels@ == gradient(width as nat, height as nat),
{
    let mut pixels: Vec<u8> = Vec::new();
    let mut y: u32 = 0;
    while y < height
        invariant
            y <= height,
            pixels@.len() == 4 * (y * width),
            forall|i: int|
                0 <= i < pixels@.len() ==> pixels@[i] == gradient_byte(
                    width as int,
                    height as int,
                    i,
                ) as u8,
        decreases height - y,
    {
        let mut x: u32 = 0;
        while x < width
            invariant
                x <= width,
                y < height,
                pixels@.len() == 4 * (y * width + x),
                forall|i: int|
                    0 <= i < pixels@.len() ==> pixels@[i] == gradient_byte(
                        width as int,
                        height as int,
                        i,
                    ) as u8,
            decreases width - x,
        {
            let across = level_of(width - x, width);
            let along = level_of(x, width);
            let above = level_of(height - y, height);
            let below = level_of(y, height);
            proof {
                lemma_gradient_pixel(width as int, height as int, x as int, y as int);
            }
            pixels.push(least(across, below));
            pixels.push(least(along, above));
            pixels.push(least(across, above));
            pixels.push(255);
            x += 1;
        }
        assert((y + 1) * width == y * width + width) by (nonlinear_arith);
        y += 1;
    }
    assert(4 * (height * width) == width * height * 4) by (nonlinear_arith);
    assert(pixels@ =~= gradient(width as nat, height as nat));
    pixels
}

/// The bytes of `pixels` pixels with the first and third byte of each pixel
/// exchanged: red, green, blue, alpha becomes blue, green, red, alpha.
pub open spec fn reordered(data: Seq<u8>, pixels: nat) -> Seq<u8> {
    Seq::new(
        pixels * 4,
        |index: int|
            {
                let channel = index % 4;
                if channel == 0 {
                    data[index + 2]
                } else if channel == 2 {
                    data[index - 2]
                } else {
                    data[index]
                }
            },
    )
}

/// Brings the output of a renderer that writes red, green, blue, alpha into
/// the byte order of the shared buffer. Bytes of `data` beyond the last
/// pixel are left out.
pub fn bgra_from_rgba(data: &Vec<u8>, width: u32, height: u32) -> (pixels: Vec<u8>)
    requires
        width * height * 4 <= data@.len(),
    ensures
        pixels@ == reordered(data@, (width * height) as nat),
{
    let available = data.len();
    assert(width * height <= usize::MAX) by (nonlinear_arith)
        requires
            width * height * 4 <= available,
    ;
    let count: usize = (width as usize) * (height as usize);
    let mut pixels: Vec<u8> = Vec::new();
    let mut done: usize = 0;
    while done < count
        invariant
            done <= count,
            count * 4 <= available == data@.len(),
            pixels@.len() == done * 4,
            forall|i: int| 0 <= i < pixels@.len() ==> pixels@[i] == reordered(data@, count as nat)[i],
        decreases count - done,
    {
        let first = done * 4;
        pixels.push(data[first + 2]);
        pixels.push(data[first + 1]);
        pixels.push(data[first]);
        pixels.push(data[first + 3]);
        done += 1;
    }
    assert(pixels@ =~= reordered(data@, count as nat));
    pixels
}

} // verus!
