use vstd::prelude::*;

verus! {

/// ASCII digits of `n` in base ten, most significant first, no leading zeros.
pub open spec fn decimal(n: nat) -> Seq<u8>
    decreases n,
{
    if n < 10 {
        seq![(48 + n) as u8]
    } else {
        decimal(n / 10) + seq![(48 + n % 10) as u8]
    }
}

/// ASCII text of the integer `v`, with a leading `-` when it is negative.
pub open spec fn signed_decimal(v: int) -> Seq<u8> {
    if v < 0 {
        seq![45u8] + decimal((-v) as nat)
    } else {
        decimal(v as nat)
    }
}

/// Header of a plain-text PPM image: `P3`, then `width height`, then the
/// largest channel value `255`, one per line.
pub open spec fn header_text(width: int, height: int) -> Seq<u8> {
    seq![80u8, 51u8, 10u8] + signed_decimal(width) + seq![32u8] + signed_decimal(height)
        + seq![10u8, 50u8, 53u8, 53u8, 10u8]
}

/// One pixel of a plain-text PPM image: `r g b` on a line of its own.
pub open spec fn pixel_text(r: int, g: int, b: int) -> Seq<u8> {
    signed_decimal(r) + seq![32u8] + signed_decimal(g) + seq![32u8] + signed_decimal(b) + seq![
        10u8,
    ]
}

/// The pixel lines of `pixels`, in order.
pub open spec fn row_text(pixels: Seq<(i64, i64, i64)>) -> Seq<u8>
    decreases pixels.len(),
{
    if pixels.len() == 0 {
        Seq::empty()
    } else {
        let last = pixels.last();
        row_text(pixels.drop_last()) + pixel_text(last.0 as int, last.1 as int, last.2 as int)
    }
}

/// Appends the decimal digits of `n`.
pub fn push_decimal(out: &mut Vec<u8>, n: u64)
    ensures
        final(out)@ == old(out)@ + decimal(n as nat),
{
    let mut digits: Vec<u8> = Vec::new();
    let mut rest: u64 = n;
    loop
        invariant_except_break
            decimal(n as nat) == decimal(rest as nat) + digits@.reverse(),
        ensures
            decimal(n as nat) == digits@.reverse(),
        decreases rest,
    {
        let d: u8 = (rest % 10) as u8;
        let ghost before = digits@;
        digits.push(48 + d);
        proof {
            assert(digits@.reverse() =~= seq![(48 + d) as u8] + before.reverse());
        }
        if rest < 10 {
            assert(decimal(rest as nat) =~= seq![(48 + d) as u8]);
            break;
        }
        assert(decimal(rest as nat) == decimal((rest / 10) as nat) + seq![(48 + d) as u8]);
        rest = rest / 10;
    }
    let mut k: usize = digits.len();
    let ghost start = out@;
    while k > 0
        invariant
            k <= digits@.len(),
            out@ == start + digits@.reverse().subrange(0, digits@.len() - k),
        decreases k,
    {
        k = k - 1;
        out.push(digits[k]);
        assert(out@ =~= start + digits@.reverse().subrange(0, digits@.len() - k));
    }
    assert(digits@.reverse().subrange(0, digits@.len() as int) =~= digits@.reverse());
}

/// Appends the decimal text of `v`, signed.
pub fn push_signed(out: &mut Vec<u8>, v: i64)
    ensures
        final(out)@ == old(out)@ + signed_decimal(v as int),
{
    if v < 0 {
        out.push(45u8);
        let magnitude: u64 = (0 - (v as i128)) as u64;
        push_decimal(out, magnitude);
        assert(out@ =~= old(out)@ + signed_decimal(v as int));
    } else {
        push_decimal(out, v as u64);
    }
}

/// The header of a plain-text PPM image of `image_width` x `image_height`
/// pixels with 8-bit channels.
pub fn ppm_header(image_width: i64, image_height: i64) -> (r: Vec<u8>)
    ensures
        r@ == header_text(image_width as int, image_height as int),
{
    let mut out: Vec<u8> = Vec::new();
    out.push(80u8);
    out.push(51u8);
    out.push(10u8);
    push_signed(&mut out, image_width);
    out.push(32u8);
    push_signed(&mut out, image_height);
    out.push(10u8);
    out.push(50u8);
    out.push(53u8);
    out.push(53u8);
    out.push(10u8);
    assert(out@ =~= header_text(image_width as int, image_height as int));
    out
}

/// Appends the line `r g b` of one pixel.
pub fn push_pixel(out: &mut Vec<u8>, r: i64, g: i64, b: i64)
    ensures
        final(out)@ == old(out)@ + pixel_text(r as int, g as int, b as int),
{
    push_signed(out, r);
    out.push(32u8);
    push_signed(out, g);
    out.push(32u8);
    push_signed(out, b);
    out.push(10u8);
    assert(out@ =~= old(out)@ + pixel_text(r as int, g as int, b as int));
}

/// The line `r g b` of one pixel.
pub fn ppm_pixel(r: i64, g: i64, b: i64) -> (line: Vec<u8>)
    ensures
        line@ == pixel_text(r as int, g as int, b as int),
{
    let mut out: Vec<u8> = Vec::new();
    push_pixel(&mut out, r, g, b);
    assert(out@ =~= pixel_text(r as int, g as int, b as int));
    out
}

/// The lines of a whole scanline, left to right.
pub fn ppm_row(pixels: &Vec<(i64, i64, i64)>) -> (text: Vec<u8>)
    ensures
        text@ == row_text(pixels@),
{
    let mut out: Vec<u8> = Vec::new();
    let mut i: usize = 0;
    while i < pixels.len()
        invariant
            i <= pixels@.len(),
            out@ == row_text(pixels@.subrange(0, i as int)),
        decreases pixels@.len() - i,
    {
        let (r, g, b) = pixels[i];
        let ghost before = out@;
        push_pixel(&mut out, r, g, b);
        proof {
            let done = pixels@.subrange(0, i + 1);
            assert(done.drop_last() =~= pixels@.subrange(0, i as int));
            assert(done.last() == pixels@[i as int]);
        }
        i = i + 1;
    }
    assert(pixels@.subrange(0, pixels@.len() as int) =~= pixels@);
    out
}

} // verus!
