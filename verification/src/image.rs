//! The image loop: every pixel of every scanline, from the top of the
//! image down, as the text of a plain PPM image.

use vstd::prelude::*;
use crate::camera::Camera;
use crate::color::{channel_byte, header, pixel_line, write_color, write_header};
use crate::hittable_list::HittableList;
use crate::render::{Pixel, is_pixel_color, pixel_color};
use crate::sphere::Sphere;
use crate::vector3::Vector3;

verus! {

/// The line of a pixel, given the sum of the colours of its samples.
pub open spec fn line_of(sum: Vector3, samples_per_pixel: u16) -> Seq<u8> {
    pixel_line(
        channel_byte(sum.x, samples_per_pixel),
        channel_byte(sum.y, samples_per_pixel),
        channel_byte(sum.z, samples_per_pixel),
    )
}

/// The lines of the pixels of a scanline, from left to right.
pub open spec fn row_text(sums: Seq<Vector3>, samples_per_pixel: u16) -> Seq<u8>
    decreases sums.len(),
{
    if sums.len() == 0 {
        Seq::empty()
    } else {
        row_text(sums.drop_last(), samples_per_pixel) + line_of(sums.last(), samples_per_pixel)
    }
}

/// The scanlines of an image, one after another.
pub open spec fn rows_text(rows: Seq<Seq<Vector3>>, samples_per_pixel: u16) -> Seq<u8>
    decreases rows.len(),
{
    if rows.len() == 0 {
        Seq::empty()
    } else {
        rows_text(rows.drop_last(), samples_per_pixel) + row_text(rows.last(), samples_per_pixel)
    }
}

/// Whether `sums` could be the pixels of the scanline `y`, from left to right.
pub open spec fn is_row(
    camera: Camera,
    world: Seq<Sphere>,
    y: i32,
    width: i32,
    height: i32,
    samples_per_pixel: u16,
    depth: u8,
    sums: Seq<Vector3>,
) -> bool {
    &&& sums.len() == width
    &&& forall|x: int|
        0 <= x < sums.len() ==> is_pixel_color(
            camera,
            world,
            Pixel { x: x as i32, y, width, height },
            samples_per_pixel,
            depth,
            #[trigger] sums[x],
        )
}

/// Appends the scanline `y` of the image: the lines of its pixels from left
/// to right, each pixel sampled at random.
pub fn write_row(
    out: &mut Vec<u8>,
    camera: &Camera,
    world: &HittableList,
    y: i32,
    width: i32,
    height: i32,
    samples_per_pixel: u16,
    depth: u8,
)
    requires
        width > 0,
        height != 0,
        samples_per_pixel > 0,
    ensures
        exists|sums: Seq<Vector3>|
            is_row(*camera, world@, y, width, height, samples_per_pixel, depth, sums)
                && final(out)@ == old(out)@ + #[trigger] row_text(sums, samples_per_pixel),
{
    let ghost mut sums = Seq::<Vector3>::empty();
    let mut x: i32 = 0;
    assert(out@ =~= old(out)@ + row_text(sums, samples_per_pixel));
    while x < width
        invariant
            0 <= x <= width,
            height != 0,
            samples_per_pixel > 0,
            sums.len() == x,
            forall|k: int|
                0 <= k < sums.len() ==> is_pixel_color(
                    *camera,
                    world@,
                    Pixel { x: k as i32, y, width, height },
                    samples_per_pixel,
                    depth,
                    #[trigger] sums[k],
                ),
            out@ == old(out)@ + row_text(sums, samples_per_pixel),
        decreases width - x,
    {
        let sum = pixel_color(camera, world, Pixel { x, y, width, height }, samples_per_pixel, depth);
        write_color(out, sum, samples_per_pixel);
        proof {
            let earlier = sums;
            sums = sums.push(sum);
            assert(sums.drop_last() =~= earlier);
            assert(sums.last() == sum);
            assert(out@ =~= old(out)@ + row_text(sums, samples_per_pixel));
        }
        x += 1;
    }
}

/// The whole image as the text of a plain PPM image: the header, then the
/// scanlines from the top of the image, which is the largest `y`, down to
/// the bottom.
pub fn render(
    camera: &Camera,
    world: &HittableList,
    width: i32,
    height: i32,
    samples_per_pixel: u16,
    depth: u8,
) -> (out: Vec<u8>)
    requires
        width > 0,
        height > 0,
        samples_per_pixel > 0,
    ensures
        exists|rows: Seq<Seq<Vector3>>|
            {
                &&& rows.len() == height
                &&& forall|i: int|
                    0 <= i < rows.len() ==> is_row(
                        *camera,
                        world@,
                        (height - 1 - i) as i32,
                        width,
                        height,
                        samples_per_pixel,
                        depth,
                        #[trigger] rows[i],
                    )
                &&& out@ == header(width as u32, height as u32) + #[trigger] rows_text(
                    rows,
                    samples_per_pixel,
                )
            },
{
    let mut out: Vec<u8> = Vec::new();
    write_header(&mut out, width as u32, height as u32);
    let ghost mut rows = Seq::<Seq<Vector3>>::empty();
    let mut done: i32 = 0;
    assert(out@ =~= header(width as u32, height as u32) + rows_text(rows, samples_per_pixel));
    while done < height
        invariant
            0 <= done <= height,
            width > 0,
            samples_per_pixel > 0,
            rows.len() == done,
            forall|i: int|
                0 <= i < rows.len() ==> is_row(
                    *camera,
                    world@,
                    (height - 1 - i) as i32,
                    width,
                    height,
                    samples_per_pixel,
                    depth,
                    #[trigger] rows[i],
                ),
            out@ == header(width as u32, height as u32) + rows_text(rows, samples_per_pixel),
        decreases height - done,
    {
        let y = height - 1 - done;
        let ghost before = out@;
        write_row(&mut out, camera, world, y, width, height, samples_per_pixel, depth);
        proof {
            let sums = choose|sums: Seq<Vector3>|
                is_row(*camera, world@, y, width, height, samples_per_pixel, depth, sums) && out@
                    == before + #[trigger] row_text(sums, samples_per_pixel);
            let earlier = rows;
            rows = rows.push(sums);
            assert(rows.drop_last() =~= earlier);
            assert(rows.last() == sums);
            assert(out@ =~= header(width as u32, height as u32) + rows_text(
                rows,
                samples_per_pixel,
            ));
        }
        done += 1;
    }
    out
}

} // verus!
