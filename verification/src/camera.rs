//! The camera: from a point of the image to a ray into the scene.

use vstd::prelude::*;
use crate::fixed::{Fixed, ONE_RAW};
use crate::ray::Ray;
use crate::vector3::Vector3;

verus! {

/// A camera with a thin lens. It is built once from the viewer's
/// parameters and read from then on.
#[derive(Clone, Copy, Debug, PartialEq, Eq, Structural)]
pub struct Camera {
    pub origin: Vector3,
    pub lower_left_corner: Vector3,
    pub horizontal: Vector3,
    pub vertical: Vector3,
    pub u: Vector3,
    pub v: Vector3,
    pub lens_radius: Fixed,
}

impl Camera {
    /// The direction from the point looked at back to the viewer.
    pub open spec fn spec_backward(look_from: Vector3, look_at: Vector3) -> Vector3 {
        look_from.spec_minus(look_at)
    }

    /// The direction to the viewer's right, before it is brought to length one.
    pub open spec fn spec_rightward(look_from: Vector3, look_at: Vector3, v_up: Vector3) -> Vector3 {
        v_up.spec_cross(Camera::spec_backward(look_from, look_at).spec_unit())
    }

    /// Whether the viewer's parameters fix a view: the viewer is not at the
    /// point looked at, and does not look along the up direction.
    pub open spec fn frames(look_from: Vector3, look_at: Vector3, v_up: Vector3) -> bool {
        &&& !Camera::spec_backward(look_from, look_at).is_zero()
        &&& !Camera::spec_rightward(look_from, look_at, v_up).is_zero()
    }

    pub open spec fn spec_new(
        look_from: Vector3,
        look_at: Vector3,
        v_up: Vector3,
        half_height: Fixed,
        aspect_ratio: Fixed,
        aperture: Fixed,
        focus_dist: Fixed,
    ) -> Camera {
        let two = Fixed::of(2 * ONE_RAW);
        let viewport_height = two.spec_times(half_height);
        let viewport_width = aspect_ratio.spec_times(viewport_height);
        let w = Camera::spec_backward(look_from, look_at).spec_unit();
        let u = Camera::spec_rightward(look_from, look_at, v_up).spec_unit();
        let v = w.spec_cross(u);
        let horizontal = u.spec_scaled(focus_dist.spec_times(viewport_width));
        let vertical = v.spec_scaled(focus_dist.spec_times(viewport_height));
        Camera {
            origin: look_from,
            lower_left_corner: look_from.spec_minus(horizontal.spec_divided_by(two)).spec_minus(
                vertical.spec_divided_by(two),
            ).spec_minus(w.spec_scaled(focus_dist)),
            horizontal,
            vertical,
            u,
            v,
            lens_radius: aperture.spec_divided_by(two),
        }
    }

    /// The ray through the point `(s, t)` of the image, from the point of
    /// the lens that the sample picks.
    pub open spec fn spec_get_ray_with(self, s: Fixed, t: Fixed, lens: Vector3) -> Ray {
        let rd = lens.spec_scaled(self.lens_radius);
        let offset = self.u.spec_scaled(rd.x).spec_plus(self.v.spec_scaled(rd.y));
        Ray {
            origin: self.origin.spec_plus(offset),
            direction: self.lower_left_corner.spec_plus(self.horizontal.spec_scaled(s)).spec_plus(
                self.vertical.spec_scaled(t),
            ).spec_minus(self.origin).spec_minus(offset),
        }
    }

    /// Whether the viewer's parameters fix a view.
    pub fn can_frame(look_from: &Vector3, look_at: &Vector3, v_up: &Vector3) -> (b: bool)
        ensures
            b == Camera::frames(*look_from, *look_at, *v_up),
    {
        let back = look_from.minus(look_at);
        if back.all_zero() {
            return false;
        }
        !v_up.cross(&back.unit()).all_zero()
    }

    /// The camera of a viewer at `look_from` who looks at `look_at`, with
    /// `v_up` pointing up in the image. `half_height` is the tangent of half
    /// the vertical field of view; `aspect_ratio` is width over height;
    /// `aperture` is the diameter of the lens, and `focus_dist` the distance
    /// at which the image is sharp.
    pub fn new(
        look_from: Vector3,
        look_at: Vector3,
        v_up: Vector3,
        half_height: Fixed,
        aspect_ratio: Fixed,
        aperture: Fixed,
        focus_dist: Fixed,
    ) -> (camera: Camera)
        requires
            Camera::frames(look_from, look_at, v_up),
        ensures
            camera == Camera::spec_new(
                look_from,
                look_at,
                v_up,
                half_height,
                aspect_ratio,
                aperture,
                focus_dist,
            ),
    {
        let two = Fixed::from_int(2);
        let viewport_height = two.times(half_height);
        let viewport_width = aspect_ratio.times(viewport_height);

        let w = look_from.minus(&look_at).unit();
        let u = v_up.cross(&w).unit();
        let v = w.cross(&u);

        let origin = look_from;
        let horizontal = u.scaled(focus_dist.times(viewport_width));
        let vertical = v.scaled(focus_dist.times(viewport_height));
        let lower_left_corner = origin.minus(&horizontal.divided_by(two)).minus(
            &vertical.divided_by(two),
        ).minus(&w.scaled(focus_dist));

        let lens_radius = aperture.divided_by(two);

        Camera { origin, lower_left_corner, horizontal, vertical, u, v, lens_radius }
    }

    /// The ray through the point `(s, t)` of the image, from the point of
    /// the lens that the sample picks.
    pub fn get_ray_with(&self, s: Fixed, t: Fixed, lens: &Vector3) -> (r: Ray)
        ensures
            r == self.spec_get_ray_with(s, t, *lens),
    {
        let rd = lens.scaled(self.lens_radius);
        let offset = self.u.scaled(rd.x).plus(&self.v.scaled(rd.y));
        Ray::new(
            self.origin.plus(&offset),
            self.lower_left_corner.plus(&self.horizontal.scaled(s)).plus(
                &self.vertical.scaled(t),
            ).minus(&self.origin).minus(&offset),
        )
    }

    /// The ray through the point `(s, t)` of the image, from a random point
    /// of the lens.
    pub fn get_ray(&self, s: Fixed, t: Fixed) -> (r: Ray)
        ensures
            exists|lens: Vector3| #[trigger]
                lens.inside_unit_ball() && lens.z@ == 0 && r == self.spec_get_ray_with(s, t, lens),
    {
        let lens = Vector3::new_random_in_unit_disk();
        self.get_ray_with(s, t, &lens)
    }
}

} // verus!
