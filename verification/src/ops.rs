//! The arithmetic operators on numbers and vectors.

use vstd::prelude::*;
use vstd::std_specs::ops::{AddSpecImpl, DivSpecImpl, MulSpecImpl, NegSpecImpl, SubSpecImpl};
use crate::fixed::Fixed;
use crate::vector3::Vector3;

verus! {

impl core::ops::Add for Fixed {
    type Output = Fixed;

    fn add(self, rhs: Fixed) -> (r: Fixed) {
        self.plus(rhs)
    }
}

impl AddSpecImpl for Fixed {
    open spec fn obeys_add_spec() -> bool {
        true
    }

    open spec fn add_req(self, rhs: Fixed) -> bool {
        true
    }

    open spec fn add_spec(self, rhs: Fixed) -> Fixed {
        self.spec_plus(rhs)
    }
}

impl core::ops::Sub for Fixed {
    type Output = Fixed;

    fn sub(self, rhs: Fixed) -> (r: Fixed) {
        self.minus(rhs)
    }
}

impl SubSpecImpl for Fixed {
    open spec fn obeys_sub_spec() -> bool {
        true
    }

    open spec fn sub_req(self, rhs: Fixed) -> bool {
        true
    }

    open spec fn sub_spec(self, rhs: Fixed) -> Fixed {
        self.spec_minus(rhs)
    }
}

impl core::ops::Mul for Fixed {
    type Output = Fixed;

    fn mul(self, rhs: Fixed) -> (r: Fixed) {
        self.times(rhs)
    }
}

impl MulSpecImpl for Fixed {
    open spec fn obeys_mul_spec() -> bool {
        true
    }

    open spec fn mul_req(self, rhs: Fixed) -> bool {
        true
    }

    open spec fn mul_spec(self, rhs: Fixed) -> Fixed {
        self.spec_times(rhs)
    }
}

impl core::ops::Div for Fixed {
    type Output = Fixed;

    fn div(self, rhs: Fixed) -> (r: Fixed) {
        self.divided_by(rhs)
    }
}

impl DivSpecImpl for Fixed {
    open spec fn obeys_div_spec() -> bool {
        true
    }

    open spec fn div_req(self, rhs: Fixed) -> bool {
        rhs@ != 0
    }

    open spec fn div_spec(self, rhs: Fixed) -> Fixed {
        self.spec_divided_by(rhs)
    }
}

impl core::ops::Neg for Fixed {
    type Output = Fixed;

    fn neg(self) -> (r: Fixed) {
        self.negated()
    }
}

impl NegSpecImpl for Fixed {
    open spec fn obeys_neg_spec() -> bool {
        true
    }

    open spec fn neg_req(self) -> bool {
        true
    }

    open spec fn neg_spec(self) -> Fixed {
        self.spec_negated()
    }
}

impl core::ops::Add for Vector3 {
    type Output = Vector3;

    fn add(self, rhs: Vector3) -> (r: Vector3) {
        self.plus(&rhs)
    }
}

impl AddSpecImpl for Vector3 {
    open spec fn obeys_add_spec() -> bool {
        true
    }

    open spec fn add_req(self, rhs: Vector3) -> bool {
        true
    }

    open spec fn add_spec(self, rhs: Vector3) -> Vector3 {
        self.spec_plus(rhs)
    }
}

impl core::ops::Sub for Vector3 {
    type Output = Vector3;

    fn sub(self, rhs: Vector3) -> (r: Vector3) {
        self.minus(&rhs)
    }
}

impl SubSpecImpl for Vector3 {
    open spec fn obeys_sub_spec() -> bool {
        true
    }

    open spec fn sub_req(self, rhs: Vector3) -> bool {
        true
    }

    open spec fn sub_spec(self, rhs: Vector3) -> Vector3 {
        self.spec_minus(rhs)
    }
}

impl core::ops::Neg for Vector3 {
    type Output = Vector3;

    fn neg(self) -> (r: Vector3) {
        self.negated()
    }
}

impl NegSpecImpl for Vector3 {
    open spec fn obeys_neg_spec() -> bool {
        true
    }

    open spec fn neg_req(self) -> bool {
        true
    }

    open spec fn neg_spec(self) -> Vector3 {
        self.spec_negated()
    }
}

/// The component-wise product.
impl core::ops::Mul for Vector3 {
    type Output = Vector3;

    fn mul(self, rhs: Vector3) -> (r: Vector3) {
        self.hadamard(&rhs)
    }
}

impl MulSpecImpl for Vector3 {
    open spec fn obeys_mul_spec() -> bool {
        true
    }

    open spec fn mul_req(self, rhs: Vector3) -> bool {
        true
    }

    open spec fn mul_spec(self, rhs: Vector3) -> Vector3 {
        self.spec_hadamard(rhs)
    }
}

impl core::ops::Mul<Fixed> for Vector3 {
    type Output = Vector3;

    fn mul(self, rhs: Fixed) -> (r: Vector3) {
        self.scaled(rhs)
    }
}

impl MulSpecImpl<Fixed> for Vector3 {
    open spec fn obeys_mul_spec() -> bool {
        true
    }

    open spec fn mul_req(self, rhs: Fixed) -> bool {
        true
    }

    open spec fn mul_spec(self, rhs: Fixed) -> Vector3 {
        self.spec_scaled(rhs)
    }
}

impl core::ops::Mul<Vector3> for Fixed {
    type Output = Vector3;

    fn mul(self, rhs: Vector3) -> (r: Vector3) {
        rhs.scaled(self)
    }
}

impl MulSpecImpl<Vector3> for Fixed {
    open spec fn obeys_mul_spec() -> bool {
        true
    }

    open spec fn mul_req(self, rhs: Vector3) -> bool {
        true
    }

    open spec fn mul_spec(self, rhs: Vector3) -> Vector3 {
        rhs.spec_scaled(self)
    }
}

impl core::ops::Div<Fixed> for Vector3 {
    type Output = Vector3;

    fn div(self, rhs: Fixed) -> (r: Vector3) {
        self.divided_by(rhs)
    }
}

impl DivSpecImpl<Fixed> for Vector3 {
    open spec fn obeys_div_spec() -> bool {
        true
    }

    open spec fn div_req(self, rhs: Fixed) -> bool {
        rhs@ != 0
    }

    open spec fn div_spec(self, rhs: Fixed) -> Vector3 {
        self.spec_divided_by(rhs)
    }
}

} // verus!
