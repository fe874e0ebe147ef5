//! The field-element operations this layer itself needs. Field arithmetic
//! stays with the proving backend; values here are only stored, copied and
//! compared, so a field element is any copyable value offering an additive
//! identity and a value-equality test.

use vstd::prelude::*;

verus! {

broadcast use vstd::string::to_string_from_display_ensures_for_str;

/// A value usable as a field element by this layer.
pub trait FieldValue: Sized + Copy {
    /// The additive identity, as a specification-level value. The default
    /// leaves it unspecified, for impls outside the verifier's sight.
    open spec fn zero_spec() -> Self {
        vstd::pervasive::arbitrary()
    }

    /// The additive identity.
    fn zero_value() -> (r: Self)
        ensures
            r == Self::zero_spec(),
    ;

    /// Whether two values are equal.
    fn eq_value(&self, other: &Self) -> (r: bool)
        ensures
            r == (*self == *other),
    ;

    /// A label naming this field type, for tagging serialized programs.
    /// Where the label comes from is the implementation's business, so
    /// nothing is promised of it.
    fn type_label() -> String;
}

/// Plain machine integers can stand in for encoded field elements wherever
/// the layer is exercised without a proving backend.
impl FieldValue for u64 {
    open spec fn zero_spec() -> u64 {
        0
    }

    fn zero_value() -> u64 {
        0
    }

    fn eq_value(&self, other: &u64) -> bool {
        *self == *other
    }

    fn type_label() -> String {
        "u64".to_string()
    }
}

} // verus!
