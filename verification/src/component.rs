//! Type-erased component values and the few std calls that make and read them.
//!
//! A component sits behind `Box<dyn Any>`, which Verus cannot look into. The
//! functions marked `external_body` below are therefore believed, not proved:
//! each holds one call into `std::any` or `Box`, and its contract says of the
//! call what std's documentation says. They speak through two spec functions,
//! [`type_key`] and [`payload`], whose values are fixed but not known to the
//! verifier.

use std::any::Any;
use std::any::TypeId;
use vstd::prelude::*;

verus! {

/// `std::any::TypeId`, carried through as an opaque value: the verifier
/// knows of two of them only whether they are equal.
#[verifier::external_type_specification]
#[verifier::external_body]
pub struct ExTypeId(TypeId);

/// One component of some concrete type, behind `Box<dyn Any>`.
///
/// Verus cannot look inside a `dyn Any`, so the struct is opaque to it; what
/// a component holds is spoken of through [`payload`].
#[verifier::external_body]
#[derive(Debug)]
pub struct Component {
    boxed: Box<dyn Any>,
}

/// The identity of the type `T` as a value: one fixed `TypeId` for each `T`
/// in a build of the program. Which one is not known to the verifier, nor
/// that two types differ in it; `is_same_type` finds that out at run time.
pub closed spec fn type_key<T: 'static>() -> TypeId {
    arbitrary::<spec_fn(Option<T>) -> TypeId>()(None)
}

/// What the component holds, read as a `T`: `Some` of the value if the
/// component is of exactly type `T`, `None` if it is of another type.
/// Not known to the verifier beyond what `boxed` and the two casts below
/// say of it.
pub closed spec fn payload<T: 'static>(c: Component) -> Option<T> {
    arbitrary::<spec_fn(Component) -> Option<T>>()(c)
}

/// `TypeId::of::<T>()`: the run-time identity of `T`, which depends on `T`
/// alone. Believed: the result is the key that the contracts call
/// `type_key::<T>()`.
#[verifier::external_body]
pub(crate) fn type_id_of<T: 'static>() -> (k: TypeId)
    ensures
        k == type_key::<T>(),
{
    TypeId::of::<T>()
}

/// `==` on `TypeId`. Believed: it holds exactly when the two are the same
/// value.
#[verifier::external_body]
pub(crate) fn same_type(a: &TypeId, b: &TypeId) -> (r: bool)
    ensures
        r == (*a == *b),
{
    a == b
}

/// `Box::new` on a `T`, coerced to `Box<dyn Any>`. Believed: the new
/// component holds `value` as a `T`.
#[verifier::external_body]
pub(crate) fn boxed<T: 'static>(value: T) -> (c: Component)
    ensures
        payload::<T>(c) == Some(value),
{
    Component { boxed: Box::new(value) }
}

/// `<dyn Any>::downcast_ref::<T>`. Believed: it gives a reference to the
/// value if the component is of type `T`, nothing otherwise.
#[verifier::external_body]
pub(crate) fn cast_ref<T: 'static>(c: &Component) -> (r: Option<&T>)
    ensures
        r == match payload::<T>(*c) {
            Some(v) => Some(&v),
            None => None,
        },
{
    c.boxed.downcast_ref::<T>()
}

/// `<dyn Any>::downcast_mut::<T>`. Believed: it succeeds when `downcast_ref`
/// would and on the same value; the reference writes through, so the
/// component ends holding whatever the caller leaves behind it; a failed cast
/// leaves the component as it was.
#[verifier::external_body]
pub(crate) fn cast_mut<T: 'static>(c: &mut Component) -> (r: Option<&mut T>)
    ensures
        match r {
            Some(v) => payload::<T>(*old(c)) == Some(*v)
                && payload::<T>(*final(c)) == Some(*final(v)),
            None => payload::<T>(*old(c)) is None && *final(c) == *old(c),
        },
{
    c.boxed.downcast_mut::<T>()
}

/// Whether `T` and `U` have the same identity at run time.
pub fn is_same_type<T: 'static, U: 'static>() -> (r: bool)
    ensures
        r == (type_key::<T>() == type_key::<U>()),
{
    let t = type_id_of::<T>();
    let u = type_id_of::<U>();
    same_type(&t, &u)
}

} // verus!
