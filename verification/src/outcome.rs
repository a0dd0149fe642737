//! The result filter: which outputs of the computation are stored.

use vstd::prelude::*;
use crate::config::ResultPolicy;

verus! {

/// `Result::clone` clones the payload and keeps the variant: a clone of a
/// success is a success that holds a clone of its value, and a clone of a
/// failure is a failure that holds a clone of its error.
pub assume_specification<T, E>[ <Result<T, E> as Clone>::clone ](result: &Result<T, E>) -> (copy:
    Result<T, E>) where T: Clone, E: Clone
    ensures
        match (*result, copy) {
            (Ok(value), Ok(cloned_value)) => cloned(value, cloned_value),
            (Err(error), Err(cloned_error)) => cloned(error, cloned_error),
            _ => false,
        },
;

/// How an output presents itself to the result filter.
#[derive(Clone, Copy, Debug, PartialEq, Eq, Structural)]
pub enum Variant {
    /// The success variant of a two-outcome result.
    Success,
    /// The present variant of an optional value.
    Present,
    /// Anything else: a failure, an absent value, or an output that is
    /// neither a result nor an optional value.
    Other,
}

/// An output of a computation that can be cached.
///
/// The result filter asks an output for its [`Variant`]. A type that is
/// neither a two-outcome result nor an optional value answers
/// [`Variant::Other`], which is what `variant_of` says unless a type says
/// otherwise.
pub trait Outcome: Clone {
    /// The variant of this output.
    open spec fn variant_of(&self) -> Variant {
        Variant::Other
    }

    /// The variant of this output.
    fn variant(&self) -> (v: Variant)
        ensures
            v == self.variant_of(),
    ;
}

impl<T: Clone, E: Clone> Outcome for Result<T, E> {
    open spec fn variant_of(&self) -> Variant {
        if self is Ok {
            Variant::Success
        } else {
            Variant::Other
        }
    }

    fn variant(&self) -> (v: Variant) {
        match self {
            Ok(_) => Variant::Success,
            Err(_) => Variant::Other,
        }
    }
}

impl<T: Clone> Outcome for Option<T> {
    open spec fn variant_of(&self) -> Variant {
        if self is Some {
            Variant::Present
        } else {
            Variant::Other
        }
    }

    fn variant(&self) -> (v: Variant) {
        match self {
            Some(_) => Variant::Present,
            None => Variant::Other,
        }
    }
}

impl<T: Clone> Outcome for Vec<T> {
    fn variant(&self) -> (v: Variant) {
        Variant::Other
    }
}

impl<T: Clone> Outcome for Box<T> {
    fn variant(&self) -> (v: Variant) {
        Variant::Other
    }
}

impl Outcome for bool {
    fn variant(&self) -> (v: Variant) {
        Variant::Other
    }
}

impl Outcome for char {
    fn variant(&self) -> (v: Variant) {
        Variant::Other
    }
}

impl Outcome for u8 {
    fn variant(&self) -> (v: Variant) {
        Variant::Other
    }
}

impl Outcome for u16 {
    fn variant(&self) -> (v: Variant) {
        Variant::Other
    }
}

impl Outcome for u32 {
    fn variant(&self) -> (v: Variant) {
        Variant::Other
    }
}

impl Outcome for u64 {
    fn variant(&self) -> (v: Variant) {
        Variant::Other
    }
}

impl Outcome for u128 {
    fn variant(&self) -> (v: Variant) {
        Variant::Other
    }
}

impl Outcome for usize {
    fn variant(&self) -> (v: Variant) {
        Variant::Other
    }
}

impl Outcome for i8 {
    fn variant(&self) -> (v: Variant) {
        Variant::Other
    }
}

impl Outcome for i16 {
    fn variant(&self) -> (v: Variant) {
        Variant::Other
    }
}

impl Outcome for i32 {
    fn variant(&self) -> (v: Variant) {
        Variant::Other
    }
}

impl Outcome for i64 {
    fn variant(&self) -> (v: Variant) {
        Variant::Other
    }
}

impl Outcome for i128 {
    fn variant(&self) -> (v: Variant) {
        Variant::Other
    }
}

impl Outcome for isize {
    fn variant(&self) -> (v: Variant) {
        Variant::Other
    }
}

impl Outcome for String {
    fn variant(&self) -> (v: Variant) {
        Variant::Other
    }
}

/// Whether `policy` lets `output` into the cache.
pub open spec fn admits<V: Outcome>(policy: ResultPolicy, output: V) -> bool {
    match policy {
        ResultPolicy::All => true,
        ResultPolicy::OkOnly => output.variant_of() == Variant::Success,
        ResultPolicy::SomeOnly => output.variant_of() == Variant::Present,
    }
}

/// Whether `value` is a clone of an output that `policy` admits: what every
/// stored value is.
pub open spec fn passed<V: Outcome>(policy: ResultPolicy, value: V) -> bool {
    exists|output: V| #[trigger] cloned(output, value) && admits(policy, output)
}

/// Decides what to store of `output`: a clone of it where `policy` admits it,
/// nothing otherwise.
pub fn should_store<V: Outcome>(policy: ResultPolicy, output: &V) -> (kept: Option<V>)
    ensures
        match kept {
            Some(value) => admits(policy, *output) && cloned(*output, value),
            None => !admits(policy, *output),
        },
{
    let admitted = match policy {
        ResultPolicy::All => true,
        ResultPolicy::OkOnly => output.variant() == Variant::Success,
        ResultPolicy::SomeOnly => output.variant() == Variant::Present,
    };
    if admitted {
        Some(output.clone())
    } else {
        None
    }
}

} // verus!
