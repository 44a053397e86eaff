//! The catalog of types usable as stats. Each one can wrap itself into a
//! `StatData` and project itself back out of one, which is how the typed
//! read-back of the store checks a slot's kind.

use vstd::prelude::*;

use crate::value::{CustomStat, DurationValue, StatData, ValueView};

verus! {

/// A type usable as a stat value: it embeds into the value kernel and can be
/// recovered from it exactly when a value's kind matches.
pub trait StatKind: Sized {
    /// The view a value of this type stands for once wrapped.
    spec fn view_of(x: Self) -> ValueView;

    /// Validity of a value of this type (trivial for the integer kinds).
    spec fn wf_value(x: Self) -> bool;

    /// Wraps this value into a `StatData` of the matching kind.
    fn wrap(self) -> (r: StatData)
        requires
            Self::wf_value(self),
        ensures
            r.wf(),
            r@ == Self::view_of(self),
    ;

    /// Recovers a value of this type from a `StatData`: some reference to
    /// the inner value when the kind matches, nothing otherwise.
    fn project(data: &StatData) -> (r: Option<&Self>)
        requires
            data.wf(),
        ensures
            match r {
                Some(x) => data@ == Self::view_of(*x) && Self::wf_value(*x),
                None => forall|y: Self| data@ != Self::view_of(y),
            },
    ;
}

impl StatKind for u8 {
    open spec fn view_of(x: Self) -> ValueView {
        ValueView::U8(x)
    }

    open spec fn wf_value(x: Self) -> bool {
        true
    }

    fn wrap(self) -> (r: StatData) {
        StatData::U8(self)
    }

    fn project(data: &StatData) -> (r: Option<&Self>) {
        match data {
            StatData::U8(x) => Some(x),
            _ => None,
        }
    }
}

impl StatKind for u16 {
    open spec fn view_of(x: Self) -> ValueView {
        ValueView::U16(x)
    }

    open spec fn wf_value(x: Self) -> bool {
        true
    }

    fn wrap(self) -> (r: StatData) {
        StatData::U16(self)
    }

    fn project(data: &StatData) -> (r: Option<&Self>) {
        match data {
            StatData::U16(x) => Some(x),
            _ => None,
        }
    }
}

impl StatKind for u32 {
    open spec fn view_of(x: Self) -> ValueView {
        ValueView::U32(x)
    }

    open spec fn wf_value(x: Self) -> bool {
        true
    }

    fn wrap(self) -> (r: StatData) {
        StatData::U32(self)
    }

    fn project(data: &StatData) -> (r: Option<&Self>) {
        match data {
            StatData::U32(x) => Some(x),
            _ => None,
        }
    }
}

impl StatKind for u64 {
    open spec fn view_of(x: Self) -> ValueView {
        ValueView::U64(x)
    }

    open spec fn wf_value(x: Self) -> bool {
        true
    }

    fn wrap(self) -> (r: StatData) {
        StatData::U64(self)
    }

    fn project(data: &StatData) -> (r: Option<&Self>) {
        match data {
            StatData::U64(x) => Some(x),
            _ => None,
        }
    }
}

impl StatKind for u128 {
    open spec fn view_of(x: Self) -> ValueView {
        ValueView::U128(x)
    }

    open spec fn wf_value(x: Self) -> bool {
        true
    }

    fn wrap(self) -> (r: StatData) {
        StatData::U128(self)
    }

    fn project(data: &StatData) -> (r: Option<&Self>) {
        match data {
            StatData::U128(x) => Some(x),
            _ => None,
        }
    }
}

impl StatKind for i8 {
    open spec fn view_of(x: Self) -> ValueView {
        ValueView::I8(x)
    }

    open spec fn wf_value(x: Self) -> bool {
        true
    }

    fn wrap(self) -> (r: StatData) {
        StatData::I8(self)
    }

    fn project(data: &StatData) -> (r: Option<&Self>) {
        match data {
            StatData::I8(x) => Some(x),
            _ => None,
        }
    }
}

impl StatKind for i16 {
    open spec fn view_of(x: Self) -> ValueView {
        ValueView::I16(x)
    }

    open spec fn wf_value(x: Self) -> bool {
        true
    }

    fn wrap(self) -> (r: StatData) {
        StatData::I16(self)
    }

    fn project(data: &StatData) -> (r: Option<&Self>) {
        match data {
            StatData::I16(x) => Some(x),
            _ => None,
        }
    }
}

impl StatKind for i32 {
    open spec fn view_of(x: Self) -> ValueView {
        ValueView::I32(x)
    }

    open spec fn wf_value(x: Self) -> bool {
        true
    }

    fn wrap(self) -> (r: StatData) {
        StatData::I32(self)
    }

    fn project(data: &StatData) -> (r: Option<&Self>) {
        match data {
            StatData::I32(x) => Some(x),
            _ => None,
        }
    }
}

impl StatKind for i64 {
    open spec fn view_of(x: Self) -> ValueView {
        ValueView::I64(x)
    }

    open spec fn wf_value(x: Self) -> bool {
        true
    }

    fn wrap(self) -> (r: StatData) {
        StatData::I64(self)
    }

    fn project(data: &StatData) -> (r: Option<&Self>) {
        match data {
            StatData::I64(x) => Some(x),
            _ => None,
        }
    }
}

impl StatKind for i128 {
    open spec fn view_of(x: Self) -> ValueView {
        ValueView::I128(x)
    }

    open spec fn wf_value(x: Self) -> bool {
        true
    }

    fn wrap(self) -> (r: StatData) {
        StatData::I128(self)
    }

    fn project(data: &StatData) -> (r: Option<&Self>) {
        match data {
            StatData::I128(x) => Some(x),
            _ => None,
        }
    }
}

impl StatKind for DurationValue {
    open spec fn view_of(x: Self) -> ValueView {
        ValueView::Duration(x.as_nanos_spec())
    }

    open spec fn wf_value(x: Self) -> bool {
        x.wf()
    }

    fn wrap(self) -> (r: StatData) {
        StatData::Duration(self)
    }

    fn project(data: &StatData) -> (r: Option<&Self>) {
        match data {
            StatData::Duration(x) => Some(x),
            _ => None,
        }
    }
}

impl StatKind for CustomStat {
    open spec fn view_of(x: Self) -> ValueView {
        ValueView::Custom { tag: x.spec_tag(), entries: x.entries_map() }
    }

    open spec fn wf_value(x: Self) -> bool {
        x.wf()
    }

    fn wrap(self) -> (r: StatData) {
        StatData::Custom(self)
    }

    fn project(data: &StatData) -> (r: Option<&Self>) {
        match data {
            StatData::Custom(x) => Some(x),
            _ => None,
        }
    }
}

impl StatData {
    /// Wraps any cataloged value into a `StatData`.
    pub fn new<T: StatKind>(stat: T) -> (r: StatData)
        requires
            T::wf_value(stat),
        ensures
            r.wf(),
            r@ == T::view_of(stat),
    {
        stat.wrap()
    }
}

} // verus!
