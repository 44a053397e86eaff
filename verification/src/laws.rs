//! The algebraic laws of the modification primitives, stated over the
//! store's mathematical view and proved once and for all.

use vstd::prelude::*;

use crate::value::{
    add_views, duration_max_nanos, kind_of, merge_add_maps, sub_views, view_wf, zero_of,
    KindView, ValueView,
};
use crate::{apply_add, apply_remove, apply_reset, apply_set, apply_sub};

verus! {

/// The zero of a kind is that kind.
pub proof fn lemma_zero_kind(k: KindView)
    ensures
        kind_of(zero_of(k)) == k,
{
}

/// Adding a kind's zero onto itself changes nothing.
pub proof fn lemma_add_zero_value(v: ValueView)
    requires
        view_wf(v),
    ensures
        add_views(v, zero_of(kind_of(v))) == v,
{
    if let ValueView::Custom { tag, entries } = v {
        assert(merge_add_maps(entries, Map::empty()) =~= entries);
    }
}

/// Zero identity: once a slot exists, adding its kind's zero leaves the
/// store unchanged.
pub proof fn lemma_add_zero_identity(m: Map<Seq<char>, ValueView>, id: Seq<char>)
    requires
        m.contains_key(id),
        view_wf(m[id]),
    ensures
        apply_add(m, id, zero_of(kind_of(m[id]))) == m,
{
    lemma_add_zero_value(m[id]);
    assert(apply_add(m, id, zero_of(kind_of(m[id]))) =~= m);
}

/// Whether `a + b` stays inside its kind's range, so that neither the
/// addition nor the subtraction back can saturate. It never holds across
/// kinds, nor for table stats, whose subtraction keeps the zero-valued
/// entries that the addition created.
pub open spec fn sum_in_range(a: ValueView, b: ValueView) -> bool {
    match (a, b) {
        (ValueView::U8(x), ValueView::U8(y)) => x + y <= u8::MAX,
        (ValueView::U16(x), ValueView::U16(y)) => x + y <= u16::MAX,
        (ValueView::U32(x), ValueView::U32(y)) => x + y <= u32::MAX,
        (ValueView::U64(x), ValueView::U64(y)) => x + y <= u64::MAX,
        (ValueView::U128(x), ValueView::U128(y)) => x + y <= u128::MAX,
        (ValueView::I8(x), ValueView::I8(y)) => i8::MIN <= x + y <= i8::MAX,
        (ValueView::I16(x), ValueView::I16(y)) => i16::MIN <= x + y <= i16::MAX,
        (ValueView::I32(x), ValueView::I32(y)) => i32::MIN <= x + y <= i32::MAX,
        (ValueView::I64(x), ValueView::I64(y)) => i64::MIN <= x + y <= i64::MAX,
        (ValueView::I128(x), ValueView::I128(y)) => i128::MIN <= x + y <= i128::MAX,
        (ValueView::Duration(x), ValueView::Duration(y)) => x + y <= duration_max_nanos(),
        _ => false,
    }
}

/// Add–sub cancellation: within the non-saturating range, setting `a`,
/// adding `b` and subtracting `b` again restores the store that held `a`.
pub proof fn lemma_add_sub_cancel(
    m: Map<Seq<char>, ValueView>,
    id: Seq<char>,
    a: ValueView,
    b: ValueView,
)
    requires
        view_wf(a),
        view_wf(b),
        sum_in_range(a, b),
    ensures
        apply_sub(apply_add(apply_set(m, id, a), id, b), id, b) == apply_set(m, id, a),
{
    assert(sub_views(add_views(a, b), b) == a);
    assert(apply_sub(apply_add(apply_set(m, id, a), id, b), id, b) =~= apply_set(m, id, a));
}

pub open spec fn is_unsigned_max(v: ValueView) -> bool {
    match v {
        ValueView::U8(x) => x == u8::MAX,
        ValueView::U16(x) => x == u16::MAX,
        ValueView::U32(x) => x == u32::MAX,
        ValueView::U64(x) => x == u64::MAX,
        ValueView::U128(x) => x == u128::MAX,
        _ => false,
    }
}

pub open spec fn is_unsigned_zero(v: ValueView) -> bool {
    match v {
        ValueView::U8(x) => x == 0,
        ValueView::U16(x) => x == 0,
        ValueView::U32(x) => x == 0,
        ValueView::U64(x) => x == 0,
        ValueView::U128(x) => x == 0,
        _ => false,
    }
}

/// Saturation above: a slot set to an unsigned kind's largest value absorbs
/// any further addition of that kind.
pub proof fn lemma_saturation_high(
    m: Map<Seq<char>, ValueView>,
    id: Seq<char>,
    a: ValueView,
    b: ValueView,
)
    requires
        is_unsigned_max(a),
        kind_of(a) == kind_of(b),
    ensures
        apply_add(apply_set(m, id, a), id, b) == apply_set(m, id, a),
{
    assert(add_views(a, b) == a);
    assert(apply_add(apply_set(m, id, a), id, b) =~= apply_set(m, id, a));
}

/// Saturation below: a slot set to an unsigned kind's zero absorbs any
/// further subtraction of that kind.
pub proof fn lemma_saturation_low(
    m: Map<Seq<char>, ValueView>,
    id: Seq<char>,
    a: ValueView,
    b: ValueView,
)
    requires
        is_unsigned_zero(a),
        kind_of(a) == kind_of(b),
    ensures
        apply_sub(apply_set(m, id, a), id, b) == apply_set(m, id, a),
{
    assert(sub_views(a, b) == a);
    assert(apply_sub(apply_set(m, id, a), id, b) =~= apply_set(m, id, a));
}

/// Kind lock: once a slot is bound to a kind, adding or subtracting a value
/// of any other kind leaves the whole store unchanged.
pub proof fn lemma_kind_lock(m: Map<Seq<char>, ValueView>, id: Seq<char>, v: ValueView)
    requires
        m.contains_key(id),
        kind_of(m[id]) != kind_of(v),
    ensures
        apply_add(m, id, v) == m,
        apply_sub(m, id, v) == m,
{
    assert(add_views(m[id], v) == m[id]);
    assert(sub_views(m[id], v) == m[id]);
    assert(apply_add(m, id, v) =~= m);
    assert(apply_sub(m, id, v) =~= m);
}

/// Set rebinds: setting a slot makes it hold exactly the new value — and so
/// its kind — and touches no other slot.
pub proof fn lemma_set_rebinds(m: Map<Seq<char>, ValueView>, id: Seq<char>, v: ValueView)
    ensures
        apply_set(m, id, v).contains_key(id),
        apply_set(m, id, v)[id] == v,
        kind_of(apply_set(m, id, v)[id]) == kind_of(v),
        forall|k: Seq<char>|
            k != id ==> (#[trigger] apply_set(m, id, v).contains_key(k) == m.contains_key(k)
                && (m.contains_key(k) ==> apply_set(m, id, v)[k] == m[k])),
{
}

/// Remove resets the kind binding: after a remove, an add of any kind starts
/// the slot afresh at that kind's zero, so the slot holds exactly the added
/// value.
pub proof fn lemma_remove_rebinds(m: Map<Seq<char>, ValueView>, id: Seq<char>, b: ValueView)
    requires
        view_wf(b),
    ensures
        apply_add(apply_remove(m, id), id, b).contains_key(id),
        apply_add(apply_remove(m, id), id, b)[id] == b,
{
    let m1 = apply_remove(m, id);
    assert(!m1.contains_key(id));
    if let ValueView::Custom { tag, entries } = b {
        assert(merge_add_maps(Map::empty(), entries) =~= entries);
    }
    assert(add_views(zero_of(kind_of(b)), b) == b);
}

/// Reset idempotence: resetting twice equals resetting once, and a reset on
/// an absent slot does nothing.
pub proof fn lemma_reset_idempotent(m: Map<Seq<char>, ValueView>, id: Seq<char>)
    ensures
        apply_reset(apply_reset(m, id), id) == apply_reset(m, id),
        !m.contains_key(id) ==> apply_reset(m, id) == m,
{
    if m.contains_key(id) {
        let k = kind_of(m[id]);
        lemma_zero_kind(k);
        assert(apply_reset(apply_reset(m, id), id) =~= apply_reset(m, id));
    }
}

} // verus!
