//! The order in which cells travel between a source and a destination.

use crate::errors::ConnectorAgentError;
use vstd::prelude::*;

verus! {

/// Streaming layouts that a source can emit and a destination can accept.
#[derive(Clone, Copy, Debug, PartialEq, Eq, Structural)]
pub enum DataOrder {
    RowMajor,
    ColumnMajor,
}

/// Whether `index` is the first position of `src` whose order also occurs in `dst`.
pub open spec fn first_common(src: Seq<DataOrder>, dst: Seq<DataOrder>, index: int) -> bool {
    &&& 0 <= index < src.len()
    &&& dst.contains(src[index])
    &&& forall|k: int| 0 <= k < index ==> !dst.contains(#[trigger] src[k])
}

/// Whether no order of `src` occurs in `dst`.
pub open spec fn no_common(src: Seq<DataOrder>, dst: Seq<DataOrder>) -> bool {
    forall|k: int| 0 <= k < src.len() ==> !dst.contains(#[trigger] src[k])
}

/// Tells whether `order` is one of `orders`.
pub fn is_supported(orders: &[DataOrder], order: DataOrder) -> (found: bool)
    ensures
        found == orders@.contains(order),
{
    let mut i: usize = 0;
    while i < orders.len()
        invariant
            i <= orders.len(),
            forall|k: int| 0 <= k < i ==> orders@[k] != order,
        decreases orders.len() - i,
    {
        if orders[i] == order {
            return true;
        }
        i += 1;
    }
    false
}

/// Copies a list of orders.
pub fn copy_orders(orders: &[DataOrder]) -> (copy: Vec<DataOrder>)
    ensures
        copy@ == orders@,
{
    let mut copy: Vec<DataOrder> = Vec::new();
    let mut i: usize = 0;
    while i < orders.len()
        invariant
            i <= orders.len(),
            copy@ == orders@.subrange(0, i as int),
        decreases orders.len() - i,
    {
        copy.push(orders[i]);
        assert(copy@ =~= orders@.subrange(0, i + 1));
        i += 1;
    }
    assert(orders@.subrange(0, orders@.len() as int) =~= orders@);
    copy
}

/// Negotiates the order of a transfer: the first order that the source prefers
/// and the destination also accepts. Both lists are in priority order.
pub fn coordinate(src: &[DataOrder], dst: &[DataOrder]) -> (r: Result<DataOrder, ConnectorAgentError>)
    ensures
        match r {
            Ok(order) => exists|i: int| first_common(src@, dst@, i) && src@[i] == order,
            Err(ConnectorAgentError::CannotResolveDataOrder(s, d)) => {
                &&& no_common(src@, dst@)
                &&& s@ == src@
                &&& d@ == dst@
            },
            Err(_) => false,
        },
{
    let mut i: usize = 0;
    while i < src.len()
        invariant
            i <= src.len(),
            forall|k: int| 0 <= k < i ==> !dst@.contains(#[trigger] src@[k]),
        decreases src.len() - i,
    {
        if is_supported(dst, src[i]) {
            assert(first_common(src@, dst@, i as int));
            return Ok(src[i]);
        }
        i += 1;
    }
    Err(ConnectorAgentError::CannotResolveDataOrder(copy_orders(src), copy_orders(dst)))
}

/// The negotiated order is unique: two first common positions coincide.
pub proof fn lemma_first_common_unique(src: Seq<DataOrder>, dst: Seq<DataOrder>, i: int, j: int)
    requires
        first_common(src, dst, i),
        first_common(src, dst, j),
    ensures
        i == j,
{
    if i < j {
        assert(!dst.contains(src[i]));
    } else if j < i {
        assert(!dst.contains(src[j]));
    }
}

} // verus!
