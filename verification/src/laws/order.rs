//! Order: how texts and paths are compared.

use vstd::prelude::*;

use crate::order::TextOrder;

verus! {

/// In either order a text comes before each that it is the beginning of, and not behind it.
pub proof fn law_beginning_comes_first(order: TextOrder, a: Seq<char>, b: Seq<char>)
    ensures
        order.le(a, a + b),
        b.len() > 0 ==> !order.le(a + b, a),
    decreases a.len(),
{
    if a.len() > 0 {
        law_beginning_comes_first(order, a.drop_first(), b);
        assert((a + b).drop_first() =~= a.drop_first() + b);
    }
}

/// The first difference decides: by the code points, and among paths a separator comes before
/// every other character.
pub proof fn law_first_difference_decides(
    common: Seq<char>,
    x: char,
    a: Seq<char>,
    y: char,
    b: Seq<char>,
)
    requires
        x != y,
    ensures
        TextOrder::CodePoints.le(common + seq![x] + a, common + seq![y] + b) <==> x < y,
        TextOrder::PathComponents.le(common + seq![x] + a, common + seq![y] + b) <==> x == '/' || (y
            != '/' && x < y),
    decreases common.len(),
{
    let left = common + seq![x] + a;
    let right = common + seq![y] + b;
    if common.len() > 0 {
        law_first_difference_decides(common.drop_first(), x, a, y, b);
        assert(left[0] == common[0] && right[0] == common[0]);
        assert(left.drop_first() =~= common.drop_first() + seq![x] + a);
        assert(right.drop_first() =~= common.drop_first() + seq![y] + b);
    } else {
        assert(left[0] == x && right[0] == y);
    }
}

} // verus!
