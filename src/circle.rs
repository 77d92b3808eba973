//! The two discrete circles whose points are the neighbours of a pixel,
//! as `(dx, dy)` offsets in clockwise order from angle zero.

use vstd::prelude::*;

verus! {

/// The circle of radius three: sixteen points.
pub open spec fn circle3_table() -> Seq<(int, int)> {
    seq![
        (0, 3), (1, 3), (2, 2), (3, 1),
        (3, 0), (3, -1), (2, -2), (1, -3),
        (0, -3), (-1, -3), (-2, -2), (-3, -1),
        (-3, 0), (-3, 1), (-2, 2), (-1, 3),
    ]
}

/// The circle of radius four: twenty points.
pub open spec fn circle4_table() -> Seq<(int, int)> {
    seq![
        (0, 4), (1, 4), (2, 3), (3, 2),
        (4, 1), (4, 0), (4, -1), (3, -2),
        (2, -3), (1, -4), (0, -4), (-1, -4),
        (-2, -3), (-3, -2), (-4, -1), (-4, 0),
        (-4, 1), (-3, 2), (-2, 3), (-1, 4),
    ]
}

/// The offsets of an executable circle, as mathematical integers.
pub open spec fn offsets_of(c: Seq<(i16, i16)>) -> Seq<(int, int)> {
    c.map_values(|o: (i16, i16)| (o.0 as int, o.1 as int))
}

/// No offset of `circle` is zero, and none is farther than `radius` on either axis.
pub open spec fn offsets_within(circle: Seq<(int, int)>, radius: int) -> bool {
    forall|k: int|
        0 <= k < circle.len() ==> {
            let o = #[trigger] circle[k];
            &&& -radius <= o.0 <= radius
            &&& -radius <= o.1 <= radius
            &&& (o.0 != 0 || o.1 != 0)
        }
}

pub proof fn lemma_circle3_within()
    ensures
        circle3_table().len() == 16,
        offsets_within(circle3_table(), 3),
{
    let c = circle3_table();
    assert forall|k: int| 0 <= k < c.len() implies {
        let o = #[trigger] c[k];
        &&& -3 <= o.0 <= 3
        &&& -3 <= o.1 <= 3
        &&& (o.0 != 0 || o.1 != 0)
    } by {
        assert(k == 0 || k == 1 || k == 2 || k == 3 || k == 4 || k == 5 || k == 6 || k == 7
            || k == 8 || k == 9 || k == 10 || k == 11 || k == 12 || k == 13 || k == 14
            || k == 15);
    }
}

pub proof fn lemma_circle4_within()
    ensures
        circle4_table().len() == 20,
        offsets_within(circle4_table(), 4),
{
    let c = circle4_table();
    assert forall|k: int| 0 <= k < c.len() implies {
        let o = #[trigger] c[k];
        &&& -4 <= o.0 <= 4
        &&& -4 <= o.1 <= 4
        &&& (o.0 != 0 || o.1 != 0)
    } by {
        assert(k == 0 || k == 1 || k == 2 || k == 3 || k == 4 || k == 5 || k == 6 || k == 7
            || k == 8 || k == 9 || k == 10 || k == 11 || k == 12 || k == 13 || k == 14
            || k == 15 || k == 16 || k == 17 || k == 18 || k == 19);
    }
}

/// Builds the radius-three circle.
pub fn circle3() -> (c: Vec<(i16, i16)>)
    ensures
        offsets_of(c@) == circle3_table(),
{
    let c: Vec<(i16, i16)> = vec![
        (0, 3), (1, 3), (2, 2), (3, 1),
        (3, 0), (3, -1), (2, -2), (1, -3),
        (0, -3), (-1, -3), (-2, -2), (-3, -1),
        (-3, 0), (-3, 1), (-2, 2), (-1, 3),
    ];
    assert(offsets_of(c@) =~= circle3_table());
    c
}

/// Builds the radius-four circle.
pub fn circle4() -> (c: Vec<(i16, i16)>)
    ensures
        offsets_of(c@) == circle4_table(),
{
    let c: Vec<(i16, i16)> = vec![
        (0, 4), (1, 4), (2, 3), (3, 2),
        (4, 1), (4, 0), (4, -1), (3, -2),
        (2, -3), (1, -4), (0, -4), (-1, -4),
        (-2, -3), (-3, -2), (-4, -1), (-4, 0),
        (-4, 1), (-3, 2), (-2, 3), (-1, 4),
    ];
    assert(offsets_of(c@) =~= circle4_table());
    c
}

} // verus!
