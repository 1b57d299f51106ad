use vstd::prelude::*;

verus! {

/// The shape of a bounding volume hierarchy over the objects `start..end` of
/// a list: which objects each node holds, and where a node splits its range.
///
/// Building the hierarchy sorts each split range along the longest axis of
/// its bounding box before splitting it; the sort permutes objects inside
/// the range only, so the shape depends on the number of objects alone.
#[derive(Debug, PartialEq, Eq)]
pub enum BvhLayout {
    /// A node over the single object `index`: both children are that object.
    Leaf { index: usize },
    /// A node over the two neighbouring objects `left` and `left + 1`.
    Pair { left: usize },
    /// A node over `start..end`, three or more objects, split at
    /// `mid = start + (end - start) / 2` into two sub-hierarchies.
    Split { start: usize, mid: usize, end: usize, left: Box<BvhLayout>, right: Box<BvhLayout> },
}

/// `start, start + 1, ..., end - 1`.
pub open spec fn index_range(start: int, end: int) -> Seq<int>
    decreases end - start,
{
    if end <= start {
        Seq::empty()
    } else {
        index_range(start, end - 1).push(end - 1)
    }
}

impl BvhLayout {
    /// The node is the hierarchy that construction gives for `start..end`.
    pub open spec fn covers(&self, start: int, end: int) -> bool
        decreases self,
    {
        match self {
            BvhLayout::Leaf { index } => end == start + 1 && *index == start,
            BvhLayout::Pair { left } => end == start + 2 && *left == start,
            BvhLayout::Split { start: s, mid, end: e, left, right } => {
                &&& *s == start
                &&& *e == end
                &&& end - start >= 3
                &&& *mid == start + (end - start) / 2
                &&& left.covers(start, *mid as int)
                &&& right.covers(*mid as int, end)
            },
        }
    }

    /// The objects at the leaves, left to right.
    pub open spec fn leaves(&self) -> Seq<int>
        decreases self,
    {
        match self {
            BvhLayout::Leaf { index } => seq![*index as int],
            BvhLayout::Pair { left } => seq![*left as int, *left + 1],
            BvhLayout::Split { left, right, .. } => left.leaves() + right.leaves(),
        }
    }

    /// The hierarchy over the objects `start..end`.
    pub fn build(start: usize, end: usize) -> (r: BvhLayout)
        requires
            start < end,
        ensures
            r.covers(start as int, end as int),
        decreases end - start,
    {
        let span = end - start;
        if span == 1 {
            BvhLayout::Leaf { index: start }
        } else if span == 2 {
            BvhLayout::Pair { left: start }
        } else {
            let mid = start + span / 2;
            let left = Self::build(start, mid);
            let right = Self::build(mid, end);
            BvhLayout::Split { start, mid, end, left: Box::new(left), right: Box::new(right) }
        }
    }

    /// The hierarchy over a whole list of `len` objects.
    pub fn for_list(len: usize) -> (r: Option<BvhLayout>)
        ensures
            r.is_some() <==> len > 0,
            r matches Some(layout) ==> layout.covers(0, len as int),
    {
        if len == 0 {
            None
        } else {
            Some(Self::build(0, len))
        }
    }
}

proof fn lemma_index_range_append(a: int, b: int, c: int)
    requires
        a <= b <= c,
    ensures
        index_range(a, b) + index_range(b, c) == index_range(a, c),
    decreases c - b,
{
    if b == c {
        assert(index_range(a, b) + index_range(b, c) =~= index_range(a, c));
    } else {
        lemma_index_range_append(a, b, c - 1);
        assert(index_range(a, b) + index_range(b, c) =~= (index_range(a, b) + index_range(b, c
            - 1)).push(c - 1));
    }
}

/// A hierarchy drops no object and repeats none: its leaves, left to right,
/// are exactly the objects `start..end` of the list, in list order.
pub proof fn lemma_leaves_are_the_range(layout: &BvhLayout, start: int, end: int)
    requires
        layout.covers(start, end),
    ensures
        layout.leaves() == index_range(start, end),
    decreases layout,
{
    match layout {
        BvhLayout::Leaf { index } => {
            assert(index_range(start, end) =~= seq![start]) by {
                reveal_with_fuel(index_range, 2);
            }
        },
        BvhLayout::Pair { left } => {
            assert(index_range(start, end) =~= seq![start, start + 1]) by {
                reveal_with_fuel(index_range, 3);
            }
        },
        BvhLayout::Split { start: s, mid, end: e, left, right } => {
            lemma_leaves_are_the_range(left, start, *mid as int);
            lemma_leaves_are_the_range(right, *mid as int, end);
            lemma_index_range_append(start, *mid as int, end);
        },
    }
}

} // verus!
