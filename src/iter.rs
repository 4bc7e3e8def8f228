//! Traversal of an element forest in level order: roots first, then their
//! children, then their grandchildren, each level left to right.
use vstd::prelude::*;
use crate::element::{borrowed_models, owned_models, Element, ElementBorrowed, ElementModel};
use crate::hocr::{HOCRBorrowed, HOCR};

verus! {

/// The number of elements in the tree rooted at `e`.
pub open spec fn tree_size(e: ElementModel) -> nat
    decreases e,
{
    1 + forest_size(e.children)
}

/// The number of elements in the forest `q`.
pub open spec fn forest_size(q: Seq<ElementModel>) -> nat
    decreases q,
{
    if q.len() == 0 {
        0
    } else {
        tree_size(q[0]) + forest_size(q.drop_first())
    }
}

/// The elements of the forest `q` in level order: a queue seeded with the
/// roots, where each element taken from the front puts its children at the back.
pub open spec fn level_order(q: Seq<ElementModel>) -> Seq<ElementModel>
    decreases forest_size(q),
    via level_order_decreases
{
    if q.len() == 0 {
        seq![]
    } else {
        seq![q[0]] + level_order(q.drop_first() + q[0].children)
    }
}

#[via_fn]
proof fn level_order_decreases(q: Seq<ElementModel>) {
    if q.len() > 0 {
        lemma_forest_size_unfold(q);
    }
}

/// A forest with a first tree is that tree's root, its children, and the
/// rest of the forest.
pub proof fn lemma_forest_size_unfold(q: Seq<ElementModel>)
    requires
        q.len() > 0,
    ensures
        forest_size(q) == 1 + forest_size(q.drop_first() + q[0].children),
{
    assert(forest_size(q) == tree_size(q[0]) + forest_size(q.drop_first()));
    assert(tree_size(q[0]) == 1 + forest_size(q[0].children));
    lemma_forest_size_concat(q.drop_first(), q[0].children);
}

/// The size of a concatenation of forests is the sum of their sizes.
pub proof fn lemma_forest_size_concat(a: Seq<ElementModel>, b: Seq<ElementModel>)
    ensures
        forest_size(a + b) == forest_size(a) + forest_size(b),
    decreases a.len(),
{
    if a.len() == 0 {
        assert(a + b =~= b);
    } else {
        assert((a + b).drop_first() =~= a.drop_first() + b);
        assert((a + b)[0] == a[0]);
        lemma_forest_size_concat(a.drop_first(), b);
    }
}

/// Level order lists each element of the forest once: as many as the forest
/// holds.
pub proof fn lemma_level_order_len(q: Seq<ElementModel>)
    ensures
        level_order(q).len() == forest_size(q),
    decreases forest_size(q),
{
    if q.len() > 0 {
        lemma_forest_size_unfold(q);
        lemma_level_order_len(q.drop_first() + q[0].children);
    }
}

/// What a list of element references holds.
pub open spec fn ref_models(v: Seq<&Element>) -> Seq<ElementModel> {
    v.map_values(|e: &Element| e.model())
}

/// What a list of borrowed element references holds.
pub open spec fn borrowed_ref_models<'a>(v: Seq<&'a ElementBorrowed<'a>>) -> Seq<ElementModel> {
    v.map_values(|e: &'a ElementBorrowed<'a>| e.model())
}

proof fn lemma_owned_models_map(v: Seq<Element>)
    ensures
        owned_models(v) == v.map_values(|e: Element| e.model()),
    decreases v.len(),
{
    if v.len() > 0 {
        lemma_owned_models_map(v.drop_first());
        assert(owned_models(v) =~= v.map_values(|e: Element| e.model()));
    } else {
        assert(owned_models(v) =~= v.map_values(|e: Element| e.model()));
    }
}

proof fn lemma_borrowed_models_map<'a>(v: Seq<ElementBorrowed<'a>>)
    ensures
        borrowed_models(v) == v.map_values(|e: ElementBorrowed<'a>| e.model()),
    decreases v.len(),
{
    if v.len() > 0 {
        lemma_borrowed_models_map(v.drop_first());
        assert(borrowed_models(v) =~= v.map_values(|e: ElementBorrowed<'a>| e.model()));
    } else {
        assert(borrowed_models(v) =~= v.map_values(|e: ElementBorrowed<'a>| e.model()));
    }
}

/// The elements of a forest of owned elements, handed out one at a time in
/// level order.
pub struct ElementsIterator<'a> {
    elements: Vec<&'a Element>,
    position: usize,
}

impl<'a> ElementsIterator<'a> {
    /// What is still to come, in order.
    pub closed spec fn remaining(&self) -> Seq<ElementModel> {
        ref_models(self.elements@).skip(self.position as int)
    }

    /// The position of the next element lies within the list.
    pub closed spec fn wf(&self) -> bool {
        self.position <= self.elements@.len()
    }

    /// Lists `roots` and all their descendants in level order.
    fn level_order_of(roots: &'a Vec<Element>) -> (r: ElementsIterator<'a>)
        ensures
            r.wf(),
            r.remaining() == level_order(owned_models(roots@)),
    {
        let mut elements: Vec<&'a Element> = Vec::new();
        let mut i: usize = 0;
        while i < roots.len()
            invariant
                i <= roots@.len(),
                ref_models(elements@) == roots@.map_values(|e: Element| e.model()).take(i as int),
            decreases roots.len() - i,
        {
            let ghost before = elements@;
            elements.push(&roots[i]);
            assert(ref_models(elements@) =~= ref_models(before).push(roots@[i as int].model()));
            assert(roots@.map_values(|e: Element| e.model()).take(i + 1) =~= roots@.map_values(
                |e: Element| e.model(),
            ).take(i as int).push(roots@[i as int].model()));
            i += 1;
            assert(ref_models(elements@) =~= roots@.map_values(|e: Element| e.model()).take(
                i as int,
            ));
        }
        proof {
            lemma_owned_models_map(roots@);
            assert(roots@.map_values(|e: Element| e.model()).take(i as int) =~= owned_models(
                roots@,
            ));
            assert(ref_models(elements@).take(0) + level_order(ref_models(elements@).skip(0))
                =~= level_order(owned_models(roots@)));
        }
        let ghost all = level_order(owned_models(roots@));
        let mut index: usize = 0;
        while index < elements.len()
            invariant
                index <= elements@.len(),
                ref_models(elements@).take(index as int) + level_order(
                    ref_models(elements@).skip(index as int),
                ) == all,
            decreases forest_size(ref_models(elements@).skip(index as int)),
        {
            let e = elements[index];
            let ghost q = ref_models(elements@).skip(index as int);
            let ghost start = elements@;
            assert(q[0] == e.model());
            proof {
                lemma_owned_models_map(e.children@);
            }
            let mut j: usize = 0;
            while j < e.children.len()
                invariant
                    j <= e.children@.len(),
                    index < start.len(),
                    elements@ == start + elements@.skip(start.len() as int),
                    ref_models(elements@) == ref_models(start) + e.children@.map_values(
                        |c: Element| c.model(),
                    ).take(j as int),
                decreases e.children.len() - j,
            {
                let ghost mid = elements@;
                elements.push(&e.children[j]);
                assert(ref_models(elements@) =~= ref_models(mid).push(e.children@[j as int].model()));
                assert(e.children@.map_values(|c: Element| c.model()).take(j + 1)
                    =~= e.children@.map_values(|c: Element| c.model()).take(j as int).push(
                    e.children@[j as int].model(),
                ));
                j += 1;
                assert(elements@ =~= start + elements@.skip(start.len() as int));
                assert(ref_models(elements@) =~= ref_models(start) + e.children@.map_values(
                    |c: Element| c.model(),
                ).take(j as int));
            }
            proof {
                assert(e.children@.map_values(|c: Element| c.model()).take(j as int)
                    =~= e.model().children);
                assert(ref_models(elements@).skip(index + 1) =~= q.drop_first()
                    + q[0].children);
                assert(ref_models(elements@).take(index + 1) =~= ref_models(start).take(
                    index as int,
                ).push(q[0]));
                assert(ref_models(start).take(index as int) + level_order(q) =~= ref_models(
                    elements@,
                ).take(index + 1) + level_order(ref_models(elements@).skip(index + 1)));
                lemma_forest_size_unfold(q);
            }
            index += 1;
        }
        assert(ref_models(elements@).take(index as int) =~= ref_models(elements@));
        assert(ref_models(elements@).skip(index as int) =~= Seq::<ElementModel>::empty());
        ElementsIterator { elements, position: 0 }
    }

    /// The next element, if any is left.
    pub fn next(&mut self) -> (r: Option<&'a Element>)
        requires
            old(self).wf(),
        ensures
            final(self).wf(),
            old(self).remaining().len() == 0 ==> r is None && final(self).remaining()
                == old(self).remaining(),
            old(self).remaining().len() > 0 ==> r is Some && r->0.model() == old(
                self,
            ).remaining()[0] && final(self).remaining() == old(self).remaining().drop_first(),
    {
        if self.position < self.elements.len() {
            let e = self.elements[self.position];
            self.position = self.position + 1;
            assert(self.remaining() =~= old(self).remaining().drop_first());
            Some(e)
        } else {
            None
        }
    }
}

impl HOCR {
    /// All elements of the document, in level order.
    pub fn iter(&self) -> (r: ElementsIterator<'_>)
        ensures
            r.wf(),
            r.remaining() == level_order(self.model().elements),
    {
        ElementsIterator::level_order_of(&self.elements)
    }
}

impl Element {
    /// All descendants of this element (not the element itself), in level
    /// order.
    pub fn descendants(&self) -> (r: ElementsIterator<'_>)
        ensures
            r.wf(),
            r.remaining() == level_order(self.model().children),
    {
        ElementsIterator::level_order_of(&self.children)
    }
}

/// The elements of a forest of borrowed elements, handed out one at a time in
/// level order.
pub struct ElementsBorrowedIterator<'a> {
    elements: Vec<&'a ElementBorrowed<'a>>,
    position: usize,
}

impl<'a> ElementsBorrowedIterator<'a> {
    /// What is still to come, in order.
    pub closed spec fn remaining(&self) -> Seq<ElementModel> {
        borrowed_ref_models(self.elements@).skip(self.position as int)
    }

    /// The position of the next element lies within the list.
    pub closed spec fn wf(&self) -> bool {
        self.position <= self.elements@.len()
    }

    /// Lists `roots` and all their descendants in level order.
    fn level_order_of(roots: &'a Vec<ElementBorrowed<'a>>) -> (r: ElementsBorrowedIterator<'a>)
        ensures
            r.wf(),
            r.remaining() == level_order(borrowed_models(roots@)),
    {
        let mut elements: Vec<&'a ElementBorrowed<'a>> = Vec::new();
        let mut i: usize = 0;
        while i < roots.len()
            invariant
                i <= roots@.len(),
                borrowed_ref_models(elements@) == roots@.map_values(|e: ElementBorrowed<'a>| e.model()).take(i as int),
            decreases roots.len() - i,
        {
            let ghost before = elements@;
            elements.push(&roots[i]);
            assert(borrowed_ref_models(elements@) =~= borrowed_ref_models(before).push(roots@[i as int].model()));
            assert(roots@.map_values(|e: ElementBorrowed<'a>| e.model()).take(i + 1) =~= roots@.map_values(
                |e: ElementBorrowed<'a>| e.model(),
            ).take(i as int).push(roots@[i as int].model()));
            i += 1;
            assert(borrowed_ref_models(elements@) =~= roots@.map_values(|e: ElementBorrowed<'a>| e.model()).take(
                i as int,
            ));
        }
        proof {
            lemma_borrowed_models_map(roots@);
            assert(roots@.map_values(|e: ElementBorrowed<'a>| e.model()).take(i as int) =~= borrowed_models(
                roots@,
            ));
            assert(borrowed_ref_models(elements@).take(0) + level_order(borrowed_ref_models(elements@).skip(0))
                =~= level_order(borrowed_models(roots@)));
        }
        let ghost all = level_order(borrowed_models(roots@));
        let mut index: usize = 0;
        while index < elements.len()
            invariant
                index <= elements@.len(),
                borrowed_ref_models(elements@).take(index as int) + level_order(
                    borrowed_ref_models(elements@).skip(index as int),
                ) == all,
            decreases forest_size(borrowed_ref_models(elements@).skip(index as int)),
        {
            let e = elements[index];
            let ghost q = borrowed_ref_models(elements@).skip(index as int);
            let ghost start = elements@;
            assert(q[0] == e.model());
            proof {
                lemma_borrowed_models_map(e.children@);
            }
            let mut j: usize = 0;
            while j < e.children.len()
                invariant
                    j <= e.children@.len(),
                    index < start.len(),
                    elements@ == start + elements@.skip(start.len() as int),
                    borrowed_ref_models(elements@) == borrowed_ref_models(start) + e.children@.map_values(
                        |c: ElementBorrowed<'a>| c.model(),
                    ).take(j as int),
                decreases e.children.len() - j,
            {
                let ghost mid = elements@;
                elements.push(&e.children[j]);
                assert(borrowed_ref_models(elements@) =~= borrowed_ref_models(mid).push(e.children@[j as int].model()));
                assert(e.children@.map_values(|c: ElementBorrowed<'a>| c.model()).take(j + 1)
                    =~= e.children@.map_values(|c: ElementBorrowed<'a>| c.model()).take(j as int).push(
                    e.children@[j as int].model(),
                ));
                j += 1;
                assert(elements@ =~= start + elements@.skip(start.len() as int));
                assert(borrowed_ref_models(elements@) =~= borrowed_ref_models(start) + e.children@.map_values(
                    |c: ElementBorrowed<'a>| c.model(),
                ).take(j as int));
            }
            proof {
                assert(e.children@.map_values(|c: ElementBorrowed<'a>| c.model()).take(j as int)
                    =~= e.model().children);
                assert(borrowed_ref_models(elements@).skip(index + 1) =~= q.drop_first()
                    + q[0].children);
                assert(borrowed_ref_models(elements@).take(index + 1) =~= borrowed_ref_models(start).take(
                    index as int,
                ).push(q[0]));
                assert(borrowed_ref_models(start).take(index as int) + level_order(q) =~= borrowed_ref_models(
                    elements@,
                ).take(index + 1) + level_order(borrowed_ref_models(elements@).skip(index + 1)));
                lemma_forest_size_unfold(q);
            }
            index += 1;
        }
        assert(borrowed_ref_models(elements@).take(index as int) =~= borrowed_ref_models(elements@));
        assert(borrowed_ref_models(elements@).skip(index as int) =~= Seq::<ElementModel>::empty());
        ElementsBorrowedIterator { elements, position: 0 }
    }

    /// The next element, if any is left.
    pub fn next(&mut self) -> (r: Option<&'a ElementBorrowed<'a>>)
        requires
            old(self).wf(),
        ensures
            final(self).wf(),
            old(self).remaining().len() == 0 ==> r is None && final(self).remaining()
                == old(self).remaining(),
            old(self).remaining().len() > 0 ==> r is Some && r->0.model() == old(
                self,
            ).remaining()[0] && final(self).remaining() == old(self).remaining().drop_first(),
    {
        if self.position < self.elements.len() {
            let e = self.elements[self.position];
            self.position = self.position + 1;
            assert(self.remaining() =~= old(self).remaining().drop_first());
            Some(e)
        } else {
            None
        }
    }
}

impl<'a> HOCRBorrowed<'a> {
    /// All elements of the document, in level order.
    pub fn iter(&'a self) -> (r: ElementsBorrowedIterator<'a>)
        ensures
            r.wf(),
            r.remaining() == level_order(self.model().elements),
    {
        ElementsBorrowedIterator::level_order_of(&self.elements)
    }
}

impl<'a> ElementBorrowed<'a> {
    /// All descendants of this element (not the element itself), in level
    /// order.
    pub fn descendants(&'a self) -> (r: ElementsBorrowedIterator<'a>)
        ensures
            r.wf(),
            r.remaining() == level_order(self.model().children),
    {
        ElementsBorrowedIterator::level_order_of(&self.children)
    }
}

} // verus!
