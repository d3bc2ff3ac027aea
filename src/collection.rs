use vstd::prelude::*;

verus! {

/// An ordered collection of bodies. The order is the order in which bodies were
/// added; a body's position is how an edit addresses it.
#[derive(Clone)]
pub struct SoftBodyCollection<B> {
    pub softbodies: Vec<B>,
}

impl<B> SoftBodyCollection<B> {
    /// An empty collection.
    pub fn new() -> (r: Self)
        ensures
            r.softbodies@ == Seq::<B>::empty(),
    {
        SoftBodyCollection { softbodies: Vec::new() }
    }

    /// Appends `body` after every body already held.
    pub fn add(&mut self, body: B)
        ensures
            final(self).softbodies@ == old(self).softbodies@.push(body),
    {
        self.softbodies.push(body);
    }

    pub fn len(&self) -> (r: usize)
        ensures
            r == self.softbodies@.len(),
    {
        self.softbodies.len()
    }

    /// Steps every body once, in collection order: afterwards the body at each
    /// position is what `step` made of the body that stood there before, and no
    /// body is added, dropped or moved.
    pub fn update<F: Fn(B) -> B>(&mut self, step: F)
        requires
            forall|b: B| #[trigger] step.requires((b,)),
        ensures
            final(self).softbodies@.len() == old(self).softbodies@.len(),
            forall|i: int| 0 <= i < old(self).softbodies@.len()
                ==> step.ensures((old(self).softbodies@[i],), #[trigger] final(self).softbodies@[i]),
    {
        let n = self.softbodies.len();
        let mut i: usize = 0;
        while i < n
            invariant
                i <= n,
                n == old(self).softbodies@.len(),
                self.softbodies@.len() == n,
                forall|b: B| #[trigger] step.requires((b,)),
                forall|k: int| 0 <= k < i
                    ==> step.ensures((old(self).softbodies@[k],), #[trigger] self.softbodies@[k]),
                forall|k: int| i <= k < n ==> #[trigger] self.softbodies@[k] == old(self).softbodies@[k],
            decreases n - i,
        {
            let body = self.softbodies.remove(i);
            let stepped = step(body);
            self.softbodies.insert(i, stepped);
            i = i + 1;
        }
    }

    /// Replaces the body at `index` by what `edit` makes of it and reports
    /// `true`; where no body stands at `index`, changes nothing and reports
    /// `false`.
    pub fn edit<F: Fn(B) -> B>(&mut self, index: usize, edit: F) -> (r: bool)
        requires
            forall|b: B| #[trigger] edit.requires((b,)),
        ensures
            r == (index < old(self).softbodies@.len()),
            final(self).softbodies@.len() == old(self).softbodies@.len(),
            r ==> edit.ensures((old(self).softbodies@[index as int],), final(self).softbodies@[index as int]),
            forall|k: int| 0 <= k < old(self).softbodies@.len() && k != index
                ==> #[trigger] final(self).softbodies@[k] == old(self).softbodies@[k],
    {
        if index >= self.softbodies.len() {
            return false;
        }
        let body = self.softbodies.remove(index);
        let edited = edit(body);
        self.softbodies.insert(index, edited);
        true
    }
}

} // verus!
