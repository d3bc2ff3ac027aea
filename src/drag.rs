use vstd::prelude::*;

verus! {

/// What the consumer's pointer holds: whether the button is down, and which
/// point of which body it grabbed when it went down.
#[derive(Clone, Copy, Debug, PartialEq, Eq, Structural)]
pub struct DragState {
    pub mouse_down: bool,
    pub softbody_index: Option<usize>,
    pub held_point_index: Option<usize>,
}

impl DragState {
    /// Button up, nothing held.
    pub fn new() -> (r: Self)
        ensures
            !r.mouse_down,
            r.softbody_index is None,
            r.held_point_index is None,
    {
        DragState { mouse_down: false, softbody_index: None, held_point_index: None }
    }

    /// The button goes down over `hit`, the `(body, point)` found under the
    /// pointer, if any; with nothing under it, nothing is held.
    pub fn press(&mut self, hit: Option<(usize, usize)>)
        ensures
            final(self).mouse_down,
            final(self).softbody_index == (match hit { Some(h) => Some(h.0), None => None::<usize> }),
            final(self).held_point_index == (match hit { Some(h) => Some(h.1), None => None::<usize> }),
    {
        self.mouse_down = true;
        match hit {
            Some((b, p)) => {
                self.softbody_index = Some(b);
                self.held_point_index = Some(p);
            },
            None => {
                self.softbody_index = None;
                self.held_point_index = None;
            },
        }
    }

    /// The button goes up: whatever was held is let go.
    pub fn release(&mut self)
        ensures
            !final(self).mouse_down,
            final(self).softbody_index is None,
            final(self).held_point_index is None,
    {
        self.mouse_down = false;
        self.softbody_index = None;
        self.held_point_index = None;
    }

    /// The `(body, point)` being dragged: present only while the button is down
    /// and a point is held.
    pub fn target(&self) -> (r: Option<(usize, usize)>)
        ensures
            r == (if self.mouse_down && self.softbody_index is Some && self.held_point_index is Some {
                Some((self.softbody_index->Some_0, self.held_point_index->Some_0))
            } else {
                None
            }),
    {
        if self.mouse_down {
            match (self.softbody_index, self.held_point_index) {
                (Some(b), Some(p)) => Some((b, p)),
                _ => None,
            }
        } else {
            None
        }
    }
}

/// The pause flag after a click: a click on the pause control flips it, any
/// other click keeps it.
pub fn toggle_on_click(hit: bool, paused: bool) -> (r: bool)
    ensures
        r == (if hit { !paused } else { paused }),
{
    if hit {
        !paused
    } else {
        paused
    }
}

} // verus!
