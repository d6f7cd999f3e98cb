//! Picking a region by dragging.

use vstd::prelude::*;

verus! {

/// Where a drag began and where it is. A point may be of any kind.
pub struct Drag<P> {
    pub start: Option<P>,
    pub current: Option<P>,
}

/// What the mouse button did since the last look.
#[derive(Debug, Clone, Copy, PartialEq, Eq, Structural)]
pub enum Button {
    Pressed,
    Held,
    Released,
    Idle,
}

/// The button's doing, of which a press goes before a hold, and a hold
/// before a release.
pub fn button(pressed: bool, held: bool, released: bool) -> (r: Button)
    ensures
        r == (if pressed {
            Button::Pressed
        } else if held {
            Button::Held
        } else if released {
            Button::Released
        } else {
            Button::Idle
        }),
{
    if pressed {
        Button::Pressed
    } else if held {
        Button::Held
    } else if released {
        Button::Released
    } else {
        Button::Idle
    }
}

/// No drag.
pub open spec fn at_rest<P>() -> Drag<P> {
    Drag { start: None, current: None }
}

/// The drag after a look, with the pointer at `at`, if that is known.
pub open spec fn moved<P>(d: Drag<P>, button: Button, at: Option<P>) -> Drag<P> {
    match button {
        Button::Pressed => Drag { start: at, current: at },
        Button::Held => if at is Some {
            Drag { start: d.start, current: at }
        } else {
            d
        },
        Button::Released => at_rest(),
        Button::Idle => d,
    }
}

/// The two ends of a drag that is let go.
pub open spec fn let_go<P>(d: Drag<P>, button: Button) -> Option<(P, P)> {
    if button == Button::Released && d.start is Some && d.current is Some {
        Some((d.start->0, d.current->0))
    } else {
        None
    }
}

impl<P: Copy> Drag<P> {
    /// No drag.
    pub fn new() -> (r: Self)
        ensures
            r == at_rest::<P>(),
    {
        Drag { start: None, current: None }
    }

    /// Takes note of the button and the pointer. Gives the two ends of a
    /// drag that is let go.
    pub fn look(&mut self, button: Button, at: Option<P>) -> (r: Option<(P, P)>)
        ensures
            *final(self) == moved(*old(self), button, at),
            r == let_go(*old(self), button),
    {
        match button {
            Button::Pressed => {
                self.start = at;
                self.current = at;
                None
            },
            Button::Held => {
                if at.is_some() {
                    self.current = at;
                }
                None
            },
            Button::Released => {
                let r = match (self.start, self.current) {
                    (Some(a), Some(b)) => Some((a, b)),
                    _ => None,
                };
                self.start = None;
                self.current = None;
                r
            },
            Button::Idle => None,
        }
    }
}

/// The drag after the pointer went through points with the button held.
pub open spec fn dragged<P>(d: Drag<P>, path: Seq<P>) -> Drag<P>
    decreases path.len(),
{
    if path.len() == 0 {
        d
    } else {
        moved(dragged(d, path.drop_last()), Button::Held, Some(path.last()))
    }
}

/// A drag that is let go reaches from where the button was pressed to where
/// the pointer was last, whatever happened before.
pub proof fn law_drag_reaches_from_press_to_last_point<P>(before: Drag<P>, from: P, path: Seq<P>)
    ensures
        let_go(dragged(moved(before, Button::Pressed, Some(from)), path), Button::Released) == Some(
            (
                from,
                if path.len() > 0 {
                    path.last()
                } else {
                    from
                },
            ),
        ),
    decreases path.len(),
{
    if path.len() > 0 {
        law_drag_reaches_from_press_to_last_point(before, from, path.drop_last());
    }
}

/// Nothing is dragged at first.
pub proof fn law_no_drag_at_first<P: Copy>(d: Drag<P>)
    requires
        call_ensures(Drag::<P>::new, (), d),
    ensures
        d.start is None,
        d.current is None,
{
}

/// What each look does: a press begins a drag where the pointer is, a hold
/// moves its end along, a release hands both ends out and ends it, and nothing
/// else changes it.
pub proof fn law_look<P: Copy>(d: &mut Drag<P>, button: Button, at: Option<P>, r: Option<(P, P)>)
    requires
        call_ensures(Drag::<P>::look, (d, button, at), r),
    ensures
        button == Button::Pressed ==> final(d).start == at && final(d).current == at,
        button == Button::Held && at is Some ==> final(d).start == old(d).start && final(d).current
            == at,
        (button == Button::Held && at is None) || button == Button::Idle ==> *final(d) == *old(d),
        button == Button::Released ==> final(d).start is None && final(d).current is None,
        r is Some <==> button == Button::Released && old(d).start is Some && old(d).current is Some,
        r matches Some(ends) ==> old(d).start == Some(ends.0) && old(d).current == Some(ends.1),
{
}

/// A press counts before a hold, and a hold before a release.
pub proof fn law_button(pressed: bool, held: bool, released: bool, r: Button)
    requires
        call_ensures(button, (pressed, held, released), r),
    ensures
        pressed ==> r == Button::Pressed,
        !pressed && held ==> r == Button::Held,
        !pressed && !held && released ==> r == Button::Released,
        !pressed && !held && !released ==> r == Button::Idle,
{
}

} // verus!
