//! On-screen sliders and the keys that drive them. Positions are normalised
//! device coordinates and slider values are fractions in [0, 1], both held as
//! integers in units of `1 / UNIT`.
use vstd::arithmetic::div_mod::lemma_div_multiples_vanish;
use vstd::prelude::*;

verus! {

/// One whole in fixed point: a position of `UNIT` is NDC 1.0, a value of `UNIT` is 1.0.
pub const UNIT: i64 = 10000;

/// Largest magnitude of a slider's centre coordinates and extents.
pub const COORD_LIMIT: i64 = 1099511627776;

/// Number of sliders on screen.
pub const SLIDER_COUNT: usize = 10;

/// How much one key press moves the selected slider: 0.01.
pub const SLIDER_STEP: i64 = 100;

/// A horizontal slider: a rectangle given by its centre and size, and a value
/// in `0 ..= UNIT`.
#[derive(Clone, Copy, Debug)]
pub struct UIElement {
    pub value: i64,
    pub center: (i64, i64),
    pub dimensions: (i64, i64),
}

impl UIElement {
    pub open spec fn wf(self) -> bool {
        &&& 0 <= self.value <= UNIT
        &&& -COORD_LIMIT <= self.center.0 <= COORD_LIMIT
        &&& -COORD_LIMIT <= self.center.1 <= COORD_LIMIT
        &&& 0 < self.dimensions.0 <= COORD_LIMIT
        &&& 0 <= self.dimensions.1 <= COORD_LIMIT
    }

    /// Twice the left edge: `2 * center - width`. Edges are kept doubled so
    /// that a rectangle of odd size stays centred on its centre.
    pub open spec fn left2(self) -> int {
        2 * self.center.0 - self.dimensions.0
    }

    /// Twice the right edge.
    pub open spec fn right2(self) -> int {
        2 * self.center.0 + self.dimensions.0
    }

    /// Twice the bottom edge.
    pub open spec fn bottom2(self) -> int {
        2 * self.center.1 - self.dimensions.1
    }

    /// Twice the top edge.
    pub open spec fn top2(self) -> int {
        2 * self.center.1 + self.dimensions.1
    }

    /// The point lies in the rectangle `center ± dimensions / 2`, edges included.
    pub open spec fn contains(self, p: (i64, i64)) -> bool {
        &&& self.left2() <= 2 * p.0 <= self.right2()
        &&& self.bottom2() <= 2 * p.1 <= self.top2()
    }

    /// The slider after a click at `p`: inside the rectangle the value becomes
    /// the horizontal fraction `(p.x - left) / width` (rounded down); outside it
    /// nothing changes.
    pub open spec fn after_click(self, p: (i64, i64)) -> UIElement {
        if self.contains(p) {
            UIElement {
                value: ((2 * p.0 - self.left2()) * UNIT / (2 * self.dimensions.0)) as i64,
                ..self
            }
        } else {
            self
        }
    }

    pub open spec fn after_increment(self) -> UIElement {
        UIElement {
            value: if self.value + SLIDER_STEP > UNIT {
                UNIT
            } else {
                (self.value + SLIDER_STEP) as i64
            },
            ..self
        }
    }

    pub open spec fn after_decrement(self) -> UIElement {
        UIElement {
            value: if self.value - SLIDER_STEP < 0 {
                0
            } else {
                (self.value - SLIDER_STEP) as i64
            },
            ..self
        }
    }

    /// A slider centred at `center` with the given size and value.
    pub fn new(center: (i64, i64), dimensions: (i64, i64), value: i64) -> (r: UIElement)
        requires
            0 <= value <= UNIT,
            -COORD_LIMIT <= center.0 <= COORD_LIMIT,
            -COORD_LIMIT <= center.1 <= COORD_LIMIT,
            0 < dimensions.0 <= COORD_LIMIT,
            0 <= dimensions.1 <= COORD_LIMIT,
        ensures
            r.wf(),
            r == (UIElement { value, center, dimensions }),
    {
        UIElement { value, center, dimensions }
    }

    /// Raises the value by one step, stopping at `UNIT`.
    pub fn increment(&mut self)
        requires
            old(self).wf(),
        ensures
            *final(self) == old(self).after_increment(),
            final(self).wf(),
    {
        if self.value + SLIDER_STEP > UNIT {
            self.value = UNIT;
        } else {
            self.value = self.value + SLIDER_STEP;
        }
    }

    /// Lowers the value by one step, stopping at zero.
    pub fn decrement(&mut self)
        requires
            old(self).wf(),
        ensures
            *final(self) == old(self).after_decrement(),
            final(self).wf(),
    {
        if self.value - SLIDER_STEP < 0 {
            self.value = 0;
        } else {
            self.value = self.value - SLIDER_STEP;
        }
    }

    /// Hit-tests a click at `global_position` and, on a hit, sets the value
    /// from the horizontal position inside the rectangle.
    pub fn try_set(&mut self, global_position: (i64, i64))
        requires
            old(self).wf(),
        ensures
            *final(self) == old(self).after_click(global_position),
            final(self).wf(),
    {
        let left2 = 2 * (self.center.0 as i128) - self.dimensions.0 as i128;
        let right2 = 2 * (self.center.0 as i128) + self.dimensions.0 as i128;
        let bottom2 = 2 * (self.center.1 as i128) - self.dimensions.1 as i128;
        let top2 = 2 * (self.center.1 as i128) + self.dimensions.1 as i128;
        let x2 = 2 * (global_position.0 as i128);
        let y2 = 2 * (global_position.1 as i128);
        if left2 <= x2 && x2 <= right2 && bottom2 <= y2 && y2 <= top2 {
            let offset = x2 - left2;
            let w2 = 2 * (self.dimensions.0 as i128);
            proof {
                let w = w2 as int;
                assert(offset * UNIT <= w * UNIT) by (nonlinear_arith)
                    requires
                        0 <= offset <= w,
                ;
                assert(w * UNIT <= 2 * COORD_LIMIT * UNIT) by (nonlinear_arith)
                    requires
                        w <= 2 * COORD_LIMIT,
                ;
                assert(0 <= offset * UNIT) by (nonlinear_arith)
                    requires
                        0 <= offset,
                ;
                assert((offset * UNIT) / w <= UNIT) by (nonlinear_arith)
                    requires
                        offset * UNIT <= w * UNIT,
                        w > 0,
                ;
                assert(0 <= (offset * UNIT) / w) by (nonlinear_arith)
                    requires
                        0 <= offset * UNIT,
                        w > 0,
                ;
            }
            self.value = (offset * (UNIT as i128) / w2) as i64;
        }
    }
}

/// A click exactly on a slider's left edge sets its value to 0, one exactly on
/// its right edge sets it to 1 (`UNIT`), and a click outside its rectangle
/// leaves it unchanged.
pub proof fn lemma_slider_hit_test(
    e: UIElement,
    left_x: i64,
    right_x: i64,
    y: i64,
    outside: (i64, i64),
)
    requires
        e.wf(),
        2 * left_x == e.left2(),
        2 * right_x == e.right2(),
        e.bottom2() <= 2 * y <= e.top2(),
        !e.contains(outside),
    ensures
        e.after_click((left_x, y)).value == 0,
        e.after_click((right_x, y)).value == UNIT,
        e.after_click(outside) == e,
{
    let w2 = 2 * e.dimensions.0;
    assert(2 * right_x - e.left2() == w2);
    assert(w2 * UNIT / w2 == UNIT) by {
        lemma_div_multiples_vanish(UNIT as int, w2);
        assert(w2 * UNIT == w2 * (UNIT as int));
    }
    assert(0int * UNIT / w2 == 0);
}

/// A key as far as the sliders care.
#[derive(Clone, Copy, Debug, PartialEq, Eq, Structural)]
pub enum KeyInput {
    Character(char),
    ArrowUp,
    ArrowDown,
    Escape,
    Other,
}

/// The slider that a digit key selects.
pub open spec fn digit_of(c: char) -> Option<nat> {
    if '0' <= c <= '9' {
        Some((c as nat - '0' as nat) as nat)
    } else {
        None
    }
}

/// `after` is `before` once `key` was pressed: `m` flips visibility, a digit
/// selects that slider if it exists, the arrows step the selected slider
/// unless the row is hidden, and every other key changes nothing.
pub open spec fn key_effect(before: UIElements, after: UIElements, key: KeyInput) -> bool {
    match key {
        KeyInput::Character(c) => if c == 'm' {
            after.hidden == !before.hidden && after.elements@ == before.elements@ && after.selected
                == before.selected
        } else if let Some(d) = digit_of(c) {
            after.hidden == before.hidden && after.elements@ == before.elements@ && after.selected
                == if d < before.elements@.len() {
                d as usize
            } else {
                before.selected
            }
        } else {
            after.hidden == before.hidden && after.elements@ == before.elements@ && after.selected
                == before.selected
        },
        KeyInput::ArrowUp => after.hidden == before.hidden && after.selected == before.selected
            && after.elements@ == if before.hidden {
            before.elements@
        } else {
            before.elements@.update(
                before.selected as int,
                before.elements@[before.selected as int].after_increment(),
            )
        },
        KeyInput::ArrowDown => after.hidden == before.hidden && after.selected == before.selected
            && after.elements@ == if before.hidden {
            before.elements@
        } else {
            before.elements@.update(
                before.selected as int,
                before.elements@[before.selected as int].after_decrement(),
            )
        },
        _ => after.hidden == before.hidden && after.elements@ == before.elements@ && after.selected
            == before.selected,
    }
}

/// The row of sliders, whether it is shown, and which one the arrow keys move.
pub struct UIElements {
    pub elements: Vec<UIElement>,
    pub hidden: bool,
    pub selected: usize,
}

impl UIElements {
    pub open spec fn wf(&self) -> bool {
        &&& self.elements@.len() > 0
        &&& self.selected < self.elements@.len()
        &&& forall|k: int| 0 <= k < self.elements@.len() ==> (#[trigger] self.elements@[k]).wf()
    }

    /// The sliders stacked down the left of the screen, hidden, all at one half,
    /// the first one selected.
    pub fn new() -> (r: UIElements)
        ensures
            r.wf(),
            r.elements@.len() == SLIDER_COUNT,
            r.hidden,
            r.selected == 0,
            forall|k: int|
                0 <= k < SLIDER_COUNT ==> #[trigger] r.elements@[k] == (UIElement {
                    value: (UNIT / 2) as i64,
                    center: (-7000i64, (8000 - 1000 * k) as i64),
                    dimensions: (5000, 500),
                }),
    {
        let mut elements: Vec<UIElement> = Vec::with_capacity(SLIDER_COUNT);
        let mut i: usize = 0;
        while i < SLIDER_COUNT
            invariant
                i <= SLIDER_COUNT,
                elements@.len() == i,
                forall|k: int|
                    0 <= k < i ==> #[trigger] elements@[k] == (UIElement {
                        value: (UNIT / 2) as i64,
                        center: (-7000i64, (8000 - 1000 * k) as i64),
                        dimensions: (5000, 500),
                    }),
            decreases SLIDER_COUNT - i,
        {
            let y: i64 = 8000 - 1000 * (i as i64);
            elements.push(UIElement::new((-7000, y), (5000, 500), UNIT / 2));
            i = i + 1;
        }
        UIElements { elements, hidden: true, selected: 0 }
    }

    /// Dispatches a click at an NDC position to every slider, unless hidden.
    /// (0, 0) is the centre of the screen, (-1, -1) the bottom left corner.
    pub fn click(&mut self, position: (i64, i64))
        requires
            old(self).wf(),
        ensures
            final(self).wf(),
            final(self).hidden == old(self).hidden,
            final(self).selected == old(self).selected,
            final(self).elements@.len() == old(self).elements@.len(),
            old(self).hidden ==> final(self).elements@ == old(self).elements@,
            !old(self).hidden ==> forall|k: int|
                0 <= k < old(self).elements@.len() ==> #[trigger] final(self).elements@[k] == old(
                    self,
                ).elements@[k].after_click(position),
    {
        if self.hidden {
            return;
        }
        let ghost start = self.elements@;
        let mut i: usize = 0;
        while i < self.elements.len()
            invariant
                !self.hidden,
                self.selected == old(self).selected,
                self.elements@.len() == start.len(),
                start == old(self).elements@,
                old(self).wf(),
                i <= start.len(),
                forall|k: int| 0 <= k < i ==> #[trigger] self.elements@[k] == start[k].after_click(position),
                forall|k: int| i <= k < start.len() ==> #[trigger] self.elements@[k] == start[k],
                forall|k: int| 0 <= k < start.len() ==> (#[trigger] self.elements@[k]).wf(),
            decreases start.len() - i,
        {
            let mut e = self.elements[i];
            e.try_set(position);
            self.elements.set(i, e);
            i = i + 1;
        }
    }

    pub fn toggle_hidden(&mut self)
        ensures
            final(self).hidden == !old(self).hidden,
            final(self).elements == old(self).elements,
            final(self).selected == old(self).selected,
    {
        self.hidden = !self.hidden;
    }

    /// Selects slider `s` if there is one.
    pub fn select(&mut self, s: usize)
        ensures
            final(self).selected == if s < old(self).elements@.len() {
                s
            } else {
                old(self).selected
            },
            final(self).elements == old(self).elements,
            final(self).hidden == old(self).hidden,
    {
        if s < self.elements.len() {
            self.selected = s;
        }
    }

    /// Raises the selected slider by one step, unless hidden.
    pub fn increment(&mut self)
        requires
            old(self).wf(),
        ensures
            final(self).wf(),
            final(self).hidden == old(self).hidden,
            final(self).selected == old(self).selected,
            final(self).elements@ == if old(self).hidden {
                old(self).elements@
            } else {
                old(self).elements@.update(
                    old(self).selected as int,
                    old(self).elements@[old(self).selected as int].after_increment(),
                )
            },
    {
        if !self.hidden {
            let mut e = self.elements[self.selected];
            e.increment();
            self.elements.set(self.selected, e);
        }
    }

    /// Lowers the selected slider by one step, unless hidden.
    pub fn decrement(&mut self)
        requires
            old(self).wf(),
        ensures
            final(self).wf(),
            final(self).hidden == old(self).hidden,
            final(self).selected == old(self).selected,
            final(self).elements@ == if old(self).hidden {
                old(self).elements@
            } else {
                old(self).elements@.update(
                    old(self).selected as int,
                    old(self).elements@[old(self).selected as int].after_decrement(),
                )
            },
    {
        if !self.hidden {
            let mut e = self.elements[self.selected];
            e.decrement();
            self.elements.set(self.selected, e);
        }
    }

    /// What a key press does: `m` shows or hides the sliders, a digit selects
    /// that slider, the up and down arrows move the selected one; other keys
    /// do nothing.
    pub fn report_key(&mut self, key: KeyInput)
        requires
            old(self).wf(),
        ensures
            final(self).wf(),
            key_effect(*old(self), *final(self), key),
    {
        match key {
            KeyInput::Character(c) => {
                if c == 'm' {
                    self.toggle_hidden();
                } else if '0' <= c && c <= '9' {
                    let d = (c as u32) - ('0' as u32);
                    self.select(d as usize);
                }
            },
            KeyInput::ArrowUp => self.increment(),
            KeyInput::ArrowDown => self.decrement(),
            _ => {},
        }
    }
}

/// Which keys are held down, to tell a fresh press from an auto-repeat.
pub struct InputState {
    pressed: Vec<KeyInput>,
}

impl InputState {
    /// The keys held down.
    pub closed spec fn view(&self) -> Set<KeyInput> {
        self.pressed@.to_set()
    }

    pub fn new() -> (r: InputState)
        ensures
            r@ == Set::<KeyInput>::empty(),
    {
        let r = InputState { pressed: Vec::new() };
        assert(r@ =~= Set::<KeyInput>::empty());
        r
    }

    /// Records that `key` is down; true when it was not down already.
    pub fn is_just_pressed(&mut self, key: KeyInput) -> (r: bool)
        ensures
            r == !old(self)@.contains(key),
            final(self)@ == old(self)@.insert(key),
    {
        let mut i: usize = 0;
        while i < self.pressed.len()
            invariant
                i <= self.pressed@.len(),
                forall|j: int| 0 <= j < i ==> self.pressed@[j] != key,
            decreases self.pressed@.len() - i,
        {
            if self.pressed[i] == key {
                proof {
                    assert(self.pressed@.to_set() =~= self.pressed@.to_set().insert(key));
                }
                return false;
            }
            i = i + 1;
        }
        let ghost before = self.pressed@;
        assert(!before.to_set().contains(key));
        self.pressed.push(key);
        proof {
            before.lemma_push_to_set_commute(key);
        }
        true
    }

    /// Records that `key` is up.
    pub fn released(&mut self, key: KeyInput)
        ensures
            final(self)@ == old(self)@.remove(key),
    {
        let mut kept: Vec<KeyInput> = Vec::new();
        let mut i: usize = 0;
        assert(kept@.to_set() =~= self.pressed@.take(0).to_set().remove(key));
        while i < self.pressed.len()
            invariant
                i <= self.pressed@.len(),
                kept@.to_set() == self.pressed@.take(i as int).to_set().remove(key),
            decreases self.pressed@.len() - i,
        {
            let k = self.pressed[i];
            let ghost prev = kept@;
            proof {
                assert(self.pressed@.take(i + 1) == self.pressed@.take(i as int).push(k));
                self.pressed@.take(i as int).lemma_push_to_set_commute(k);
            }
            if k != key {
                kept.push(k);
                proof {
                    prev.lemma_push_to_set_commute(k);
                    assert(kept@.to_set() =~= self.pressed@.take(i + 1).to_set().remove(key));
                }
            } else {
                assert(kept@.to_set() =~= self.pressed@.take(i + 1).to_set().remove(key));
            }
            i = i + 1;
        }
        assert(self.pressed@.take(self.pressed@.len() as int) =~= self.pressed@);
        self.pressed = kept;
    }
}

} // verus!
