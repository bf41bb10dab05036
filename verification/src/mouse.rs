//! Mouse gesture tracking for word-selection translation: a selection is a
//! press, one or more moves while pressed, then a release.
use vstd::prelude::*;

verus! {

/// The mouse inputs that the gesture tracker reacts to.
#[derive(Debug, Clone, Copy, PartialEq, Eq)]
pub enum MouseInput {
    Down,
    Moving,
    Release,
}

/// Phases of the tracker: idle, pressed, dragging, selection completed.
pub open spec fn PHASE_IDLE() -> u8 {
    0
}

pub open spec fn PHASE_PRESSED() -> u8 {
    1
}

pub open spec fn PHASE_DRAGGING() -> u8 {
    2
}

pub open spec fn PHASE_SELECTED() -> u8 {
    3
}

/// The phase that follows `phase` on `input`.
pub open spec fn mouse_step(phase: u8, input: MouseInput) -> u8 {
    match input {
        MouseInput::Down => PHASE_PRESSED(),
        MouseInput::Moving => if phase == PHASE_PRESSED() || phase == PHASE_DRAGGING() {
            PHASE_DRAGGING()
        } else {
            PHASE_IDLE()
        },
        MouseInput::Release => if phase == PHASE_DRAGGING() {
            PHASE_SELECTED()
        } else {
            PHASE_IDLE()
        },
    }
}

/// The phase reached from `phase` after `inputs`, in order.
pub open spec fn mouse_run(phase: u8, inputs: Seq<MouseInput>) -> u8
    decreases inputs.len(),
{
    if inputs.len() == 0 {
        phase
    } else {
        mouse_step(mouse_run(phase, inputs.drop_last()), inputs.last())
    }
}

/// `inputs` end with a press followed by at least one move.
pub open spec fn ends_dragging(inputs: Seq<MouseInput>) -> bool {
    exists|k: int|
        0 <= k < inputs.len() - 1 && inputs[k] == MouseInput::Down && forall|j: int|
            k < j < inputs.len() ==> #[trigger] inputs[j] == MouseInput::Moving
}

/// `inputs` end with a complete selection gesture: press, move (once or
/// more), release.
pub open spec fn ends_with_selection(inputs: Seq<MouseInput>) -> bool {
    &&& inputs.len() > 0
    &&& inputs.last() == MouseInput::Release
    &&& ends_dragging(inputs.drop_last())
}

/// Tracks press → move → release to detect a completed text selection.
#[derive(Debug, Clone, Copy)]
pub struct MouseState {
    last_event: u8,
}

impl View for MouseState {
    type V = u8;

    closed spec fn view(&self) -> u8 {
        self.last_event
    }
}

impl MouseState {
    /// The tracker's phase is one of the four phases.
    pub closed spec fn wf(self) -> bool {
        self.last_event <= 3
    }

    /// A new tracker in the idle phase.
    pub fn new() -> (s: Self)
        ensures
            s@ == PHASE_IDLE(),
            s.wf(),
    {
        MouseState { last_event: 0 }
    }

    /// Records a button press.
    pub fn down(&mut self)
        ensures
            final(self)@ == mouse_step(old(self)@, MouseInput::Down),
            final(self).wf(),
    {
        self.last_event = 1
    }

    /// Records a move; only counts while the button is pressed.
    pub fn moving(&mut self)
        ensures
            final(self)@ == mouse_step(old(self)@, MouseInput::Moving),
            final(self).wf(),
    {
        match self.last_event {
            1 => self.last_event = 2,
            2 => self.last_event = 2,
            _ => self.last_event = 0,
        }
    }

    /// Records a release; completes a selection only after dragging.
    pub fn release(&mut self)
        ensures
            final(self)@ == mouse_step(old(self)@, MouseInput::Release),
            final(self).wf(),
    {
        match self.last_event {
            2 => self.last_event = 3,
            _ => self.last_event = 0,
        }
    }

    /// Whether a selection was completed; if so the tracker goes back to
    /// idle, otherwise it is left as it was.
    pub fn is_select(&mut self) -> (b: bool)
        ensures
            b == (old(self)@ == PHASE_SELECTED()),
            b ==> final(self)@ == PHASE_IDLE(),
            !b ==> final(self)@ == old(self)@,
            old(self).wf() ==> final(self).wf(),
    {
        if self.last_event == 3 {
            self.last_event = 0;
            true
        } else {
            false
        }
    }

    /// Applies one input.
    pub fn apply(&mut self, input: MouseInput)
        ensures
            final(self)@ == mouse_step(old(self)@, input),
            final(self).wf(),
    {
        match input {
            MouseInput::Down => self.down(),
            MouseInput::Moving => self.moving(),
            MouseInput::Release => self.release(),
        }
    }
}

impl Default for MouseState {
    fn default() -> (s: Self)
        ensures
            s@ == PHASE_IDLE(),
    {
        Self::new()
    }
}

proof fn lemma_dragging_push(init: Seq<MouseInput>, x: MouseInput)
    ensures
        ends_dragging(init.push(x)) <==> (x == MouseInput::Moving && ((init.len() > 0
            && init.last() == MouseInput::Down) || ends_dragging(init))),
{
    let inputs = init.push(x);
    let n = inputs.len() as int;
    assert(inputs[n - 1] == x);
    if x == MouseInput::Moving {
        if init.len() > 0 && init.last() == MouseInput::Down {
            let k = n - 2;
            assert(inputs[k] == MouseInput::Down);
            assert forall|j: int| k < j < n implies #[trigger] inputs[j] == MouseInput::Moving by {
                assert(j == n - 1);
            }
        }
        if ends_dragging(init) {
            let k = choose|k: int|
                0 <= k < init.len() - 1 && init[k] == MouseInput::Down && forall|j: int|
                    k < j < init.len() ==> #[trigger] init[j] == MouseInput::Moving;
            assert(inputs[k] == init[k]);
            assert forall|j: int| k < j < n implies #[trigger] inputs[j] == MouseInput::Moving by {
                if j < n - 1 {
                    assert(inputs[j] == init[j]);
                }
            }
        }
        if ends_dragging(inputs) {
            let k = choose|k: int|
                0 <= k < n - 1 && inputs[k] == MouseInput::Down && forall|j: int|
                    k < j < n ==> #[trigger] inputs[j] == MouseInput::Moving;
            if k == n - 2 {
                assert(init.last() == inputs[k]);
            } else {
                assert(init[k] == inputs[k]);
                assert forall|j: int| k < j < init.len() implies #[trigger] init[j]
                    == MouseInput::Moving by {
                    assert(init[j] == inputs[j]);
                }
            }
        }
    } else {
        if ends_dragging(inputs) {
            let k = choose|k: int|
                0 <= k < n - 1 && inputs[k] == MouseInput::Down && forall|j: int|
                    k < j < n ==> #[trigger] inputs[j] == MouseInput::Moving;
            assert(inputs[n - 1] == MouseInput::Moving);
        }
    }
}

/// From the idle phase, the tracker is pressed exactly when the last input
/// was a press, dragging exactly when the inputs end with a press and one or
/// more moves, and reports a selection exactly when the inputs end with a
/// complete press–move–release gesture.
pub proof fn lemma_mouse_phases(inputs: Seq<MouseInput>)
    ensures
        (mouse_run(PHASE_IDLE(), inputs) == PHASE_PRESSED()) <==> (inputs.len() > 0
            && inputs.last() == MouseInput::Down),
        (mouse_run(PHASE_IDLE(), inputs) == PHASE_DRAGGING()) <==> ends_dragging(inputs),
        (mouse_run(PHASE_IDLE(), inputs) == PHASE_SELECTED()) <==> ends_with_selection(inputs),
    decreases inputs.len(),
{
    if inputs.len() == 0 {
        return;
    }
    let init = inputs.drop_last();
    let x = inputs.last();
    lemma_mouse_phases(init);
    assert(init.push(x) =~= inputs);
    lemma_dragging_push(init, x);
}

} // verus!
