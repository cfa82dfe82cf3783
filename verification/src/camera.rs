use vstd::prelude::*;

verus! {

/// What the window reports to the camera. A key is named by its code.
#[derive(Clone, Copy, Debug, PartialEq, Eq, Structural)]
pub enum Input {
    KeyPressed(u32),
    KeyReleased(u32),
    MousePressed,
    MouseReleased,
    MouseMoved(i32, i32),
    Other,
}

/// The keys that are held, in the order in which they went down, and the last
/// movement of the mouse. While a mouse button is held, the code `mouse_key`
/// stands among the keys.
#[derive(Debug)]
pub struct Controls {
    pub keys: Vec<u32>,
    pub mouse: (i32, i32),
    pub dx: i32,
    pub dy: i32,
    pub mouse_key: u32,
}

/// The keys that move the camera, each by its code.
#[derive(Clone, Copy, Debug, PartialEq, Eq, Structural)]
pub struct Bindings {
    pub move_forward_button: u32,
    pub move_backward_button: u32,
    pub strafe_left_button: u32,
    pub strafe_right_button: u32,
    pub fly_up_button: u32,
    pub fly_down_button: u32,
    pub move_faster_button: u32,
}

/// One of the three directions that the camera carries.
#[derive(Clone, Copy, Debug, PartialEq, Eq, Structural)]
pub enum Axis {
    Forward,
    Right,
    Up,
}

/// One movement of the camera in a frame: along `axis` by its velocity, or
/// against it where `ahead` is false.
#[derive(Clone, Copy, Debug, PartialEq, Eq, Structural)]
pub struct Step {
    pub axis: Axis,
    pub ahead: bool,
}

/// The movement that a key gives while it is held, and none while it is not.
pub open spec fn step_if_held(keys: Seq<u32>, key: u32, axis: Axis, ahead: bool) -> Seq<Step> {
    if keys.contains(key) {
        seq![Step { axis, ahead }]
    } else {
        Seq::empty()
    }
}

/// The movements of a frame, in the order in which they are made: against
/// the forward direction for the forward key and along it for the backward
/// key, along the right direction for the left key and against it for the
/// right key, along the up direction for the up key and against it for the
/// down key.
pub open spec fn steps_of(keys: Seq<u32>, b: Bindings) -> Seq<Step> {
    step_if_held(keys, b.move_forward_button, Axis::Forward, false) + step_if_held(
        keys,
        b.move_backward_button,
        Axis::Forward,
        true,
    ) + step_if_held(keys, b.strafe_left_button, Axis::Right, true) + step_if_held(
        keys,
        b.strafe_right_button,
        Axis::Right,
        false,
    ) + step_if_held(keys, b.fly_up_button, Axis::Up, true) + step_if_held(
        keys,
        b.fly_down_button,
        Axis::Up,
        false,
    )
}

/// The first index at or after `i` that holds `key`, or the length of `s`
/// where none does.
pub open spec fn find_from(s: Seq<u32>, key: u32, i: int) -> int
    decreases s.len() - i,
{
    if i < 0 || i >= s.len() || s[i] == key {
        i
    } else {
        find_from(s, key, i + 1)
    }
}

/// The keys after `key` went down: it is added at the end unless it is held.
pub open spec fn pressed(s: Seq<u32>, key: u32) -> Seq<u32> {
    if find_from(s, key, 0) < s.len() {
        s
    } else {
        s.push(key)
    }
}

/// The keys after `key` came up: its first entry is taken out, if it has one.
pub open spec fn released(s: Seq<u32>, key: u32) -> Seq<u32> {
    if find_from(s, key, 0) < s.len() {
        s.remove(find_from(s, key, 0))
    } else {
        s
    }
}

/// Whether `a - b` is a 32-bit number.
pub open spec fn difference_fits(a: i32, b: i32) -> bool {
    i32::MIN <= a - b <= i32::MAX
}

/// The search for a key ends inside the keys, on the key or at the end, and
/// passes over no entry that holds it.
pub proof fn lemma_find_from(s: Seq<u32>, key: u32, i: int)
    requires
        0 <= i <= s.len(),
    ensures
        i <= find_from(s, key, i) <= s.len(),
        find_from(s, key, i) < s.len() ==> s[find_from(s, key, i)] == key,
        forall|k: int| i <= k < find_from(s, key, i) ==> #[trigger] s[k] != key,
    decreases s.len() - i,
{
    if i < s.len() && s[i] != key {
        lemma_find_from(s, key, i + 1);
    }
}

/// A key is found exactly where the keys contain it.
pub proof fn lemma_find_is_contains(s: Seq<u32>, key: u32)
    ensures
        find_from(s, key, 0) < s.len() <==> s.contains(key),
{
    lemma_find_from(s, key, 0);
    if find_from(s, key, 0) < s.len() {
        assert(s[find_from(s, key, 0)] == key);
    }
}

/// Keys that hold no code twice still hold none twice after a key went down
/// or came up.
pub proof fn lemma_keys_stay_distinct(s: Seq<u32>, key: u32)
    requires
        s.no_duplicates(),
    ensures
        pressed(s, key).no_duplicates(),
        released(s, key).no_duplicates(),
        !released(s, key).contains(key),
        pressed(s, key).contains(key),
{
    lemma_find_from(s, key, 0);
    let i = find_from(s, key, 0);
    let p = pressed(s, key);
    let r = released(s, key);
    if i < s.len() {
        assert(s[i] == key);
        assert forall|a: int, b: int| 0 <= a < r.len() && 0 <= b < r.len() && a != b implies r[a]
            != r[b] by {
            let a0 = if a < i { a } else { a + 1 };
            let b0 = if b < i { b } else { b + 1 };
            assert(r[a] == s[a0] && r[b] == s[b0]);
        }
        assert forall|a: int| 0 <= a < r.len() implies r[a] != key by {
            let a0 = if a < i { a } else { a + 1 };
            assert(r[a] == s[a0]);
        }
    } else {
        assert(p[s.len() as int] == key);
        assert forall|a: int, b: int| 0 <= a < p.len() && 0 <= b < p.len() && a != b implies p[a]
            != p[b] by {
            if a < s.len() && b < s.len() {
                assert(p[a] == s[a] && p[b] == s[b]);
            }
        }
    }
}

impl Controls {
    /// Whether `e` can be taken: a mouse button can come up only while the
    /// mouse code is among the keys, and a movement must give differences
    /// that are 32-bit numbers.
    pub open spec fn accepts(&self, e: Input) -> bool {
        match e {
            Input::MouseReleased => find_from(self.keys@, self.mouse_key, 0) < self.keys@.len(),
            Input::MouseMoved(x, y) => difference_fits(x, self.mouse.0) && difference_fits(
                self.mouse.1,
                y,
            ),
            _ => true,
        }
    }

    /// The keys after `e`.
    pub open spec fn keys_after(&self, e: Input) -> Seq<u32> {
        match e {
            Input::KeyPressed(key) => pressed(self.keys@, key),
            Input::KeyReleased(key) => released(self.keys@, key),
            Input::MousePressed => pressed(self.keys@, self.mouse_key),
            Input::MouseReleased => released(self.keys@, self.mouse_key),
            _ => self.keys@,
        }
    }

    /// No key held, the mouse at the origin.
    pub fn new(mouse_key: u32) -> (r: Controls)
        ensures
            r.keys@ == Seq::<u32>::empty(),
            r.mouse == (0i32, 0i32),
            r.dx == 0 && r.dy == 0,
            r.mouse_key == mouse_key,
    {
        Controls { keys: Vec::new(), mouse: (0i32, 0i32), dx: 0, dy: 0, mouse_key }
    }

    /// Where `key` stands first among the keys held.
    pub fn position(&self, key: u32) -> (r: Option<usize>)
        ensures
            match r {
                Some(i) => i == find_from(self.keys@, key, 0) && i < self.keys@.len(),
                None => find_from(self.keys@, key, 0) == self.keys@.len(),
            },
    {
        let n: usize = self.keys.len();
        let mut i: usize = 0;
        while i < n && self.keys[i] != key
            invariant
                n == self.keys@.len(),
                0 <= i <= n,
                find_from(self.keys@, key, 0) == find_from(self.keys@, key, i as int),
            decreases n - i,
        {
            i = i + 1;
        }
        if i < n {
            Some(i)
        } else {
            None
        }
    }

    /// Whether `key` is held.
    pub fn holds(&self, key: u32) -> (r: bool)
        ensures
            r == self.keys@.contains(key),
    {
        proof {
            lemma_find_is_contains(self.keys@, key);
        }
        self.position(key).is_some()
    }

    /// Appends the movement of a key to the movements of the frame, where the
    /// key is held.
    fn push_step(&self, out: &mut Vec<Step>, key: u32, axis: Axis, ahead: bool)
        ensures
            final(out)@ == old(out)@ + step_if_held(self.keys@, key, axis, ahead),
    {
        if self.holds(key) {
            out.push(Step { axis, ahead });
            assert(final(out)@ =~= old(out)@ + seq![Step { axis, ahead }]);
        } else {
            assert(old(out)@ =~= old(out)@ + Seq::<Step>::empty());
        }
    }

    /// The movements that the keys held ask for in this frame, in the order
    /// in which they are to be made.
    pub fn update_pos(&self, b: &Bindings) -> (out: Vec<Step>)
        ensures
            out@ == steps_of(self.keys@, *b),
    {
        let mut out: Vec<Step> = Vec::new();
        assert(out@ =~= Seq::<Step>::empty() + Seq::<Step>::empty());
        self.push_step(&mut out, b.move_forward_button, Axis::Forward, false);
        self.push_step(&mut out, b.move_backward_button, Axis::Forward, true);
        self.push_step(&mut out, b.strafe_left_button, Axis::Right, true);
        self.push_step(&mut out, b.strafe_right_button, Axis::Right, false);
        self.push_step(&mut out, b.fly_up_button, Axis::Up, true);
        self.push_step(&mut out, b.fly_down_button, Axis::Up, false);
        assert(out@ =~= steps_of(self.keys@, *b));
        out
    }

    /// Whether `process_input` can take `e`.
    pub fn can_take(&self, e: Input) -> (r: bool)
        ensures
            r == self.accepts(e),
    {
        match e {
            Input::MouseReleased => self.position(self.mouse_key).is_some(),
            Input::MouseMoved(x, y) => x.checked_sub(self.mouse.0).is_some() && self.mouse.1.checked_sub(
                y,
            ).is_some(),
            _ => true,
        }
    }

    fn press(&mut self, key: u32)
        ensures
            final(self).keys@ == pressed(old(self).keys@, key),
            final(self).mouse == old(self).mouse,
            final(self).dx == old(self).dx,
            final(self).dy == old(self).dy,
            final(self).mouse_key == old(self).mouse_key,
    {
        if self.position(key).is_none() {
            self.keys.push(key);
        }
    }

    fn release(&mut self, key: u32)
        ensures
            final(self).keys@ == released(old(self).keys@, key),
            final(self).mouse == old(self).mouse,
            final(self).dx == old(self).dx,
            final(self).dy == old(self).dy,
            final(self).mouse_key == old(self).mouse_key,
    {
        if let Some(i) = self.position(key) {
            self.keys.remove(i);
        }
    }

    /// Takes one report of the window. A key that goes down joins the keys
    /// held unless it is among them; one that comes up leaves them. A mouse
    /// button does the same under the mouse code. A movement of the mouse
    /// records how far it went, to the right and upwards, and where it is.
    pub fn process_input(&mut self, e: Input)
        requires
            old(self).accepts(e),
        ensures
            final(self).keys@ == old(self).keys_after(e),
            final(self).mouse_key == old(self).mouse_key,
            match e {
                Input::MouseMoved(x, y) => {
                    &&& final(self).mouse == (x, y)
                    &&& final(self).dx == x - old(self).mouse.0
                    &&& final(self).dy == old(self).mouse.1 - y
                },
                _ => {
                    &&& final(self).mouse == old(self).mouse
                    &&& final(self).dx == old(self).dx
                    &&& final(self).dy == old(self).dy
                },
            },
    {
        match e {
            Input::KeyPressed(key) => self.press(key),
            Input::KeyReleased(key) => self.release(key),
            Input::MousePressed => {
                let key: u32 = self.mouse_key;
                self.press(key)
            },
            Input::MouseReleased => {
                let key: u32 = self.mouse_key;
                self.release(key)
            },
            Input::MouseMoved(x, y) => {
                self.dx = x - self.mouse.0;
                self.dy = self.mouse.1 - y;
                self.mouse = (x, y);
            },
            Input::Other => {},
        }
    }
}

} // verus!
