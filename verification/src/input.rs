//! Player input representation: button bitfields, clamped analog axes, and
//! the per-frame input records the synchronization core stores and compares.

use vstd::prelude::*;

verus! {

/// Identifies a physical key or pad button on the host's input device.
pub type KeyId = u32;

/// Bitfield of the digital action buttons. Bit 0 is attack, bit 1 special,
/// bit 2 jump, bit 3 shield, bit 4 grab.
#[derive(Clone, Copy, Debug, PartialEq, Eq, Structural)]
pub struct Buttons {
    pub bits: u8,
}

impl Default for Buttons {
    fn default() -> (r: Self)
        ensures
            r.bits == 0,
    {
        Buttons { bits: 0 }
    }
}

impl Buttons {
    pub open spec fn spec_attack(self) -> bool {
        self.bits & 1 != 0
    }

    pub open spec fn spec_special(self) -> bool {
        self.bits & 2 != 0
    }

    pub open spec fn spec_jump(self) -> bool {
        self.bits & 4 != 0
    }

    pub open spec fn spec_shield(self) -> bool {
        self.bits & 8 != 0
    }

    pub open spec fn spec_grab(self) -> bool {
        self.bits & 16 != 0
    }

    pub fn empty() -> (r: Self)
        ensures
            r.bits == 0,
    {
        Buttons { bits: 0 }
    }

    pub fn attack(&self) -> (r: bool)
        ensures
            r == self.spec_attack(),
    {
        self.bits & 1 != 0
    }

    pub fn special(&self) -> (r: bool)
        ensures
            r == self.spec_special(),
    {
        self.bits & 2 != 0
    }

    pub fn jump(&self) -> (r: bool)
        ensures
            r == self.spec_jump(),
    {
        self.bits & 4 != 0
    }

    pub fn shield(&self) -> (r: bool)
        ensures
            r == self.spec_shield(),
    {
        self.bits & 8 != 0
    }

    pub fn grab(&self) -> (r: bool)
        ensures
            r == self.spec_grab(),
    {
        self.bits & 16 != 0
    }

    pub fn set_attack(&mut self, value: bool)
        ensures
            final(self).bits == (if value {
                old(self).bits | 1
            } else {
                old(self).bits & !1
            }),
    {
        self.set_value(Buttons { bits: 1 }, value);
    }

    pub fn set_special(&mut self, value: bool)
        ensures
            final(self).bits == (if value {
                old(self).bits | 2
            } else {
                old(self).bits & !2
            }),
    {
        self.set_value(Buttons { bits: 2 }, value);
    }

    pub fn set_jump(&mut self, value: bool)
        ensures
            final(self).bits == (if value {
                old(self).bits | 4
            } else {
                old(self).bits & !4
            }),
    {
        self.set_value(Buttons { bits: 4 }, value);
    }

    pub fn set_shield(&mut self, value: bool)
        ensures
            final(self).bits == (if value {
                old(self).bits | 8
            } else {
                old(self).bits & !8
            }),
    {
        self.set_value(Buttons { bits: 8 }, value);
    }

    pub fn set_grab(&mut self, value: bool)
        ensures
            final(self).bits == (if value {
                old(self).bits | 16
            } else {
                old(self).bits & !16
            }),
    {
        self.set_value(Buttons { bits: 16 }, value);
    }

    /// Sets or clears every flag of `flags` at once.
    pub fn set_value(&mut self, flags: Buttons, value: bool)
        ensures
            final(self).bits == (if value {
                old(self).bits | flags.bits
            } else {
                old(self).bits & !flags.bits
            }),
    {
        if value {
            self.bits = self.bits | flags.bits;
        } else {
            self.bits = self.bits & !flags.bits;
        }
    }
}

/// Wraps an out-of-range two's-complement value into `i8` range. Used to
/// state the exact result of the axis arithmetic below.
pub open spec fn wrap_i8(x: int) -> int {
    if x < -128 {
        x + 256
    } else if x > 127 {
        x - 256
    } else {
        x
    }
}

/// One analog axis, stored as a signed byte (-128 = full negative,
/// 127 = full positive).
#[derive(Clone, Copy, Debug, PartialEq, Eq, Structural)]
pub struct Axis1D(pub i8);

impl Default for Axis1D {
    fn default() -> (r: Self)
        ensures
            r.0 == 0,
    {
        Axis1D(0)
    }
}

impl Axis1D {
    /// The value `add` returns: the sum capped above at 127, wrapped into
    /// `i8` range.
    pub open spec fn spec_add(self, rhs: Self) -> Axis1D {
        Axis1D(
            wrap_i8(
                if self.0 + rhs.0 > 127 {
                    127int
                } else {
                    self.0 + rhs.0
                },
            ) as i8,
        )
    }

    /// The value `sub` returns: the difference capped below at -128,
    /// wrapped into `i8` range.
    pub open spec fn spec_sub(self, rhs: Self) -> Axis1D {
        Axis1D(
            wrap_i8(
                if self.0 - rhs.0 < -128 {
                    -128int
                } else {
                    self.0 - rhs.0
                },
            ) as i8,
        )
    }

    /// Sum of two axis values, capped above at 127; sums below -128 wrap as
    /// two's-complement bytes.
    pub fn add(self, rhs: Self) -> (r: Self)
        ensures
            r == self.spec_add(rhs),
    {
        let wide: i16 = (self.0 as i16) + (rhs.0 as i16);
        let capped: i16 = if wide > 127 {
            127
        } else {
            wide
        };
        let wrapped: i16 = if capped < -128 {
            capped + 256
        } else {
            capped
        };
        Axis1D(wrapped as i8)
    }

    /// Difference of two axis values, capped below at -128; differences
    /// above 127 wrap as two's-complement bytes.
    pub fn sub(self, rhs: Self) -> (r: Self)
        ensures
            r == self.spec_sub(rhs),
    {
        let wide: i16 = (self.0 as i16) - (rhs.0 as i16);
        let capped: i16 = if wide < -128 {
            -128
        } else {
            wide
        };
        let wrapped: i16 = if capped > 127 {
            capped - 256
        } else {
            capped
        };
        Axis1D(wrapped as i8)
    }
}

/// A two-dimensional analog stick position.
#[derive(Clone, Copy, Debug, PartialEq, Eq, Structural)]
pub struct Axis2D {
    pub x: Axis1D,
    pub y: Axis1D,
}

impl Default for Axis2D {
    fn default() -> (r: Self)
        ensures
            r.x.0 == 0,
            r.y.0 == 0,
    {
        Axis2D { x: Axis1D(0), y: Axis1D(0) }
    }
}

impl Axis2D {
    pub open spec fn spec_add(self, rhs: Self) -> Axis2D {
        Axis2D { x: self.x.spec_add(rhs.x), y: self.y.spec_add(rhs.y) }
    }

    pub open spec fn spec_sub(self, rhs: Self) -> Axis2D {
        Axis2D { x: self.x.spec_sub(rhs.x), y: self.y.spec_sub(rhs.y) }
    }

    pub fn add(self, rhs: Self) -> (r: Self)
        ensures
            r == self.spec_add(rhs),
    {
        Axis2D { x: self.x.add(rhs.x), y: self.y.add(rhs.y) }
    }

    pub fn sub(self, rhs: Self) -> (r: Self)
        ensures
            r == self.spec_sub(rhs),
    {
        Axis2D { x: self.x.sub(rhs.x), y: self.y.sub(rhs.y) }
    }
}

/// Everything one player pressed during one frame. This is the unit the
/// input queues store, predict and compare.
#[derive(Clone, Copy, Debug, PartialEq, Eq, Structural)]
pub struct PlayerInputFrame {
    pub movement: Axis2D,
    pub smash: Axis2D,
    pub buttons: Buttons,
}

impl Default for PlayerInputFrame {
    fn default() -> (r: Self)
        ensures
            r == PlayerInputFrame::neutral(),
    {
        PlayerInputFrame {
            movement: Axis2D { x: Axis1D(0), y: Axis1D(0) },
            smash: Axis2D { x: Axis1D(0), y: Axis1D(0) },
            buttons: Buttons { bits: 0 },
        }
    }
}

impl PlayerInputFrame {
    /// The neutral value substituted for disconnected players and used
    /// before any input is known.
    pub open spec fn neutral() -> PlayerInputFrame {
        PlayerInputFrame {
            movement: Axis2D { x: Axis1D(0), y: Axis1D(0) },
            smash: Axis2D { x: Axis1D(0), y: Axis1D(0) },
            buttons: Buttons { bits: 0 },
        }
    }
}

/// The current and previous frame of one player's input, kept together so
/// edges (presses and releases) can be derived.
#[derive(Clone, Copy, Debug, PartialEq, Eq, Structural)]
pub struct PlayerInput {
    pub previous: PlayerInputFrame,
    pub current: PlayerInputFrame,
}

impl PlayerInput {
    /// Rolls the window forward: the current frame becomes the previous one.
    pub fn tick(&mut self)
        ensures
            final(self).previous == old(self).current,
            final(self).current == old(self).current,
    {
        self.previous = self.current;
    }

    /// Buttons held now and not held on the previous frame: the buttons
    /// newly pressed this frame.
    pub fn was_pressed(&self) -> (r: Buttons)
        ensures
            r.bits == self.current.buttons.bits & !self.previous.buttons.bits,
    {
        Buttons { bits: self.current.buttons.bits & !self.previous.buttons.bits }
    }

    /// Buttons held on the previous frame and no longer held now: the
    /// buttons released this frame.
    pub fn was_released(&self) -> (r: Buttons)
        ensures
            r.bits == self.previous.buttons.bits & !self.current.buttons.bits,
    {
        Buttons { bits: self.previous.buttons.bits & !self.current.buttons.bits }
    }

    /// Change in the movement axis since the previous frame.
    pub fn move_diff(&self) -> (r: Axis2D)
        ensures
            r == self.current.movement.spec_sub(self.previous.movement),
    {
        self.current.movement.sub(self.previous.movement)
    }

    /// Change in the smash axis since the previous frame.
    pub fn smash_diff(&self) -> (r: Axis2D)
        ensures
            r == self.current.smash.spec_sub(self.previous.smash),
    {
        self.current.smash.sub(self.previous.smash)
    }
}

/// A positive and a negative key that together drive one axis.
#[derive(Clone, Copy, Debug, PartialEq, Eq, Structural)]
pub struct ButtonAxis1D {
    pub pos: KeyId,
    pub neg: KeyId,
}

impl ButtonAxis1D {
    /// The axis value that follows from which of the two keys are pressed:
    /// both or neither give 0, only the positive key gives 127, only the
    /// negative key gives -128.
    pub open spec fn spec_sample(self, pressed: Seq<KeyId>) -> Axis1D {
        if pressed.contains(self.pos) {
            if pressed.contains(self.neg) {
                Axis1D(0i8)
            } else {
                Axis1D(127i8)
            }
        } else {
            if pressed.contains(self.neg) {
                Axis1D(-128i8)
            } else {
                Axis1D(0i8)
            }
        }
    }

    pub fn sample(&self, pressed: &Vec<KeyId>) -> (r: Axis1D)
        ensures
            r == self.spec_sample(pressed@),
    {
        let p = contains_key(pressed, self.pos);
        let n = contains_key(pressed, self.neg);
        if p && n {
            Axis1D(0)
        } else if p {
            Axis1D(127)
        } else if n {
            Axis1D(-128)
        } else {
            Axis1D(0)
        }
    }
}

/// Two key-pairs that drive a two-dimensional axis.
#[derive(Clone, Copy, Debug, PartialEq, Eq, Structural)]
pub struct ButtonAxis2D {
    pub horizontal: ButtonAxis1D,
    pub vertical: ButtonAxis1D,
}

impl ButtonAxis2D {
    pub fn sample(&self, pressed: &Vec<KeyId>) -> (r: Axis2D)
        ensures
            r.x == self.horizontal.spec_sample(pressed@),
            r.y == self.vertical.spec_sample(pressed@),
    {
        Axis2D { x: self.horizontal.sample(pressed), y: self.vertical.sample(pressed) }
    }
}

/// Maps each action button to the keys that can trigger it.
#[derive(Clone, Debug)]
pub struct ButtonMapping(pub Vec<(Buttons, Vec<KeyId>)>);

impl ButtonMapping {
    /// Whether some key bound to `button` is currently pressed.
    pub open spec fn spec_evaluate(self, button: Buttons, pressed: Seq<KeyId>) -> bool {
        exists|i: int|
            0 <= i < self.0@.len() && (#[trigger] self.0@[i]).0 == button && exists|j: int|
                0 <= j < self.0@[i].1@.len() && pressed.contains(self.0@[i].1@[j])
    }

    pub fn evaluate(&self, button: Buttons, pressed: &Vec<KeyId>) -> (r: bool)
        ensures
            r == self.spec_evaluate(button, pressed@),
    {
        let n = self.0.len();
        for i in 0..n
            invariant
                n == self.0@.len(),
                forall|k: int|
                    0 <= k < i ==> !((#[trigger] self.0@[k]).0 == button && exists|j: int|
                        0 <= j < self.0@[k].1@.len() && pressed@.contains(self.0@[k].1@[j])),
        {
            let entry = &self.0[i];
            if entry.0 == button {
                if any_key_pressed(&entry.1, pressed) {
                    return true;
                }
            }
        }
        false
    }

    /// Evaluates every action button against the pressed-key set at once.
    pub fn evaluate_all(&self, pressed: &Vec<KeyId>) -> (r: Buttons)
        ensures
            r.spec_attack() == self.spec_evaluate(Buttons { bits: 1 }, pressed@),
            r.spec_special() == self.spec_evaluate(Buttons { bits: 2 }, pressed@),
            r.spec_jump() == self.spec_evaluate(Buttons { bits: 4 }, pressed@),
            r.spec_shield() == self.spec_evaluate(Buttons { bits: 8 }, pressed@),
            r.spec_grab() == self.spec_evaluate(Buttons { bits: 16 }, pressed@),
    {
        let b1: u8 = if self.evaluate(Buttons { bits: 1 }, pressed) {
            1
        } else {
            0
        };
        let b2: u8 = if self.evaluate(Buttons { bits: 2 }, pressed) {
            2
        } else {
            0
        };
        let b4: u8 = if self.evaluate(Buttons { bits: 4 }, pressed) {
            4
        } else {
            0
        };
        let b8: u8 = if self.evaluate(Buttons { bits: 8 }, pressed) {
            8
        } else {
            0
        };
        let b16: u8 = if self.evaluate(Buttons { bits: 16 }, pressed) {
            16
        } else {
            0
        };
        let bits: u8 = b1 | b2 | b4 | b8 | b16;
        proof {
            assert((((b1 | b2 | b4 | b8 | b16) & 1 != 0) == (b1 == 1)) && (((b1 | b2 | b4 | b8
                | b16) & 2 != 0) == (b2 == 2)) && (((b1 | b2 | b4 | b8 | b16) & 4 != 0) == (b4
                == 4)) && (((b1 | b2 | b4 | b8 | b16) & 8 != 0) == (b8 == 8)) && (((b1 | b2 | b4
                | b8 | b16) & 16 != 0) == (b16 == 16))) by (bit_vector)
                requires
                    b1 == 1 || b1 == 0,
                    b2 == 2 || b2 == 0,
                    b4 == 4 || b4 == 0,
                    b8 == 8 || b8 == 0,
                    b16 == 16 || b16 == 0,
            ;
        }
        Buttons { bits }
    }
}

/// Whether `keys` contains `key`.
pub fn contains_key(keys: &Vec<KeyId>, key: KeyId) -> (r: bool)
    ensures
        r == keys@.contains(key),
{
    let n = keys.len();
    for i in 0..n
        invariant
            n == keys@.len(),
            forall|k: int| 0 <= k < i ==> keys@[k] != key,
    {
        if keys[i] == key {
            return true;
        }
    }
    false
}

/// Whether any key of `keys` appears in `pressed`.
pub fn any_key_pressed(keys: &Vec<KeyId>, pressed: &Vec<KeyId>) -> (r: bool)
    ensures
        r == exists|j: int| 0 <= j < keys@.len() && pressed@.contains(#[trigger] keys@[j]),
{
    let n = keys.len();
    for i in 0..n
        invariant
            n == keys@.len(),
            forall|k: int| 0 <= k < i ==> !pressed@.contains(#[trigger] keys@[k]),
    {
        if contains_key(pressed, keys[i]) {
            return true;
        }
    }
    false
}

} // verus!
