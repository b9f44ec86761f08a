//! A rotor: a wiring turned by its position relative to its ring setting.
use vstd::prelude::*;
use crate::wiring::{inverse, is_wiring, lemma_inverse};

verus! {

/// What a rotor is, mathematically.
pub struct RotorView {
    pub wiring: Seq<u8>,
    pub notch: int,
    pub position: int,
    pub ring_setting: int,
}

impl RotorView {
    pub open spec fn wf(self) -> bool {
        &&& is_wiring(self.wiring)
        &&& 0 <= self.notch < 26
        &&& 0 <= self.position < 26
        &&& 0 <= self.ring_setting < 26
    }

    /// How far the wiring is turned against the contacts.
    pub open spec fn offset(self) -> int {
        (self.position - self.ring_setting) % 26
    }

    /// Signal entering on the right at index `x`, leaving on the left.
    pub open spec fn forward(self, x: int) -> int {
        (self.wiring[(x + self.offset()) % 26] - self.offset()) % 26
    }

    /// Signal entering on the left at index `y`, leaving on the right.
    pub open spec fn backward(self, y: int) -> int {
        (inverse(self.wiring, (y + self.offset()) % 26) - self.offset()) % 26
    }

    pub open spec fn at_notch(self) -> bool {
        self.position == self.notch
    }

    /// The same rotor turned on by one position.
    pub open spec fn advanced(self) -> RotorView {
        RotorView { position: (self.position + 1) % 26, ..self }
    }
}

/// The backward pass undoes the forward pass, and the other way round.
pub proof fn lemma_rotor_inverse(r: RotorView, x: int)
    requires
        r.wf(),
        0 <= x < 26,
    ensures
        0 <= r.forward(x) < 26,
        0 <= r.backward(x) < 26,
        r.backward(r.forward(x)) == x,
        r.forward(r.backward(x)) == x,
{
    let off = r.offset();
    let i = (x + off) % 26;
    assert(r.wiring[i] < 26);
    let f = r.forward(x);
    assert((f + off) % 26 == r.wiring[i] as int) by {
        assert(((r.wiring[i] - off) % 26 + off) % 26 == r.wiring[i] as int);
    }
    lemma_inverse(r.wiring, r.wiring[i] as int);
    assert(inverse(r.wiring, r.wiring[i] as int) == i);
    assert((i - off) % 26 == x);
    lemma_inverse(r.wiring, (x + off) % 26);
    let j = inverse(r.wiring, (x + off) % 26);
    let b = r.backward(x);
    assert((b + off) % 26 == j);
    assert(r.wiring[j] as int == (x + off) % 26);
    assert((r.wiring[j] - off) % 26 == x);
}

pub struct Rotor {
    wiring: Vec<u8>,
    notch: u8,
    position: u8,
    ring_setting: u8,
}

impl View for Rotor {
    type V = RotorView;

    closed spec fn view(&self) -> RotorView {
        RotorView {
            wiring: self.wiring@,
            notch: self.notch as int,
            position: self.position as int,
            ring_setting: self.ring_setting as int,
        }
    }
}

impl Rotor {
    pub fn new(wiring: Vec<u8>, notch: u8, position: u8, ring_setting: u8) -> (r: Rotor)
        ensures
            r@ == (RotorView {
                wiring: wiring@,
                notch: notch as int,
                position: position as int,
                ring_setting: ring_setting as int,
            }),
    {
        Rotor { wiring, notch, position, ring_setting }
    }

    pub fn position(&self) -> (p: u8)
        ensures
            p == self@.position,
    {
        self.position
    }

    pub fn at_notch(&self) -> (b: bool)
        ensures
            b == self@.at_notch(),
    {
        self.position == self.notch
    }

    pub fn advance(&mut self)
        requires
            old(self)@.wf(),
        ensures
            final(self)@ == old(self)@.advanced(),
    {
        self.position = (self.position + 1) % 26;
    }

    fn offset(&self) -> (o: usize)
        requires
            self@.wf(),
        ensures
            o == self@.offset(),
            o < 26,
    {
        (self.position as usize + 26 - self.ring_setting as usize) % 26
    }

    pub fn forward(&self, x: u8) -> (y: u8)
        requires
            self@.wf(),
            x < 26,
        ensures
            y == self@.forward(x as int),
            y < 26,
    {
        let off = self.offset();
        let out = self.wiring[(x as usize + off) % 26];
        ((out as usize + 26 - off) % 26) as u8
    }

    pub fn backward(&self, y: u8) -> (x: u8)
        requires
            self@.wf(),
            y < 26,
        ensures
            x == self@.backward(y as int),
            x < 26,
    {
        let off = self.offset();
        let target = ((y as usize + off) % 26) as u8;
        proof {
            lemma_inverse(self@.wiring, target as int);
        }
        let mut i: usize = 0;
        while i < 26
            invariant
                self@.wf(),
                target < 26,
                target == (y + self@.offset()) % 26,
                off == self@.offset(),
                off < 26,
                i <= 26,
                forall|j: int| 0 <= j < i ==> self.wiring@[j] != target,
                0 <= inverse(self@.wiring, target as int) < 26,
                self.wiring@[inverse(self@.wiring, target as int)] == target,
            decreases 26 - i,
        {
            if self.wiring[i] == target {
                proof {
                    assert(inverse(self@.wiring, target as int) == i);
                }
                return ((i + 26 - off) % 26) as u8;
            }
            i = i + 1;
        }
        proof {
            let j = inverse(self@.wiring, target as int);
            assert(self.wiring@[j] != target);
        }
        0
    }
}

} // verus!
