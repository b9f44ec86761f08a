//! The machine: three rotors, a reflector and a plugboard, with the stepping
//! that turns the rotors before each letter.
use vstd::prelude::*;
use crate::alphabet::{
    index_of_letter, is_letter, is_letter_char, is_upper, letter_in_case_of, letter_index,
    letter_like, upper_of,
};
use crate::plugboard::{is_plugging, plugging_of, swap, Plugboard};
use crate::rotor::{Rotor, RotorView};
use crate::wiring::{
    catalog_notch, catalog_wiring, is_reflector, lemma_catalog_wirings, lemma_reflector_b,
    reflector_b, reflector_wiring, rotor_notch, rotor_wiring, CATALOG_SIZE,
};

verus! {

/// What a machine is, mathematically. The rotors are named by their place,
/// left to right; the signal enters on the right.
pub struct MachineView {
    pub left: RotorView,
    pub middle: RotorView,
    pub right: RotorView,
    pub reflector: Seq<u8>,
    pub plugs: Seq<(u8, u8)>,
}

impl MachineView {
    pub open spec fn wf(self) -> bool {
        &&& self.left.wf()
        &&& self.middle.wf()
        &&& self.right.wf()
        &&& is_reflector(self.reflector)
        &&& is_plugging(self.plugs)
    }

    /// The rotors after one key press: the right rotor always turns; the
    /// middle one turns when the right one is at its notch, or when it is at
    /// its own notch (the double step); the left one turns when the middle one
    /// is at its notch. Every test reads the positions before the key press.
    pub open spec fn stepped(self) -> MachineView {
        MachineView {
            left: if self.middle.at_notch() {
                self.left.advanced()
            } else {
                self.left
            },
            middle: if self.right.at_notch() || self.middle.at_notch() {
                self.middle.advanced()
            } else {
                self.middle
            },
            right: self.right.advanced(),
            ..self
        }
    }

    /// The letter index that comes out when `x` goes in, with the rotors
    /// standing as they are: plugboard, rotors right to left, reflector,
    /// rotors left to right, plugboard.
    #[verifier::opaque]
    pub open spec fn signal(self, x: int) -> int {
        let a = swap(self.plugs, x);
        let b = self.right.forward(a);
        let c = self.middle.forward(b);
        let d = self.left.forward(c);
        let e = self.reflector[d] as int;
        let f = self.left.backward(e);
        let g = self.middle.backward(f);
        let h = self.right.backward(g);
        swap(self.plugs, h)
    }

    /// The machine and the character after pressing the key `c`. Letters
    /// step the rotors and are enciphered in their own case; every other
    /// character comes out as it went in, and nothing moves.
    pub open spec fn press(self, c: char) -> (MachineView, char) {
        if is_letter(c) {
            let m = self.stepped();
            (m, letter_like(m.signal(letter_index(c)), c))
        } else {
            (self, c)
        }
    }

    /// The machine and the text after typing `s`, one character after the
    /// other.
    pub open spec fn run(self, s: Seq<char>) -> (MachineView, Seq<char>)
        decreases s.len(),
    {
        if s.len() == 0 {
            (self, Seq::empty())
        } else {
            let (m, out) = self.run(s.drop_last());
            let (m2, c) = m.press(s.last());
            (m2, out.push(c))
        }
    }
}

/// Why a machine cannot be built.
#[derive(Debug, Clone, Copy, PartialEq, Eq)]
pub enum ConfigError {
    /// A rotor was chosen beyond the end of the catalog.
    UnknownRotor(usize),
    /// A ring setting or start position is not a letter from A to Z.
    BadLetter(char),
}

/// What is wrong with the settings of one rotor slot: its catalog index,
/// then its ring letter, then its start letter.
pub open spec fn slot_error(slot: (usize, char, char)) -> Option<ConfigError> {
    if slot.0 >= 3 {
        Some(ConfigError::UnknownRotor(slot.0))
    } else if !is_upper(slot.1) {
        Some(ConfigError::BadLetter(slot.1))
    } else if !is_upper(slot.2) {
        Some(ConfigError::BadLetter(slot.2))
    } else {
        None
    }
}

/// The first fault in the slots, left to right.
pub open spec fn config_error(rotors: [(usize, char, char); 3]) -> Option<ConfigError> {
    if slot_error(rotors[0]) is Some {
        slot_error(rotors[0])
    } else if slot_error(rotors[1]) is Some {
        slot_error(rotors[1])
    } else {
        slot_error(rotors[2])
    }
}

/// The rotor that a valid slot describes.
pub open spec fn slot_rotor(slot: (usize, char, char)) -> RotorView {
    RotorView {
        wiring: catalog_wiring(slot.0 as int),
        notch: catalog_notch(slot.0 as int) as int,
        position: letter_index(slot.2),
        ring_setting: letter_index(slot.1),
    }
}

/// The machine that valid settings describe, before any key press.
pub open spec fn configured(rotors: [(usize, char, char); 3], plugs: Seq<char>) -> MachineView {
    MachineView {
        left: slot_rotor(rotors[0]),
        middle: slot_rotor(rotors[1]),
        right: slot_rotor(rotors[2]),
        reflector: reflector_b(),
        plugs: plugging_of(plugs),
    }
}

pub struct EnigmaMachine {
    left: Rotor,
    middle: Rotor,
    right: Rotor,
    reflector: Vec<u8>,
    plugboard: Plugboard,
}

impl View for EnigmaMachine {
    type V = MachineView;

    closed spec fn view(&self) -> MachineView {
        MachineView {
            left: self.left@,
            middle: self.middle@,
            right: self.right@,
            reflector: self.reflector@,
            plugs: self.plugboard@,
        }
    }
}

fn slot_checked(slot: (usize, char, char)) -> (r: Option<ConfigError>)
    ensures
        r == slot_error(slot),
{
    let (idx, ring, start) = slot;
    if idx >= CATALOG_SIZE {
        Some(ConfigError::UnknownRotor(idx))
    } else if !('A' <= ring && ring <= 'Z') {
        Some(ConfigError::BadLetter(ring))
    } else if !('A' <= start && start <= 'Z') {
        Some(ConfigError::BadLetter(start))
    } else {
        None
    }
}

fn build_rotor(slot: (usize, char, char)) -> (r: Rotor)
    requires
        slot_error(slot) is None,
    ensures
        r@ == slot_rotor(slot),
        r@.wf(),
{
    let (idx, ring, start) = slot;
    proof {
        lemma_catalog_wirings(idx as int);
    }
    Rotor::new(rotor_wiring(idx), rotor_notch(idx), index_of_letter(start), index_of_letter(ring))
}

impl EnigmaMachine {
    /// Builds a machine from three `(catalog index, ring letter, start
    /// letter)` slots, left to right, a reflector selector and a plugboard
    /// settings string. Every selector gives reflector B. A slot whose index is
    /// past the catalog, or whose letters are not A to Z, is refused.
    pub fn new(rotors: [(usize, char, char); 3], reflector_type: char, plugboard_pairs: &str) -> (r:
        Result<EnigmaMachine, ConfigError>)
        ensures
            r is Err <==> config_error(rotors) is Some,
            r matches Err(e) ==> config_error(rotors) == Some(e),
            r matches Ok(m) ==> m@ == configured(rotors, plugboard_pairs@) && m@.wf(),
    {
        let mut i: usize = 0;
        while i < 3
            invariant
                i <= 3,
                forall|j: int| 0 <= j < i ==> slot_error(#[trigger] rotors[j]) is None,
            decreases 3 - i,
        {
            match slot_checked(rotors[i]) {
                Some(e) => {
                    return Err(e);
                },
                None => {},
            }
            i = i + 1;
        }
        proof {
            lemma_reflector_b();
        }
        let m = EnigmaMachine {
            left: build_rotor(rotors[0]),
            middle: build_rotor(rotors[1]),
            right: build_rotor(rotors[2]),
            reflector: reflector_wiring(reflector_type),
            plugboard: Plugboard::parse(plugboard_pairs),
        };
        Ok(m)
    }

    /// Turns the rotors for one key press.
    fn step_rotors(&mut self)
        requires
            old(self)@.wf(),
        ensures
            final(self)@ == old(self)@.stepped(),
    {
        let right_at_notch = self.right.at_notch();
        let middle_at_notch = self.middle.at_notch();
        if middle_at_notch {
            self.left.advance();
        }
        if right_at_notch || middle_at_notch {
            self.middle.advance();
        }
        self.right.advance();
    }

    /// The letter index that comes out when `x` goes in.
    fn signal(&self, x: u8) -> (y: u8)
        requires
            self@.wf(),
            x < 26,
        ensures
            y == self@.signal(x as int),
            y < 26,
    {
        proof {
            reveal(MachineView::signal);
        }
        let a = self.plugboard.map_index(x);
        let b = self.right.forward(a);
        let c = self.middle.forward(b);
        let d = self.left.forward(c);
        let e = self.reflector[d as usize];
        let f = self.left.backward(e);
        let g = self.middle.backward(f);
        let h = self.right.backward(g);
        self.plugboard.map_index(h)
    }

    /// Presses the key `c`: a letter of either case steps the rotors and is
    /// enciphered, keeping its case; any other character is returned as it
    /// is and moves nothing.
    pub fn process_char(&mut self, c: char) -> (d: char)
        requires
            old(self)@.wf(),
        ensures
            (final(self)@, d) == old(self)@.press(c),
            final(self)@.wf(),
    {
        if !is_letter_char(c) {
            return c;
        }
        let x = index_of_letter(c);
        self.step_rotors();
        let y = self.signal(x);
        letter_in_case_of(y, c)
    }

    /// Types `text` character by character. Enciphering and deciphering are
    /// this same operation on machines set up alike.
    pub fn process_text(&mut self, text: &str) -> (r: String)
        requires
            old(self)@.wf(),
        ensures
            (final(self)@, r@) == old(self)@.run(text@),
            final(self)@.wf(),
    {
        let ghost start = self@;
        let mut out = String::new();
        for c in it: text.chars()
            invariant
                it.seq() == text@,
                self@.wf(),
                (self@, out@) == start.run(text@.take(it.index() as int)),
        {
            proof {
                assert(text@.take(it.index() + 1).drop_last() =~= text@.take(it.index() as int));
            }
            let d = self.process_char(c);
            push_char(&mut out, d);
        }
        proof {
            assert(text@.take(text@.len() as int) =~= text@);
        }
        out
    }

    /// The letters that the rotors show, left to right.
    pub fn rotor_positions(&self) -> (p: [char; 3])
        requires
            self@.wf(),
        ensures
            p@ == seq![
                upper_of(self@.left.position),
                upper_of(self@.middle.position),
                upper_of(self@.right.position),
            ],
    {
        let p = [
            letter_in_case_of(self.left.position(), 'A'),
            letter_in_case_of(self.middle.position(), 'A'),
            letter_in_case_of(self.right.position(), 'A'),
        ];
        assert(p@ =~= seq![
            upper_of(self@.left.position),
            upper_of(self@.middle.position),
            upper_of(self@.right.position),
        ]);
        p
    }
}

/// Relies on `String::push`: appends one character at the end.
#[verifier::external_body]
fn push_char(s: &mut String, c: char)
    ensures
        final(s)@ == old(s)@.push(c),
{
    s.push(c);
}

} // verus!
