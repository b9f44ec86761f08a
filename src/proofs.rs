//! What holds of every machine: the cipher undoes itself, never leaves a
//! letter in place, ignores case, and lets other characters through.
use vstd::prelude::*;
use crate::alphabet::{is_letter, is_lower, is_upper, letter_index, letter_like, to_upper, upper_of};
use crate::machine::MachineView;
use crate::plugboard::{
    is_separator, lemma_scan, lemma_swap_cable, lemma_swap_involution, plugged, plugging_of, scan,
    swap,
};
use crate::rotor::lemma_rotor_inverse;

verus! {

/// Letters keep their index and case through `letter_like`.
proof fn lemma_letter_like(i: int, like: char)
    requires
        0 <= i < 26,
    ensures
        is_letter(letter_like(i, like)),
        letter_index(letter_like(i, like)) == i,
        is_lower(letter_like(i, like)) == is_lower(like),
        is_letter(like) ==> letter_like(letter_index(like), like) == like,
        to_upper(letter_like(i, like)) == upper_of(i),
{
}

/// Key presses keep a machine well formed.
pub proof fn lemma_stepped_wf(m: MachineView)
    requires
        m.wf(),
    ensures
        m.stepped().wf(),
{
}

/// The signal path is a permutation that is its own inverse and moves every
/// letter.
pub proof fn lemma_signal(m: MachineView, x: int)
    requires
        m.wf(),
        0 <= x < 26,
    ensures
        0 <= m.signal(x) < 26,
        m.signal(m.signal(x)) == x,
        m.signal(x) != x,
{
    reveal(MachineView::signal);
    lemma_swap_involution(m.plugs, x);
    let a = swap(m.plugs, x);
    lemma_rotor_inverse(m.right, a);
    let b = m.right.forward(a);
    lemma_rotor_inverse(m.middle, b);
    let c = m.middle.forward(b);
    lemma_rotor_inverse(m.left, c);
    let d = m.left.forward(c);
    let e = m.reflector[d] as int;
    lemma_rotor_inverse(m.left, e);
    let f = m.left.backward(e);
    lemma_rotor_inverse(m.middle, f);
    let g = m.middle.backward(f);
    lemma_rotor_inverse(m.right, g);
    let h = m.right.backward(g);
    lemma_swap_involution(m.plugs, h);
    let y = swap(m.plugs, h);
    assert(m.signal(x) == y);
    assert(m.signal(y) == x);
    if y == x {
        assert(h == a);
        assert(g == b);
        assert(f == c);
        assert(e == d);
    }
}

/// Pressing the key that came out, on the machine as it stood before,
/// gives back the key that went in and leaves the rotors in the same place.
pub proof fn lemma_press_reciprocal(m: MachineView, c: char)
    requires
        m.wf(),
    ensures
        m.press(m.press(c).1) == (m.press(c).0, c),
        m.press(c).0.wf(),
        is_letter(c) ==> m.press(c).1 != c,
        is_letter(m.press(c).1) == is_letter(c),
        m.press(to_upper(c)) == (m.press(c).0, to_upper(m.press(c).1)),
{
    if is_letter(c) {
        let s = m.stepped();
        lemma_stepped_wf(m);
        let x = letter_index(c);
        lemma_signal(s, x);
        let y = s.signal(x);
        lemma_letter_like(y, c);
        lemma_letter_like(x, letter_like(y, c));
        lemma_letter_like(x, c);
        lemma_letter_like(s.signal(x), to_upper(c));
    }
}

/// A run keeps the machine well formed.
pub proof fn lemma_run_wf(m: MachineView, s: Seq<char>)
    requires
        m.wf(),
    ensures
        m.run(s).0.wf(),
    decreases s.len(),
{
    if s.len() > 0 {
        lemma_run_wf(m, s.drop_last());
        lemma_press_reciprocal(m.run(s.drop_last()).0, s.last());
    }
}

/// A run gives one character per
/// character typed, each the key press of its own.
pub proof fn lemma_run(m: MachineView, s: Seq<char>)
    requires
        m.wf(),
    ensures
        m.run(s).1.len() == s.len(),
        forall|i: int|
            0 <= i < s.len() ==> #[trigger] m.run(s).1[i] == m.run(s.take(i)).0.press(s[i]).1,
        forall|i: int| 0 <= i < s.len() ==> (#[trigger] m.run(s.take(i)).0).wf(),
    decreases s.len(),
{
    if s.len() > 0 {
        let t = s.drop_last();
        lemma_run(m, t);
        lemma_run_wf(m, t);
        lemma_press_reciprocal(m.run(t).0, s.last());
        assert forall|i: int| 0 <= i < t.len() implies s.take(i) == t.take(i) by {
            assert(s.take(i) =~= t.take(i));
        }
        assert(s.take(t.len() as int) =~= t);
    }
}

/// Reciprocity: a second machine set up like the first turns the output of
/// the first back into its input, and ends with its rotors in the same
/// place.
pub proof fn lemma_reciprocity(m: MachineView, s: Seq<char>)
    requires
        m.wf(),
    ensures
        m.run(m.run(s).1) == (m.run(s).0, s),
    decreases s.len(),
{
    if s.len() > 0 {
        let t = s.drop_last();
        lemma_reciprocity(m, t);
        lemma_run_wf(m, t);
        let m1 = m.run(t).0;
        let o1 = m.run(t).1;
        let c = s.last();
        let m2 = m1.press(c).0;
        let d = m1.press(c).1;
        lemma_press_reciprocal(m1, c);
        let o = o1.push(d);
        assert(m.run(s) == (m2, o));
        assert(o.drop_last() =~= o1);
        assert(m.run(o1) == (m1, t));
        assert(m.run(o) == (m1.press(d).0, t.push(m1.press(d).1)));
        assert(m1.press(d) == (m2, c));
        assert(t.push(c) =~= s);
    }
}

/// No letter is ever enciphered to itself, so a non-empty text of letters
/// never comes out unchanged.
pub proof fn lemma_no_letter_to_itself(m: MachineView, s: Seq<char>)
    requires
        m.wf(),
    ensures
        forall|i: int| 0 <= i < s.len() && is_letter(s[i]) ==> #[trigger] m.run(s).1[i] != s[i],
        s.len() > 0 && (forall|i: int| 0 <= i < s.len() ==> is_letter(#[trigger] s[i])) ==> m.run(
            s,
        ).1 != s,
{
    lemma_run(m, s);
    assert forall|i: int| 0 <= i < s.len() && is_letter(s[i]) implies #[trigger] m.run(s).1[i]
        != s[i] by {
        lemma_press_reciprocal(m.run(s.take(i)).0, s[i]);
    }
    if s.len() > 0 && (forall|i: int| 0 <= i < s.len() ==> is_letter(#[trigger] s[i])) {
        assert(m.run(s).1[0] != s[0]);
    }
}

/// Upper-case form of a text.
pub open spec fn upper_text(s: Seq<char>) -> Seq<char> {
    s.map_values(|c: char| to_upper(c))
}

/// Case does not reach the cipher: typing the upper-case form of a text
/// gives the upper-case form of its output, and moves the rotors alike.
pub proof fn lemma_case_blind(m: MachineView, s: Seq<char>)
    requires
        m.wf(),
    ensures
        m.run(upper_text(s)) == (m.run(s).0, upper_text(m.run(s).1)),
        forall|i: int|
            0 <= i < s.len() ==> is_lower(#[trigger] m.run(s).1[i]) == is_lower(s[i]),
    decreases s.len(),
{
    lemma_run(m, s);
    if s.len() > 0 {
        let t = s.drop_last();
        lemma_case_blind(m, t);
        lemma_run(m, t);
        assert(upper_text(s).drop_last() =~= upper_text(t));
        lemma_press_reciprocal(m.run(t).0, s.last());
        assert(upper_text(m.run(s).1) =~= upper_text(m.run(t).1).push(
            to_upper(m.run(t).0.press(s.last()).1),
        ));
        assert forall|i: int| 0 <= i < s.len() implies is_lower(#[trigger] m.run(s).1[i])
            == is_lower(s[i]) by {
            let c = s[i];
            let k = m.run(s.take(i)).0;
            if is_letter(c) {
                lemma_stepped_wf(k);
                lemma_signal(k.stepped(), letter_index(c));
                lemma_letter_like(k.stepped().signal(letter_index(c)), c);
            }
        }
    }
}

/// Characters other than letters come out where they went in, and do not
/// move the rotors: the rotors end as if only the letters had been typed.
pub proof fn lemma_pass_through(m: MachineView, s: Seq<char>)
    requires
        m.wf(),
    ensures
        forall|i: int| 0 <= i < s.len() && !is_letter(s[i]) ==> #[trigger] m.run(s).1[i] == s[i],
        m.run(s).0 == m.run(s.filter(|c: char| is_letter(c))).0,
    decreases s.len(),
{
    lemma_run(m, s);
    reveal(Seq::filter);
    if s.len() > 0 {
        let t = s.drop_last();
        lemma_pass_through(m, t);
        let f = s.filter(|c: char| is_letter(c));
        let g = t.filter(|c: char| is_letter(c));
        if is_letter(s.last()) {
            assert(f == g.push(s.last()));
            assert(f.drop_last() =~= g);
        } else {
            assert(f == g);
        }
    }
}

/// Settings of one token of two different upper-case letters
/// connects exactly those two letters.
pub proof fn lemma_single_cable(a: char, b: char, x: int)
    requires
        is_upper(a),
        is_upper(b),
        a != b,
        0 <= x < 26,
    ensures
        swap(plugging_of(seq![a, b]), letter_index(a)) == letter_index(b),
        swap(plugging_of(seq![a, b]), letter_index(b)) == letter_index(a),
        x != letter_index(a) && x != letter_index(b) ==> swap(plugging_of(seq![a, b]), x) == x,
{
    let s = seq![a, b];
    reveal_with_fuel(scan, 3);
    assert(s.drop_last() =~= seq![a]);
    assert(seq![a].drop_last() =~= Seq::<char>::empty());
    assert(!is_separator(a) && !is_separator(b));
    assert(scan(seq![a]) == (Seq::<(u8, u8)>::empty(), seq![a])) by {
        assert(Seq::<char>::empty().push(a) =~= seq![a]);
    }
    assert(scan(s).1 =~= seq![a, b]);
    let p = plugging_of(s);
    assert(p =~= seq![(letter_index(a) as u8, letter_index(b) as u8)]);
    lemma_scan(s);
    assert(plugged(p[0], letter_index(a)));
    lemma_swap_cable(p, 0, letter_index(a));
    assert(plugged(p[0], letter_index(b)));
    lemma_swap_cable(p, 0, letter_index(b));
}

/// Every plugboard that settings describe swaps in pairs: a letter
/// swapped twice is the letter itself.
pub proof fn lemma_plugboard_involution(settings: Seq<char>, x: int)
    requires
        0 <= x < 26,
    ensures
        swap(plugging_of(settings), swap(plugging_of(settings), x)) == x,
{
    lemma_scan(settings);
    lemma_swap_involution(plugging_of(settings), x);
}

/// The double step: with the right rotor at its notch and the middle rotor
/// one short of its own, the first key press turns the middle rotor onto
/// its notch, and the second turns the middle rotor again together with the
/// left one.
pub proof fn lemma_double_step(m: MachineView)
    requires
        m.wf(),
        m.right.at_notch(),
        (m.middle.position + 1) % 26 == m.middle.notch,
    ensures
        m.stepped().left == m.left,
        m.stepped().middle.at_notch(),
        m.stepped().stepped().middle.position == (m.middle.position + 2) % 26,
        m.stepped().stepped().left.position == (m.left.position + 1) % 26,
{
}

} // verus!
