//! The plugboard: disjoint pairs of letters swapped on the way into and out
//! of the rotors.
use vstd::prelude::*;
use crate::alphabet::{index_of_letter, is_letter, is_letter_char, is_upper, letter_in_case_of, letter_index, letter_like};

verus! {

/// Cable `p` connects letter index `x`.
pub open spec fn plugged(p: (u8, u8), x: int) -> bool {
    p.0 == x || p.1 == x
}

/// The other end of cable `p` from `x`.
pub open spec fn other_end(p: (u8, u8), x: int) -> int {
    if p.0 == x {
        p.1 as int
    } else {
        p.0 as int
    }
}

/// Some cable of `pairs` connects `x`.
pub open spec fn in_use(pairs: Seq<(u8, u8)>, x: int) -> bool {
    exists|k: int| 0 <= k < pairs.len() && #[trigger] plugged(pairs[k], x)
}

/// Each cable joins two different letters, and no letter has two cables.
pub open spec fn is_plugging(pairs: Seq<(u8, u8)>) -> bool {
    &&& forall|k: int|
        0 <= k < pairs.len() ==> #[trigger] pairs[k].0 < 26 && pairs[k].1 < 26 && pairs[k].0
            != pairs[k].1
    &&& forall|k: int, l: int|
        0 <= k < pairs.len() && 0 <= l < pairs.len() && k != l ==> !plugged(
            #[trigger] pairs[l],
            #[trigger] pairs[k].0 as int,
        ) && !plugged(pairs[l], pairs[k].1 as int)
}

/// Where the plugboard sends letter index `x`: the other end of its cable,
/// or `x` itself when it has none.
pub open spec fn swap(pairs: Seq<(u8, u8)>, x: int) -> int {
    if in_use(pairs, x) {
        other_end(pairs[choose|k: int| 0 <= k < pairs.len() && #[trigger] plugged(pairs[k], x)], x)
    } else {
        x
    }
}

/// Under a plugging, a cable connecting `x` is the one `swap` follows.
pub proof fn lemma_swap_cable(pairs: Seq<(u8, u8)>, k: int, x: int)
    requires
        is_plugging(pairs),
        0 <= k < pairs.len(),
        plugged(pairs[k], x),
    ensures
        swap(pairs, x) == other_end(pairs[k], x),
{
    let c = choose|c: int| 0 <= c < pairs.len() && #[trigger] plugged(pairs[c], x);
    if c != k {
        if pairs[k].0 == x {
            assert(!plugged(pairs[c], pairs[k].0 as int));
        } else {
            assert(!plugged(pairs[c], pairs[k].1 as int));
        }
    }
}

/// Swapping twice gives the letter back.
pub proof fn lemma_swap_involution(pairs: Seq<(u8, u8)>, x: int)
    requires
        is_plugging(pairs),
        0 <= x < 26,
    ensures
        0 <= swap(pairs, x) < 26,
        swap(pairs, swap(pairs, x)) == x,
{
    if in_use(pairs, x) {
        let k = choose|k: int| 0 <= k < pairs.len() && #[trigger] plugged(pairs[k], x);
        let y = other_end(pairs[k], x);
        assert(plugged(pairs[k], y));
        lemma_swap_cable(pairs, k, y);
    }
}

/// Whether `c` is white space, as `char::is_whitespace` decides it.
pub uninterp spec fn is_whitespace(c: char) -> bool;

/// Relies on `char::is_whitespace`: whether `c` has Unicode's White_Space
/// property, which depends on `c` alone.
#[verifier::external_body]
fn whitespace(c: char) -> (r: bool)
    ensures
        r == is_whitespace(c),
{
    c.is_whitespace()
}

/// Characters that end a token of the plugboard settings.
pub open spec fn is_separator(c: char) -> bool {
    !is_letter(c) && is_whitespace(c)
}

/// A token is kept when it is two different upper-case letters, neither of
/// them already plugged; every other token is ignored.
pub open spec fn token_kept(pairs: Seq<(u8, u8)>, tok: Seq<char>) -> bool {
    &&& tok.len() == 2
    &&& is_upper(tok[0])
    &&& is_upper(tok[1])
    &&& tok[0] != tok[1]
    &&& !in_use(pairs, letter_index(tok[0]))
    &&& !in_use(pairs, letter_index(tok[1]))
}

pub open spec fn add_token(pairs: Seq<(u8, u8)>, tok: Seq<char>) -> Seq<(u8, u8)> {
    if token_kept(pairs, tok) {
        pairs.push((letter_index(tok[0]) as u8, letter_index(tok[1]) as u8))
    } else {
        pairs
    }
}

/// The cables read so far and the token being read, after the characters `s`.
pub open spec fn scan(s: Seq<char>) -> (Seq<(u8, u8)>, Seq<char>)
    decreases s.len(),
{
    if s.len() == 0 {
        (Seq::empty(), Seq::empty())
    } else {
        let (pairs, tok) = scan(s.drop_last());
        if is_separator(s.last()) {
            (add_token(pairs, tok), Seq::empty())
        } else {
            (pairs, tok.push(s.last()))
        }
    }
}

/// The cables that settings such as `"AB CD"` describes.
pub open spec fn plugging_of(s: Seq<char>) -> Seq<(u8, u8)> {
    add_token(scan(s).0, scan(s).1)
}

pub proof fn lemma_add_token(pairs: Seq<(u8, u8)>, tok: Seq<char>)
    requires
        is_plugging(pairs),
    ensures
        is_plugging(add_token(pairs, tok)),
{
    if token_kept(pairs, tok) {
        let n = pairs.len() as int;
        let q = add_token(pairs, tok);
        let a = letter_index(tok[0]);
        let b = letter_index(tok[1]);
        assert(q[n] == (a as u8, b as u8));
        assert forall|k: int, l: int|
            0 <= k < q.len() && 0 <= l < q.len() && k != l implies !plugged(
            #[trigger] q[l],
            #[trigger] q[k].0 as int,
        ) && !plugged(q[l], q[k].1 as int) by {
            if k == n {
                assert(!plugged(pairs[l], a));
                assert(!plugged(pairs[l], b));
            } else if l == n {
                if plugged(q[l], q[k].0 as int) || plugged(q[l], q[k].1 as int) {
                    assert(plugged(pairs[k], a) || plugged(pairs[k], b));
                }
            }
        }
    }
}

pub proof fn lemma_scan(s: Seq<char>)
    ensures
        is_plugging(scan(s).0),
        is_plugging(plugging_of(s)),
    decreases s.len(),
{
    if s.len() > 0 {
        lemma_scan(s.drop_last());
        lemma_add_token(scan(s.drop_last()).0, scan(s.drop_last()).1);
    }
    lemma_add_token(scan(s).0, scan(s).1);
}

pub struct Plugboard {
    pairs: Vec<(u8, u8)>,
}

impl View for Plugboard {
    type V = Seq<(u8, u8)>;

    closed spec fn view(&self) -> Seq<(u8, u8)> {
        self.pairs@
    }
}

impl Plugboard {
    /// Reads settings of white-space separated tokens, such as
    /// `"AB CD"`. A token of two different upper-case letters connects them;
    /// a token of another length or of other characters, or one that names a
    /// letter already connected, is ignored.
    pub fn parse(settings: &str) -> (p: Plugboard)
        ensures
            p@ == plugging_of(settings@),
            is_plugging(p@),
    {
        let mut board = Plugboard { pairs: Vec::new() };
        let mut tok: Vec<char> = Vec::new();
        for c in it: settings.chars()
            invariant
                it.seq() == settings@,
                scan(settings@.take(it.index() as int)) == (board.pairs@, tok@),
        {
            proof {
                assert(settings@.take(it.index() + 1).drop_last() =~= settings@.take(it.index() as int));
                lemma_scan(settings@.take(it.index() as int));
            }
            if !is_letter_char(c) && whitespace(c) {
                board.add_token(&tok);
                tok = Vec::new();
            } else {
                tok.push(c);
            }
        }
        proof {
            assert(settings@.take(settings@.len() as int) =~= settings@);
            lemma_scan(settings@);
        }
        board.add_token(&tok);
        board
    }

    fn add_token(&mut self, tok: &Vec<char>)
        requires
            is_plugging(old(self)@),
        ensures
            final(self)@ == add_token(old(self)@, tok@),
    {
        if tok.len() == 2 && 'A' <= tok[0] && tok[0] <= 'Z' && 'A' <= tok[1] && tok[1] <= 'Z'
            && tok[0] != tok[1] {
            let a = index_of_letter(tok[0]);
            let b = index_of_letter(tok[1]);
            if !self.in_use(a) && !self.in_use(b) {
                self.pairs.push((a, b));
            }
        }
    }

    fn in_use(&self, x: u8) -> (r: bool)
        ensures
            r == in_use(self@, x as int),
    {
        let mut k: usize = 0;
        while k < self.pairs.len()
            invariant
                k <= self.pairs.len(),
                forall|j: int| 0 <= j < k ==> !plugged(#[trigger] self.pairs@[j], x as int),
            decreases self.pairs.len() - k,
        {
            let (a, b) = self.pairs[k];
            if a == x || b == x {
                proof {
                    assert(plugged(self.pairs@[k as int], x as int));
                }
                return true;
            }
            k = k + 1;
        }
        false
    }

    /// Where the plugboard sends letter index `x`.
    pub fn map_index(&self, x: u8) -> (y: u8)
        requires
            is_plugging(self@),
            x < 26,
        ensures
            y == swap(self@, x as int),
            y < 26,
    {
        proof {
            lemma_swap_involution(self@, x as int);
        }
        let mut k: usize = 0;
        while k < self.pairs.len()
            invariant
                is_plugging(self@),
                k <= self.pairs.len(),
                x < 26,
                forall|j: int| 0 <= j < k ==> !plugged(#[trigger] self.pairs@[j], x as int),
            decreases self.pairs.len() - k,
        {
            let (a, b) = self.pairs[k];
            if a == x {
                proof {
                    lemma_swap_cable(self@, k as int, x as int);
                }
                return b;
            }
            if b == x {
                proof {
                    lemma_swap_cable(self@, k as int, x as int);
                }
                return a;
            }
            k = k + 1;
        }
        x
    }

    /// Where the plugboard sends a character: a letter goes to the other end
    /// of its cable, in its own case; any other character is kept.
    pub fn map_char(&self, c: char) -> (d: char)
        requires
            is_plugging(self@),
        ensures
            is_letter(c) ==> d == letter_like(swap(self@, letter_index(c)), c),
            !is_letter(c) ==> d == c,
    {
        if is_letter_char(c) {
            let x = index_of_letter(c);
            letter_in_case_of(self.map_index(x), c)
        } else {
            c
        }
    }
}

} // verus!
