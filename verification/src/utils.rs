use vstd::prelude::*;
use vstd::arithmetic::div_mod::lemma_fundamental_div_mod;
use vstd::arithmetic::div_mod::lemma_fundamental_div_mod_converse;
use vstd::arithmetic::div_mod::lemma_mod_pos_bound;
use rand::seq::SliceRandom;

verus! {

/// Largest magnitude a window coordinate or size may have. Window
/// dimensions come from the windowing system and are tiny compared to
/// this bound; it exists so that coordinate arithmetic stays inside i64.
pub const MAX_COORD: i64 = 0x2000_0000_0000;

/// The colors the UI logic distinguishes. The renderer maps each of
/// them to a concrete color value.
#[derive(Clone, Copy, Debug, PartialEq, Eq, Structural)]
pub enum UiColor {
    White,
    Black,
    Green,
    LightGreen,
    LightGray,
    Red,
}

/// An axis-aligned rectangle in whole-pixel window coordinates.
#[derive(Clone, Copy, Debug, PartialEq, Eq, Structural)]
pub struct Rect {
    pub x: i64,
    pub y: i64,
    pub width: i64,
    pub height: i64,
}

impl Rect {
    /// Coordinates are small enough that sums of a handful of them fit in i64,
    /// and sizes are nonnegative.
    pub open spec fn wf(self) -> bool {
        &&& -MAX_COORD <= self.x <= MAX_COORD
        &&& -MAX_COORD <= self.y <= MAX_COORD
        &&& 0 <= self.width <= MAX_COORD
        &&& 0 <= self.height <= MAX_COORD
    }

    /// A point lies inside the rectangle when it is at or right of the left
    /// edge, strictly left of the right edge, and likewise vertically.
    pub open spec fn spec_contains(self, px: int, py: int) -> bool {
        &&& self.x <= px < self.x + self.width
        &&& self.y <= py < self.y + self.height
    }

    pub fn contains(&self, px: i64, py: i64) -> (r: bool)
        requires
            self.wf(),
        ensures
            r == self.spec_contains(px as int, py as int),
    {
        self.x <= px && px < self.x + self.width && self.y <= py && py < self.y + self.height
    }
}

/// A clickable labelled rectangle with a hover color.
pub struct Button {
    pub rec: Rect,
    pub color: UiColor,
    pub title: String,
}

impl Button {
    pub fn new(rec: Rect, title: &str, color: UiColor) -> (r: Button)
        ensures
            r.rec == rec,
            r.color == color,
            r.title@ == title@,
    {
        Button { rec, color, title: title.to_owned() }
    }

    pub fn get_rec(&self) -> (r: &Rect)
        ensures
            *r == self.rec,
    {
        &self.rec
    }

    pub fn get_title(&self) -> (r: &String)
        ensures
            r@ == self.title@,
    {
        &self.title
    }

    pub fn get_color(&self) -> (r: UiColor)
        ensures
            r == self.color,
    {
        self.color
    }

    pub fn set_color(&mut self, color: UiColor)
        ensures
            *final(self) == (Button { color, ..*old(self) }),
    {
        self.color = color;
    }
}

/// Floor division by a positive divisor: the same rounding as the
/// mathematical `/` of specifications, also for negative dividends.
pub fn div_floor(a: i64, b: i64) -> (q: i64)
    requires
        0 < b <= MAX_COORD,
        -0x4000_0000_0000_0000 < a < 0x4000_0000_0000_0000,
    ensures
        q == a as int / b as int,
{
    if a >= 0 {
        let ua: u64 = a as u64;
        let ub: u64 = b as u64;
        (ua / ub) as i64
    } else {
        let m: u64 = (-a) as u64;
        let ub: u64 = b as u64;
        let uq: u64 = (m + (ub - 1)) / ub;
        proof {
            // m + b - 1 == b * uq + rr with 0 <= rr < b, so
            // a == -m == (-uq) * b + (b - 1 - rr), and -uq is a / b.
            let mi: int = m as int;
            let bi: int = ub as int;
            let qi: int = uq as int;
            let s: int = mi + bi - 1;
            let rr: int = s % bi;
            lemma_fundamental_div_mod(s, bi);
            lemma_mod_pos_bound(s, bi);
            assert((-qi) * bi == -(bi * qi)) by (nonlinear_arith);
            lemma_fundamental_div_mod_converse(a as int, bi, -qi, bi - 1 - rr);
        }
        -(uq as i64)
    }
}

/// The sequence 1, 2, ..., n as i32 values.
pub open spec fn number_range_seq(n: nat) -> Seq<i32> {
    Seq::new(n, |i: int| (i + 1) as i32)
}

/// Relies on rand's `SliceRandom::shuffle` (with `thread_rng` as the
/// randomness source): it permutes the slice in place, so the multiset of
/// elements, and in particular the length, is unchanged. Which permutation
/// comes out depends on the random source, so nothing more is stated.
#[verifier::external_body]
fn shuffle_numbers(v: &mut Vec<i32>)
    ensures
        final(v)@.len() == old(v)@.len(),
        final(v)@.to_multiset() == old(v)@.to_multiset(),
{
    v.shuffle(&mut rand::thread_rng());
}

/// A freshly shuffled vector holding each of the numbers 1..=length
/// exactly once, in an order chosen by the random source.
pub fn generate_numbers_array(length: i32) -> (r: Vec<i32>)
    requires
        0 <= length,
    ensures
        r@.len() == length as int,
        r@.to_multiset() == number_range_seq(length as nat).to_multiset(),
{
    let mut v: Vec<i32> = Vec::new();
    let mut i: i32 = 0;
    while i < length
        invariant
            0 <= i <= length,
            v@ == number_range_seq(i as nat),
        decreases length - i,
    {
        v.push(i + 1);
        i = i + 1;
        proof {
            assert(v@ =~= number_range_seq(i as nat));
        }
    }
    shuffle_numbers(&mut v);
    v
}

/// Whether the vector holds the value, as `Vec::contains` would report.
pub fn vec_i32_contains(v: &Vec<i32>, x: i32) -> (r: bool)
    ensures
        r == v@.contains(x),
{
    let mut k: usize = 0;
    while k < v.len()
        invariant
            0 <= k <= v@.len(),
            forall|j: int| 0 <= j < k ==> v@[j] != x,
        decreases v@.len() - k,
    {
        if v[k] == x {
            return true;
        }
        k = k + 1;
    }
    false
}

} // verus!
