//! Transposition: moving a pitch by an interval so that the result is both
//! exactly right in pitch height and spelled on the letter the interval's
//! size implies, with at most a double flat or double sharp.

use crate::interval::Interval;
use crate::pitch::{Accidental, Pitch, PitchClass};
use vstd::arithmetic::div_mod::{
    lemma_fundamental_div_mod, lemma_fundamental_div_mod_converse, lemma_mod_multiples_basic,
};
use vstd::prelude::*;

verus! {

/// The natural semitone height of the letter at cycle position `i`.
pub open spec fn natural_of_index(i: int) -> int {
    if i == 0 {
        0
    } else if i == 1 {
        2
    } else if i == 2 {
        4
    } else if i == 3 {
        5
    } else if i == 4 {
        7
    } else if i == 5 {
        9
    } else if i == 6 {
        11
    } else {
        0
    }
}

/// The transposition target: the pitch's height plus the interval's span.
pub open spec fn transpose_target(p: Pitch, interval: Interval) -> int {
    p.quarter_tones_spec() + interval.quarter_tones_spec()
}

/// The cycle position of the letter the interval's size asks for.
pub open spec fn transpose_letter_index(p: Pitch, interval: Interval) -> int {
    (p.pitch_class.diatonic_pitch_class.index_spec() + interval.staff_spaces_spec()) % 7
}

/// The accidental offset, in quarter tones, that anchoring the target
/// letter at the occurrence nearest the target height leaves over.
pub open spec fn transpose_residual(p: Pitch, interval: Interval) -> int {
    let lnat = 2 * natural_of_index(transpose_letter_index(p, interval));
    let b = (transpose_target(p, interval) - lnat) % 24;
    if b <= 12 {
        b
    } else {
        b - 24
    }
}


/// The semitone step from the letter at position `li` up to the next
/// letter: two, except for the one-semitone steps E to F and B to C.
pub open spec fn up_step(li: int) -> int {
    (natural_of_index((li + 1) % 7) - natural_of_index(li) + 12) % 12
}

/// The semitone step from the letter at position `li` down to the previous
/// letter.
pub open spec fn down_step(li: int) -> int {
    (natural_of_index(li) - natural_of_index((li + 6) % 7) + 12) % 12
}

/// Walking the letter upward while the leftover accidental is above the
/// double-sharp range: each step moves to the next letter (crossing into a
/// new octave above B) and pays that letter step off the residual.
pub open spec fn walk_up(li: int, q: int, o: int) -> (int, int, int)
    decreases q via walk_up_decreases
{
    if !(0 <= li <= 6) || q <= 4 {
        (li, q, o)
    } else {
        walk_up(
            (li + 1) % 7,
            q - 2 * up_step(li),
            o + if li == 6 {
                1int
            } else {
                0int
            },
        )
    }
}

#[via_fn]
proof fn walk_up_decreases(li: int, q: int, o: int) {
    if (0 <= li <= 6) && q > 4 {
        assert(1 <= up_step(li) <= 2);
    }
}

/// Walking the letter downward while the leftover accidental is below the
/// double-flat range: each step moves to the previous letter (crossing
/// into a new octave below C) and earns that letter step onto the residual.
pub open spec fn walk_down(li: int, q: int, o: int) -> (int, int, int)
    decreases -q via walk_down_decreases
{
    if !(0 <= li <= 6) || q >= -4 {
        (li, q, o)
    } else {
        walk_down(
            (li + 6) % 7,
            q + 2 * down_step(li),
            o + if li == 0 {
                -1int
            } else {
                0int
            },
        )
    }
}

#[via_fn]
proof fn walk_down_decreases(li: int, q: int, o: int) {
    if (0 <= li <= 6) && q < -4 {
        assert(1 <= down_step(li) <= 2);
    }
}

/// The spelled result of a transposition: the letter the interval's size
/// implies, anchored at the nearest octave, then walked until the leftover
/// accidental fits between double flat and double sharp. The triple is
/// (letter cycle position, accidental offset in quarter tones, octave).
pub open spec fn transpose_spelling(p: Pitch, interval: Interval) -> (int, int, int) {
    let li = transpose_letter_index(p, interval);
    let q = transpose_residual(p, interval);
    let o = (transpose_target(p, interval) - q - 2 * natural_of_index(li)) / 24 + 4;
    let up = walk_up(li, q, o);
    walk_down(up.0, up.1, up.2)
}

/// The Euclidean remainder of `x` modulo 24.
fn euclid_rem_24(x: i64) -> (r: i64)
    requires
        -0x4000_0000_0000_0000 <= x <= 0x4000_0000_0000_0000,
    ensures
        r == (x as int) % 24,
        0 <= r < 24,
{
    if x >= 0 {
        x % 24
    } else {
        let k = (-x) % 24;
        proof {
            lemma_fundamental_div_mod(x as int, 24);
            let q = (x as int) / 24;
            let rr = (x as int) % 24;
            if rr == 0 {
                lemma_fundamental_div_mod_converse(-(x as int), 24, -q, 0);
            } else {
                lemma_fundamental_div_mod_converse(-(x as int), 24, -q - 1, 24 - rr);
            }
        }
        if k == 0 {
            0
        } else {
            24 - k
        }
    }
}

/// The exact quotient of a multiple of 24 by 24.
fn div_exact_24(x: i64) -> (r: i64)
    requires
        -0x4000_0000_0000_0000 <= x <= 0x4000_0000_0000_0000,
        (x as int) % 24 == 0,
    ensures
        r == (x as int) / 24,
        x == 24 * r,
{
    proof {
        lemma_fundamental_div_mod(x as int, 24);
    }
    if x >= 0 {
        x / 24
    } else {
        proof {
            let q = (x as int) / 24;
            lemma_fundamental_div_mod_converse(-(x as int), 24, -q, 0);
        }
        -((-x) / 24)
    }
}

impl Pitch {
    /// The pitch reached by moving this one through `interval`.
    ///
    /// The result's height is exactly the pitch's height plus the
    /// interval's span, and whenever the leftover accidental lies within
    /// the double-flat-to-double-sharp range, the letter is the one the
    /// interval's size implies; otherwise the letter is walked step by
    /// step to the nearest spelling whose accidental is in range.
    pub fn transpose(self, interval: Interval) -> (r: Pitch)
        requires
            interval.wf(),
            7 * interval.octaves + 7 <= i32::MAX,
            -24 * 0x4000_0000 <= self.quarter_tones_spec() + interval.quarter_tones_spec() <= 24
                * 0x4000_0000,
        ensures
            r.quarter_tones_spec() == self.quarter_tones_spec() + interval.quarter_tones_spec(),
            -4 <= transpose_residual(self, interval) <= 4 ==> {
                &&& r.pitch_class.diatonic_pitch_class.index_spec() == transpose_letter_index(
                    self,
                    interval,
                )
                &&& r.pitch_class.accidental.offset_spec() == transpose_residual(self, interval)
            },
            ({
                let spelled = transpose_spelling(self, interval);
                &&& r.pitch_class.diatonic_pitch_class.index_spec() == spelled.0
                &&& r.pitch_class.accidental.offset_spec() == spelled.1
                &&& r.octave == spelled.2
            }),
    {
        let ghost goal = transpose_target(self, interval);
        let target: i64 = self.quarter_tones() + interval.quarter_tones();
        let ss: i32 = interval.staff_spaces();
        let letter = self.pitch_class.diatonic_pitch_class.shift(ss as i64);
        proof {
            assert(natural_of_index(letter.index_spec()) == letter.natural_semitones_spec());
        }
        let lnat: i64 = 2 * (letter.natural_semitones() as i64);
        let diff: i64 = target - lnat;
        let b: i64 = euclid_rem_24(diff);
        let residual: i64 = if b <= 12 {
            b
        } else {
            b - 24
        };
        proof {
            assert(residual == transpose_residual(self, interval));
            lemma_fundamental_div_mod(diff as int, 24);
            lemma_mod_multiples_basic((diff as int) / 24, 24);
            if residual != b {
                lemma_mod_multiples_basic((diff as int) / 24 + 1, 24);
                assert((diff - residual) as int == ((diff as int) / 24 + 1) * 24)
                    by (nonlinear_arith)
                    requires
                        diff as int == 24 * ((diff as int) / 24) + b,
                        residual == b - 24,
                ;
            } else {
                assert((diff - residual) as int == ((diff as int) / 24) * 24) by (nonlinear_arith)
                    requires
                        diff as int == 24 * ((diff as int) / 24) + b,
                        residual == b,
                ;
            }
        }
        let qd: i64 = div_exact_24(diff - residual);
        let mut octave: i64 = qd + 4;
        let mut res: i64 = residual;
        let mut cur = letter;
        let ghost spelled = transpose_spelling(self, interval);
        proof {
            assert(2 * cur.natural_semitones_spec() + res + 24 * (octave - 4) == goal);
            assert(octave == (transpose_target(self, interval) - transpose_residual(self, interval)
                - 2 * natural_of_index(letter.index_spec())) / 24 + 4);
            let up = walk_up(letter.index_spec(), residual as int, octave as int);
            assert(spelled == walk_down(up.0, up.1, up.2));
        }
        while res > 4
            invariant
                -12 <= res <= 12,
                2 * cur.natural_semitones_spec() + res + 24 * (octave - 4) == goal,
                -24 * 0x4000_0000 <= goal <= 24 * 0x4000_0000,
                -4 <= residual <= 4 ==> cur == letter && res == residual,
                ({
                    let up = walk_up(cur.index_spec(), res as int, octave as int);
                    spelled == walk_down(up.0, up.1, up.2)
                }),
            decreases res,
        {
            let nxt = cur.next();
            let step: i64 = ((nxt.natural_semitones() - cur.natural_semitones() + 12) % 12) as i64;
            let ghost pre_oct = octave as int;
            if cur.index() == 6 {
                octave = octave + 1;
            }
            proof {
                assert(step == 1 || step == 2);
                assert(natural_of_index(nxt.index_spec()) == nxt.natural_semitones_spec());
                assert(natural_of_index(cur.index_spec()) == cur.natural_semitones_spec());
                assert(step == up_step(cur.index_spec()));
                assert(walk_up(cur.index_spec(), res as int, pre_oct) == walk_up(
                    nxt.index_spec(),
                    res - 2 * step,
                    octave as int,
                ));
            }
            cur = nxt;
            res = res - 2 * step;
        }
        proof {
            assert(walk_up(cur.index_spec(), res as int, octave as int) == (
            cur.index_spec(),
            res as int,
            octave as int,
            ));
            assert(spelled == walk_down(cur.index_spec(), res as int, octave as int));
        }
        while res < -4
            invariant
                -12 <= res <= 4,
                2 * cur.natural_semitones_spec() + res + 24 * (octave - 4) == goal,
                -24 * 0x4000_0000 <= goal <= 24 * 0x4000_0000,
                -4 <= residual <= 4 ==> cur == letter && res == residual,
                spelled == walk_down(cur.index_spec(), res as int, octave as int),
            decreases -res,
        {
            let prv = cur.prev();
            let step: i64 = ((cur.natural_semitones() - prv.natural_semitones() + 12) % 12) as i64;
            let ghost pre_oct = octave as int;
            if cur.index() == 0 {
                octave = octave - 1;
            }
            proof {
                assert(step == 1 || step == 2);
                assert(natural_of_index(prv.index_spec()) == prv.natural_semitones_spec());
                assert(natural_of_index(cur.index_spec()) == cur.natural_semitones_spec());
                assert(prv.index_spec() == (cur.index_spec() + 6) % 7);
                assert(step == down_step(cur.index_spec()));
                assert(walk_down(cur.index_spec(), res as int, pre_oct) == walk_down(
                    prv.index_spec(),
                    res + 2 * step,
                    octave as int,
                ));
            }
            cur = prv;
            res = res + 2 * step;
        }
        proof {
            assert(spelled == (cur.index_spec(), res as int, octave as int));
        }
        let accidental = match Accidental::from_quarter_tones(res as i32) {
            Ok(a) => a,
            Err(_) => {
                proof {
                    assert(false);
                }
                vstd::pervasive::unreached()
            },
        };
        proof {
            assert(-0x4000_0000 - 3 <= octave - 4 <= 0x4000_0000 + 3);
        }
        Pitch::new(PitchClass::new(cur, accidental), octave as i32)
    }
}

} // verus!
