//! The interval model: qualities, sizes, polarities, quarter-tone
//! inflections, simple interval classes, and compound intervals.
//!
//! As in the pitch model, all distances are measured in quarter tones
//! (half semitones), so every value is an integer.

use crate::error::Error;
use vstd::math::abs;
use vstd::prelude::*;

verus! {

/// The direction of an interval.
#[derive(Clone, Copy, Debug, PartialEq, Eq, Structural)]
pub enum Polarity {
    Positive,
    Negative,
}

impl Polarity {
    /// The sign this polarity contributes to a distance.
    pub open spec fn sign_spec(self) -> int {
        match self {
            Polarity::Positive => 1,
            Polarity::Negative => -1,
        }
    }

    /// Whether this is the upward direction.
    pub fn is_positive(self) -> (r: bool)
        ensures
            r == (self == Polarity::Positive),
    {
        matches!(self, Polarity::Positive)
    }

    /// Whether this is the downward direction.
    pub fn is_negative(self) -> (r: bool)
        ensures
            r == (self == Polarity::Negative),
    {
        matches!(self, Polarity::Negative)
    }

    /// The opposite direction.
    pub fn neg(self) -> (r: Self)
        ensures
            r.sign_spec() == -self.sign_spec(),
            r == (match self {
                Polarity::Positive => Polarity::Negative,
                Polarity::Negative => Polarity::Positive,
            }),
    {
        match self {
            Polarity::Positive => Polarity::Negative,
            Polarity::Negative => Polarity::Positive,
        }
    }
}

/// The sign of an optional polarity: a missing polarity reads as upward.
pub open spec fn polarity_sign(p: Option<Polarity>) -> int {
    match p {
        Some(pol) => pol.sign_spec(),
        None => 1,
    }
}

/// A quarter-tone inflection on top of an interval.
#[derive(Clone, Copy, Debug, PartialEq, Eq, Structural)]
pub enum Quartertone {
    QuarterSharp,
    QuarterFlat,
}

impl Quartertone {
    /// The inflection in quarter tones.
    pub open spec fn offset_spec(self) -> int {
        match self {
            Quartertone::QuarterSharp => 1,
            Quartertone::QuarterFlat => -1,
        }
    }

    /// The inflection in quarter tones.
    pub fn quarter_tones(self) -> (r: i32)
        ensures
            r == self.offset_spec(),
    {
        match self {
            Quartertone::QuarterSharp => 1,
            Quartertone::QuarterFlat => -1,
        }
    }
}

/// The offset of an optional quarter-tone inflection, in quarter tones.
pub open spec fn quartertone_offset(q: Option<Quartertone>) -> int {
    match q {
        Some(qt) => qt.offset_spec(),
        None => 0,
    }
}

/// The quality of an interval; diminution and augmentation carry a degree.
#[derive(Clone, Copy, Debug, PartialEq, Eq, Structural)]
pub enum Quality {
    Perfect,
    Major,
    Minor,
    Diminished(u32),
    Augmented(u32),
}

impl Quality {
    /// Whether this is the perfect quality.
    pub fn is_perfect(self) -> (r: bool)
        ensures
            r == (self == Quality::Perfect),
    {
        matches!(self, Quality::Perfect)
    }

    /// The quality's change to a size's natural distance, in quarter tones.
    /// Diminishing an imperfect size costs one semitone more than
    /// diminishing a perfect one.
    pub open spec fn delta_spec(self, size_can_be_perfect: bool) -> int {
        match self {
            Quality::Perfect => 0,
            Quality::Major => 0,
            Quality::Minor => -2,
            Quality::Diminished(i) => if size_can_be_perfect {
                -2 * i
            } else {
                -2 * i - 2
            },
            Quality::Augmented(i) => 2 * i,
        }
    }

    /// The quality's change to a size's natural distance, in quarter tones.
    pub fn quarter_tone_delta(self, size_can_be_perfect: bool) -> (r: i64)
        ensures
            r == self.delta_spec(size_can_be_perfect),
    {
        match self {
            Quality::Perfect => 0,
            Quality::Major => 0,
            Quality::Minor => -2,
            Quality::Diminished(i) => {
                let deg: i64 = i as i64;
                proof {
                    assert(-2 * deg == -(2 * deg)) by (nonlinear_arith);
                }
                if size_can_be_perfect {
                    -(2 * deg)
                } else {
                    -(2 * deg) - 2
                }
            },
            Quality::Augmented(i) => 2 * (i as i64),
        }
    }
}

/// The size of a simple interval, from a unison to an octave.
#[derive(Clone, Copy, Debug, PartialEq, Eq, Structural)]
pub enum IntervalSize {
    Unison,
    Second,
    Third,
    Fourth,
    Fifth,
    Sixth,
    Seventh,
    Octave,
}

/// The size named by an ordinal from 1 (unison) to 8 (octave).
pub open spec fn size_of_number(n: int) -> IntervalSize {
    if n == 2 {
        IntervalSize::Second
    } else if n == 3 {
        IntervalSize::Third
    } else if n == 4 {
        IntervalSize::Fourth
    } else if n == 5 {
        IntervalSize::Fifth
    } else if n == 6 {
        IntervalSize::Sixth
    } else if n == 7 {
        IntervalSize::Seventh
    } else if n == 8 {
        IntervalSize::Octave
    } else {
        IntervalSize::Unison
    }
}

impl IntervalSize {
    /// The size's ordinal, from 1 (unison) to 8 (octave).
    pub open spec fn number_spec(self) -> int {
        match self {
            IntervalSize::Unison => 1,
            IntervalSize::Second => 2,
            IntervalSize::Third => 3,
            IntervalSize::Fourth => 4,
            IntervalSize::Fifth => 5,
            IntervalSize::Sixth => 6,
            IntervalSize::Seventh => 7,
            IntervalSize::Octave => 8,
        }
    }

    /// The size's natural distance in semitones, in the major scale.
    pub open spec fn natural_semitones_spec(self) -> int {
        match self {
            IntervalSize::Unison => 0,
            IntervalSize::Second => 2,
            IntervalSize::Third => 4,
            IntervalSize::Fourth => 5,
            IntervalSize::Fifth => 7,
            IntervalSize::Sixth => 9,
            IntervalSize::Seventh => 11,
            IntervalSize::Octave => 12,
        }
    }

    /// The size's ordinal, from 1 (unison) to 8 (octave).
    pub fn number(self) -> (r: i32)
        ensures
            r == self.number_spec(),
    {
        match self {
            IntervalSize::Unison => 1,
            IntervalSize::Second => 2,
            IntervalSize::Third => 3,
            IntervalSize::Fourth => 4,
            IntervalSize::Fifth => 5,
            IntervalSize::Sixth => 6,
            IntervalSize::Seventh => 7,
            IntervalSize::Octave => 8,
        }
    }

    /// The size's natural distance in semitones.
    pub fn natural_semitones(self) -> (r: i32)
        ensures
            r == self.natural_semitones_spec(),
    {
        match self {
            IntervalSize::Unison => 0,
            IntervalSize::Second => 2,
            IntervalSize::Third => 4,
            IntervalSize::Fourth => 5,
            IntervalSize::Fifth => 7,
            IntervalSize::Sixth => 9,
            IntervalSize::Seventh => 11,
            IntervalSize::Octave => 12,
        }
    }

    /// The size named by `size`; an ordinal outside 1 to 8 wraps as
    /// `size % 8 + 1`.
    pub fn from_u32(size: u32) -> (r: Self)
        ensures
            1 <= size <= 8 ==> r == size_of_number(size as int),
            !(1 <= size <= 8) ==> r == size_of_number(size as int % 8 + 1),
    {
        let n: u32 = if 1 <= size && size <= 8 {
            size
        } else {
            size % 8 + 1
        };
        match n {
            1 => IntervalSize::Unison,
            2 => IntervalSize::Second,
            3 => IntervalSize::Third,
            4 => IntervalSize::Fourth,
            5 => IntervalSize::Fifth,
            6 => IntervalSize::Sixth,
            7 => IntervalSize::Seventh,
            _ => IntervalSize::Octave,
        }
    }

    /// Whether this is a unison.
    pub fn is_unison(self) -> (r: bool)
        ensures
            r == (self == IntervalSize::Unison),
    {
        matches!(self, IntervalSize::Unison)
    }

    /// Whether the perfect quality fits this size.
    pub open spec fn can_be_perfect_spec(self) -> bool {
        match self {
            IntervalSize::Unison => true,
            IntervalSize::Fourth => true,
            IntervalSize::Fifth => true,
            IntervalSize::Octave => true,
            _ => false,
        }
    }

    /// Whether the perfect quality fits this size.
    pub fn can_be_perfect(self) -> (r: bool)
        ensures
            r == self.can_be_perfect_spec(),
    {
        matches!(
            self,
            IntervalSize::Unison | IntervalSize::Fourth | IntervalSize::Fifth | IntervalSize::Octave,
        )
    }

    /// The vertical displacement the size spans on a staff: one less than
    /// its ordinal.
    pub fn staff_spaces(self) -> (r: i32)
        ensures
            r == self.number_spec() - 1,
    {
        self.number() - 1
    }
}

/// Whether a quality may be paired with a size: perfect sizes refuse the
/// major and minor qualities, and the others refuse the perfect quality.
pub open spec fn valid_quality_and_size(quality: Quality, size: IntervalSize) -> bool {
    if size.can_be_perfect_spec() {
        !(quality == Quality::Major || quality == Quality::Minor)
    } else {
        quality != Quality::Perfect
    }
}

/// A simple interval: a quality and a size within one octave, with a
/// direction and an optional quarter-tone inflection.
#[derive(Clone, Copy, Debug, PartialEq, Eq, Structural)]
pub struct IntervalClass {
    pub size: IntervalSize,
    pub quality: Quality,
    pub polarity: Option<Polarity>,
    pub quartertone: Option<Quartertone>,
}

impl IntervalClass {
    /// The invariants construction keeps: the pairing is valid, only an
    /// octave-sized class is perfect, and only the directionless perfect
    /// unison carries no polarity.
    pub open spec fn wf(self) -> bool {
        &&& valid_quality_and_size(self.quality, self.size)
        &&& (self.size == IntervalSize::Octave ==> self.quality == Quality::Perfect)
        &&& (self.polarity is None <==> (self.quality == Quality::Perfect && self.size
            == IntervalSize::Unison && self.quartertone is None))
    }

    /// Whether this is an unaltered perfect unison.
    pub open spec fn is_perfect_unison_spec(self) -> bool {
        self.size == IntervalSize::Unison && self.quality == Quality::Perfect
            && self.quartertone is None
    }

    /// Whether this is an unaltered perfect octave.
    pub open spec fn is_perfect_octave_spec(self) -> bool {
        self.size == IntervalSize::Octave && self.quality == Quality::Perfect
            && self.quartertone is None
    }

    /// Builds the interval class for a quality and a size, or reports an
    /// invalid pairing. A non-perfect octave-sized class is normalized to
    /// unison size; the perfect unison alone has no polarity.
    pub fn new(quality: Quality, size: IntervalSize) -> (r: Result<Self, Error>)
        ensures
            valid_quality_and_size(quality, size) <==> r is Ok,
            !valid_quality_and_size(quality, size) ==> r == Err::<IntervalClass, Error>(
                Error::InvalidIntervalClass(quality, size),
            ),
            r matches Ok(c) ==> {
                &&& c.wf()
                &&& c.quality == quality
                &&& c.size == (if size == IntervalSize::Octave && quality != Quality::Perfect {
                    IntervalSize::Unison
                } else {
                    size
                })
                &&& c.polarity == (if quality == Quality::Perfect && size == IntervalSize::Unison {
                    None::<Polarity>
                } else {
                    Some(Polarity::Positive)
                })
                &&& c.quartertone is None
            },
    {
        let perfect_interval = size.can_be_perfect();
        let major_minor_quality = matches!(quality, Quality::Major | Quality::Minor);
        let valid = if perfect_interval {
            !major_minor_quality
        } else {
            !quality.is_perfect()
        };
        if valid {
            let size = if matches!(size, IntervalSize::Octave) && !quality.is_perfect() {
                IntervalSize::Unison
            } else {
                size
            };
            let polarity = if quality.is_perfect() && size.is_unison() {
                None
            } else {
                Some(Polarity::Positive)
            };
            Ok(Self { size, quality, polarity, quartertone: None })
        } else {
            Err(Error::InvalidIntervalClass(quality, size))
        }
    }

    /// The vertical displacement of the class on a staff.
    pub fn staff_spaces(&self) -> (r: i32)
        ensures
            r == self.size.number_spec() - 1,
    {
        self.size.staff_spaces()
    }

    /// Whether this is an unaltered perfect unison.
    pub fn is_perfect_unison(&self) -> (r: bool)
        ensures
            r == self.is_perfect_unison_spec(),
    {
        matches!(self.size, IntervalSize::Unison) && matches!(self.quality, Quality::Perfect)
            && self.quartertone.is_none()
    }

    /// Whether this is an unaltered perfect octave.
    pub fn is_perfect_octave(&self) -> (r: bool)
        ensures
            r == self.is_perfect_octave_spec(),
    {
        matches!(self.size, IntervalSize::Octave) && matches!(self.quality, Quality::Perfect)
            && self.quartertone.is_none()
    }

    /// The class with a quarter-tone inflection attached; an undirected
    /// class becomes upward.
    fn apply_quartertone(&self, quartertone: Quartertone) -> (r: Self)
        requires
            self.wf(),
        ensures
            r.wf(),
            r.size == self.size,
            r.quality == self.quality,
            r.quartertone == Some(quartertone),
            r.polarity == (if self.polarity is None {
                Some(Polarity::Positive)
            } else {
                self.polarity
            }),
    {
        let polarity = match self.polarity {
            Some(p) => Some(p),
            None => Some(Polarity::Positive),
        };
        Self { polarity, quartertone: Some(quartertone), ..*self }
    }

    /// The class sharpened by a quarter tone.
    pub fn quarter_sharp(&self) -> (r: Self)
        requires
            self.wf(),
        ensures
            r.wf(),
            r.size == self.size,
            r.quality == self.quality,
            r.quartertone == Some(Quartertone::QuarterSharp),
            r.polarity == (if self.polarity is None {
                Some(Polarity::Positive)
            } else {
                self.polarity
            }),
    {
        self.apply_quartertone(Quartertone::QuarterSharp)
    }

    /// The class flattened by a quarter tone.
    pub fn quarter_flat(&self) -> (r: Self)
        requires
            self.wf(),
        ensures
            r.wf(),
            r.size == self.size,
            r.quality == self.quality,
            r.quartertone == Some(Quartertone::QuarterFlat),
            r.polarity == (if self.polarity is None {
                Some(Polarity::Positive)
            } else {
                self.polarity
            }),
    {
        self.apply_quartertone(Quartertone::QuarterFlat)
    }

    /// The signed distance the class spans, in quarter tones.
    pub open spec fn quarter_tones_spec(self) -> int {
        polarity_sign(self.polarity) * (2 * self.size.natural_semitones_spec()
            + self.quality.delta_spec(self.size.can_be_perfect_spec()) + quartertone_offset(
            self.quartertone,
        ))
    }

    /// The signed distance the class spans, in quarter tones.
    pub fn quarter_tones(&self) -> (r: i64)
        ensures
            r == self.quarter_tones_spec(),
    {
        let sign: i64 = match self.polarity {
            Some(Polarity::Negative) => -1,
            _ => 1,
        };
        let qt: i64 = match self.quartertone {
            Some(q) => q.quarter_tones() as i64,
            None => 0,
        };
        let magnitude: i64 = 2 * (self.size.natural_semitones() as i64)
            + self.quality.quarter_tone_delta(self.size.can_be_perfect()) + qt;
        proof {
            assert(sign * magnitude == self.quarter_tones_spec()) by (nonlinear_arith)
                requires
                    sign == polarity_sign(self.polarity),
                    magnitude == 2 * self.size.natural_semitones_spec() + self.quality.delta_spec(
                        self.size.can_be_perfect_spec(),
                    ) + quartertone_offset(self.quartertone),
            ;
        }
        sign * magnitude
    }

    /// The same class read in the opposite direction. Only the polarity
    /// flips, so the spanned distance is exactly negated.
    pub fn neg(self) -> (r: Self)
        requires
            self.wf(),
        ensures
            r.wf(),
            r.size == self.size,
            r.quality == self.quality,
            r.quartertone == self.quartertone,
            r.polarity == (match self.polarity {
                Some(p) => Some(p.neg_spec()),
                None => None::<Polarity>,
            }),
            r.quarter_tones_spec() == -self.quarter_tones_spec(),
    {
        let polarity = match self.polarity {
            Some(Polarity::Positive) => Some(Polarity::Negative),
            Some(Polarity::Negative) => Some(Polarity::Positive),
            None => None,
        };
        let r = Self { polarity, ..self };
        proof {
            let m = 2 * self.size.natural_semitones_spec() + self.quality.delta_spec(
                self.size.can_be_perfect_spec(),
            ) + quartertone_offset(self.quartertone);
            if self.polarity is None {
                assert(m == 0);
            }
            assert(polarity_sign(r.polarity) * m == -(polarity_sign(self.polarity) * m))
                by (nonlinear_arith)
                requires
                    polarity_sign(r.polarity) == -polarity_sign(self.polarity) || (polarity_sign(
                        r.polarity,
                    ) == polarity_sign(self.polarity) && m == 0),
            ;
        }
        r
    }
}

impl Polarity {
    /// The opposite direction, as a specification.
    pub open spec fn neg_spec(self) -> Polarity {
        match self {
            Polarity::Positive => Polarity::Negative,
            Polarity::Negative => Polarity::Positive,
        }
    }
}

} // verus!

verus! {

/// The simple-size ordinal (1 to 8) left after factoring whole octaves out
/// of a compound size of magnitude `m`. Only a perfect interval keeps the
/// octave ordinal itself; its octave count drops by one in exchange.
pub open spec fn reduced_size_number(quality: Quality, m: int) -> int {
    let n0 = if m == 0 {
        1
    } else if m <= 7 {
        m
    } else {
        (m - 1) % 7 + 1
    };
    if n0 == 1 && m >= 8 && quality == Quality::Perfect {
        8
    } else {
        n0
    }
}

/// The octaves factored out of a compound size of magnitude `m`.
pub open spec fn reduced_octaves(quality: Quality, m: int) -> int {
    let n0 = if m == 0 {
        1
    } else if m <= 7 {
        m
    } else {
        (m - 1) % 7 + 1
    };
    let oct = if m == 0 {
        0
    } else {
        (m - 1) / 7
    };
    if n0 == 1 && m >= 8 && quality == Quality::Perfect {
        oct - 1
    } else {
        oct
    }
}

/// A possibly compound, directed interval: a simple class plus a count of
/// whole octaves.
#[derive(Clone, Copy, Debug, PartialEq, Eq, Structural)]
pub struct Interval {
    pub interval_class: IntervalClass,
    pub octaves: i32,
    pub polarity: Option<Polarity>,
}

impl Interval {
    /// The invariants construction keeps: a well-formed class, a
    /// nonnegative octave count, and no polarity only on unison-sized
    /// perfect intervals without octaves.
    pub open spec fn wf(self) -> bool {
        &&& self.interval_class.wf()
        &&& self.octaves >= 0
        &&& (self.polarity is None ==> self.octaves == 0 && self.interval_class.size
            == IntervalSize::Unison && self.interval_class.quality == Quality::Perfect)
    }

    /// The signed distance the interval spans, in quarter tones.
    pub open spec fn quarter_tones_spec(self) -> int {
        24 * polarity_sign(self.polarity) * self.octaves
            + self.interval_class.quarter_tones_spec()
    }

    /// The signed vertical displacement on a staff, in diatonic steps.
    pub open spec fn staff_spaces_spec(self) -> int {
        (self.interval_class.size.number_spec() - 1 + 7 * self.octaves) * polarity_sign(
            self.polarity,
        )
    }

    /// Builds the interval of the given quality whose size is the signed
    /// ordinal `size`: 1 a unison, 3 a third, 10 a compound third, and a
    /// negative ordinal the same interval downward.
    pub fn new(quality: Quality, size: i32) -> (r: Self)
        requires
            size > i32::MIN,
            valid_quality_and_size(
                quality,
                size_of_number(reduced_size_number(quality, abs(size as int) as int)),
            ),
        ensures
            r.wf(),
            r.interval_class.quality == quality,
            r.interval_class.size == size_of_number(
                reduced_size_number(quality, abs(size as int) as int),
            ),
            r.interval_class.quartertone is None,
            r.octaves == reduced_octaves(quality, abs(size as int) as int),
            r.interval_class.polarity == (if quality == Quality::Perfect && size_of_number(
                reduced_size_number(quality, abs(size as int) as int),
            ) == IntervalSize::Unison {
                None::<Polarity>
            } else if size < 0 {
                Some(Polarity::Negative)
            } else {
                Some(Polarity::Positive)
            }),
            r.polarity == (if quality == Quality::Perfect && size_of_number(
                reduced_size_number(quality, abs(size as int) as int),
            ) == IntervalSize::Unison {
                None::<Polarity>
            } else if size < 0 {
                Some(Polarity::Negative)
            } else {
                Some(Polarity::Positive)
            }),
    {
        let m: i32 = if size < 0 {
            -size
        } else {
            size
        };
        let n0: i32 = if m == 0 {
            1
        } else if m <= 7 {
            m
        } else {
            (m - 1) % 7 + 1
        };
        let oct0: i32 = if m == 0 {
            0
        } else {
            (m - 1) / 7
        };
        let is_perfect_octaves = n0 == 1 && m >= 8 && quality.is_perfect();
        let final_n: i32 = if is_perfect_octaves {
            8
        } else {
            n0
        };
        let octaves: i32 = if is_perfect_octaves {
            oct0 - 1
        } else {
            oct0
        };
        let cls_size = IntervalSize::from_u32(final_n as u32);
        proof {
            assert(cls_size == size_of_number(reduced_size_number(quality, m as int)));
        }
        let base = match IntervalClass::new(quality, cls_size) {
            Ok(c) => c,
            Err(_) => {
                proof {
                    assert(false);
                }
                vstd::pervasive::unreached()
            },
        };
        let interval_class = if size < 0 {
            base.neg()
        } else {
            base
        };
        let polarity = if interval_class.is_perfect_unison() {
            None
        } else if size < 0 {
            Some(Polarity::Negative)
        } else {
            Some(Polarity::Positive)
        };
        Self { interval_class, octaves, polarity }
    }

    /// The signed vertical displacement on a staff, in diatonic steps.
    pub fn staff_spaces(&self) -> (r: i32)
        requires
            self.wf(),
            7 * self.octaves + 7 <= i32::MAX,
        ensures
            r == self.staff_spaces_spec(),
    {
        let raw: i64 = (self.interval_class.staff_spaces() as i64) + 7 * (self.octaves as i64);
        let sign: i64 = match self.polarity {
            Some(Polarity::Negative) => -1,
            _ => 1,
        };
        proof {
            assert(raw * sign == self.staff_spaces_spec() && -i32::MAX <= raw * sign
                <= i32::MAX) by (nonlinear_arith)
                requires
                    raw == self.interval_class.size.number_spec() - 1 + 7 * self.octaves,
                    sign == polarity_sign(self.polarity),
                    0 <= raw <= i32::MAX,
                    1 <= self.interval_class.size.number_spec() <= 8,
                    self.staff_spaces_spec() == raw * polarity_sign(self.polarity),
            ;
        }
        (raw * sign) as i32
    }

    /// The interval with a quarter-tone inflection attached. A perfect
    /// octave is first re-expressed as a perfect unison one octave up,
    /// since an altered octave has no single-class form.
    fn apply_quartertone(&self, quartertone: Quartertone) -> (r: Self)
        requires
            self.wf(),
            self.octaves < i32::MAX,
        ensures
            r.wf(),
            r.polarity == self.polarity,
            self.interval_class.is_perfect_octave_spec() ==> {
                &&& r.octaves == self.octaves + 1
                &&& r.interval_class.size == IntervalSize::Unison
                &&& r.interval_class.quality == Quality::Perfect
                &&& r.interval_class.quartertone == Some(quartertone)
                &&& r.interval_class.polarity == Some(Polarity::Positive)
            },
            !self.interval_class.is_perfect_octave_spec() ==> {
                &&& r.octaves == self.octaves
                &&& r.interval_class.size == self.interval_class.size
                &&& r.interval_class.quality == self.interval_class.quality
                &&& r.interval_class.quartertone == Some(quartertone)
                &&& r.interval_class.polarity == (if self.interval_class.polarity is None {
                    Some(Polarity::Positive)
                } else {
                    self.interval_class.polarity
                })
            },
    {
        let mut interval_class = self.interval_class;
        let mut octaves = self.octaves;
        if self.interval_class.is_perfect_octave() {
            interval_class = match IntervalClass::new(Quality::Perfect, IntervalSize::Unison) {
                Ok(c) => c,
                Err(_) => {
                    proof {
                        assert(false);
                    }
                    vstd::pervasive::unreached()
                },
            };
            octaves = octaves + 1;
        }
        interval_class = interval_class.apply_quartertone(quartertone);
        Self { interval_class, octaves, polarity: self.polarity }
    }

    /// The interval sharpened by a quarter tone.
    pub fn quarter_sharp(&self) -> (r: Self)
        requires
            self.wf(),
            self.octaves < i32::MAX,
        ensures
            r.wf(),
            r == self.apply_quartertone_spec(Quartertone::QuarterSharp),
    {
        self.apply_quartertone(Quartertone::QuarterSharp)
    }

    /// The interval flattened by a quarter tone.
    pub fn quarter_flat(&self) -> (r: Self)
        requires
            self.wf(),
            self.octaves < i32::MAX,
        ensures
            r.wf(),
            r == self.apply_quartertone_spec(Quartertone::QuarterFlat),
    {
        self.apply_quartertone(Quartertone::QuarterFlat)
    }

    /// What attaching a quarter-tone inflection yields.
    pub open spec fn apply_quartertone_spec(self, quartertone: Quartertone) -> Interval {
        if self.interval_class.is_perfect_octave_spec() {
            Interval {
                interval_class: IntervalClass {
                    size: IntervalSize::Unison,
                    quality: Quality::Perfect,
                    polarity: Some(Polarity::Positive),
                    quartertone: Some(quartertone),
                },
                octaves: (self.octaves + 1) as i32,
                polarity: self.polarity,
            }
        } else {
            Interval {
                interval_class: IntervalClass {
                    size: self.interval_class.size,
                    quality: self.interval_class.quality,
                    polarity: if self.interval_class.polarity is None {
                        Some(Polarity::Positive)
                    } else {
                        self.interval_class.polarity
                    },
                    quartertone: Some(quartertone),
                },
                octaves: self.octaves,
                polarity: self.polarity,
            }
        }
    }

    /// The signed distance the interval spans, in quarter tones.
    pub fn quarter_tones(&self) -> (r: i64)
        requires
            self.wf(),
        ensures
            r == self.quarter_tones_spec(),
    {
        let sign: i64 = match self.polarity {
            Some(Polarity::Negative) => -1,
            _ => 1,
        };
        let oct_part: i64 = 24 * sign * (self.octaves as i64);
        proof {
            assert(24 * sign * (self.octaves as i64) == 24 * polarity_sign(self.polarity)
                * self.octaves && -0x1_0000_0000_0000 <= 24 * sign * (self.octaves as i64)
                <= 0x1_0000_0000_0000) by (nonlinear_arith)
                requires
                    sign == polarity_sign(self.polarity),
                    0 <= self.octaves < 0x8000_0000,
            ;
            lemma_class_quarter_tone_bounds(self.interval_class);
        }
        oct_part + self.interval_class.quarter_tones()
    }

    /// The same interval read in the opposite direction: the polarity and
    /// the class polarity flip together, so distance and displacement are
    /// exactly negated.
    pub fn neg(self) -> (r: Self)
        requires
            self.wf(),
        ensures
            r.wf(),
            r.octaves == self.octaves,
            r.interval_class == self.interval_class.neg_class_spec(),
            r.polarity == (match self.polarity {
                Some(p) => Some(p.neg_spec()),
                None => None::<Polarity>,
            }),
            r.quarter_tones_spec() == -self.quarter_tones_spec(),
            r.staff_spaces_spec() == -self.staff_spaces_spec(),
    {
        let polarity = match self.polarity {
            Some(Polarity::Positive) => Some(Polarity::Negative),
            Some(Polarity::Negative) => Some(Polarity::Positive),
            None => None,
        };
        let interval_class = self.interval_class.neg();
        let r = Self { interval_class, octaves: self.octaves, polarity };
        proof {
            assert(24 * polarity_sign(r.polarity) * r.octaves == -(24 * polarity_sign(
                self.polarity,
            ) * self.octaves)) by (nonlinear_arith)
                requires
                    r.octaves == self.octaves,
                    polarity_sign(r.polarity) == -polarity_sign(self.polarity) || (self.polarity
                        is None && r.polarity is None && self.octaves == 0),
            ;
            let ss = self.interval_class.size.number_spec() - 1 + 7 * self.octaves;
            assert(r.staff_spaces_spec() == ss * polarity_sign(r.polarity));
            assert(ss * polarity_sign(r.polarity) == -(ss * polarity_sign(self.polarity)))
                by (nonlinear_arith)
                requires
                    polarity_sign(r.polarity) == -polarity_sign(self.polarity) || (self.polarity
                        is None && r.polarity is None && ss == 0),
            ;
        }
        r
    }
}

/// The distance an interval class spans is small: its magnitude is at most
/// a couple of octaves plus the quality's degree, doubled.
proof fn lemma_class_quarter_tone_bounds(c: IntervalClass)
    ensures
        -0x3_0000_0000 <= c.quarter_tones_spec() <= 0x3_0000_0000,
{
    let mag = 2 * c.size.natural_semitones_spec() + c.quality.delta_spec(
        c.size.can_be_perfect_spec(),
    ) + quartertone_offset(c.quartertone);
    assert(-0x2_0000_0004 <= mag <= 0x2_0000_0000 + 25);
    assert(-0x3_0000_0000 <= polarity_sign(c.polarity) * mag <= 0x3_0000_0000)
        by (nonlinear_arith)
        requires
            -0x2_0000_0004 <= mag <= 0x2_0000_0000 + 25,
            polarity_sign(c.polarity) == 1 || polarity_sign(c.polarity) == -1,
    ;
}

impl IntervalClass {
    /// What reading the class in the opposite direction yields.
    pub open spec fn neg_class_spec(self) -> IntervalClass {
        IntervalClass {
            polarity: match self.polarity {
                Some(p) => Some(p.neg_spec()),
                None => None,
            },
            ..self
        }
    }
}

} // verus!

verus! {

impl Quality {
    /// The quality's letter form: `P`, `M`, `m`, or a run of `d`s or `A`s,
    /// one per degree.
    pub open spec fn label_spec(self) -> Seq<char> {
        match self {
            Quality::Perfect => "P"@,
            Quality::Major => "M"@,
            Quality::Minor => "m"@,
            Quality::Diminished(i) => crate::text::repeat_seq("d"@, i as int),
            Quality::Augmented(i) => crate::text::repeat_seq("A"@, i as int),
        }
    }

    /// The quality's letter form.
    pub fn label(&self) -> (r: String)
        ensures
            r@ == self.label_spec(),
    {
        match self {
            Quality::Perfect => String::from_str("P"),
            Quality::Major => String::from_str("M"),
            Quality::Minor => String::from_str("m"),
            Quality::Diminished(i) => crate::text::repeat_str("d", *i as usize),
            Quality::Augmented(i) => crate::text::repeat_str("A", *i as usize),
        }
    }
}

/// The sign an optional polarity writes before an interval.
pub open spec fn polarity_label(p: Option<Polarity>) -> Seq<char> {
    match p {
        Some(Polarity::Positive) => "+"@,
        Some(Polarity::Negative) => "-"@,
        None => Seq::empty(),
    }
}

/// The mark an optional quarter tone writes after the quality.
pub open spec fn quartertone_label(q: Option<Quartertone>) -> Seq<char> {
    match q {
        Some(Quartertone::QuarterSharp) => "+"@,
        Some(Quartertone::QuarterFlat) => "~"@,
        None => Seq::empty(),
    }
}

impl IntervalClass {
    /// The class written out: sign, quality, quarter-tone mark, size.
    pub open spec fn label_spec(self) -> Seq<char> {
        polarity_label(self.polarity) + self.quality.label_spec() + quartertone_label(
            self.quartertone,
        ) + crate::text::int_str(self.size.number_spec())
    }

    /// The class written out: sign, quality, quarter-tone mark, size.
    pub fn label(&self) -> (r: String)
        ensures
            r@ == self.label_spec(),
    {
        let mut out = match self.polarity {
            Some(Polarity::Positive) => String::from_str("+"),
            Some(Polarity::Negative) => String::from_str("-"),
            None => String::new(),
        };
        let q = self.quality.label();
        out.append(q.as_str());
        match self.quartertone {
            Some(Quartertone::QuarterSharp) => out.append("+"),
            Some(Quartertone::QuarterFlat) => out.append("~"),
            None => (),
        }
        let size = crate::text::i64_to_string(self.size.number() as i64);
        out.append(size.as_str());
        proof {
            assert(out@ =~= self.label_spec());
        }
        out
    }
}

impl Interval {
    /// The interval written out: sign, quality, quarter-tone mark, and the
    /// compound size (the class size plus seven per octave).
    pub open spec fn label_spec(self) -> Seq<char> {
        polarity_label(self.interval_class.polarity) + self.interval_class.quality.label_spec()
            + quartertone_label(self.interval_class.quartertone) + crate::text::int_str(
            self.interval_class.size.number_spec() + 7 * self.octaves,
        )
    }

    /// The interval written out: sign, quality, quarter-tone mark, size.
    pub fn label(&self) -> (r: String)
        requires
            self.wf(),
        ensures
            r@ == self.label_spec(),
    {
        let mut out = match self.interval_class.polarity {
            Some(Polarity::Positive) => String::from_str("+"),
            Some(Polarity::Negative) => String::from_str("-"),
            None => String::new(),
        };
        let q = self.interval_class.quality.label();
        out.append(q.as_str());
        match self.interval_class.quartertone {
            Some(Quartertone::QuarterSharp) => out.append("+"),
            Some(Quartertone::QuarterFlat) => out.append("~"),
            None => (),
        }
        let n: i64 = (self.interval_class.size.number() as i64) + 7 * (self.octaves as i64);
        let size = crate::text::i64_to_string(n);
        out.append(size.as_str());
        proof {
            assert(out@ =~= self.label_spec());
        }
        out
    }
}

} // verus!
