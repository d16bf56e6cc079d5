//! LilyPond output: the exact text grammar for pitches, durations, leaves,
//! and nested score containers.

use crate::chord::Chord;
use crate::container::{Containable, Container};
use crate::duration::{is_pow2, Duration};
use crate::error::Error;
use crate::note::Note;
use crate::notehead::Notehead;
use crate::pitch::Pitch;
use crate::rest::Rest;
use crate::score::{RhythmicStaff, Score, Staff, StaffGroup, Voice};
use crate::spacer::Spacer;
use crate::text::{
    dec_digits, indent, indent_seq, join_seq, join_strings, repeat_seq, repeat_str, u64_to_string,
    views_of,
};
use crate::tuplet::Tuplet;
use vstd::prelude::*;

verus! {

/// The tick marks that place an octave: one `'` per octave above 3, one
/// `,` per octave below 3, nothing at octave 3.
pub open spec fn octave_marks_spec(o: int) -> Seq<char> {
    if o > 3 {
        repeat_seq("'"@, o - 3)
    } else if o < 3 {
        repeat_seq(","@, 3 - o)
    } else {
        Seq::empty()
    }
}

impl crate::pitch::Octave {
    /// The octave's tick marks.
    pub fn marks(&self) -> (r: String)
        ensures
            r@ == octave_marks_spec(self.octave as int),
    {
        if self.octave > 3 {
            let count = (self.octave - 3) as u32;
            repeat_str("'", count as usize)
        } else if self.octave < 3 {
            let count = (3 - (self.octave as i64)) as u64;
            proof {
                assert(count <= 0x8000_0000_0003);
            }
            repeat_str(",", count as usize)
        } else {
            String::new()
        }
    }
}

impl Pitch {
    /// The pitch's LilyPond name: letter, accidental suffix, octave marks.
    pub open spec fn name_spec(self) -> Seq<char> {
        self.pitch_class.diatonic_pitch_class.letter_spec()
            + self.pitch_class.accidental.suffix_spec() + octave_marks_spec(self.octave as int)
    }

    /// The pitch's LilyPond name: letter, accidental suffix, octave marks.
    pub fn name(&self) -> (r: String)
        ensures
            r@ == self.name_spec(),
    {
        let mut out = self.pitch_class.diatonic_pitch_class.letter();
        let suffix = self.pitch_class.accidental.suffix();
        out.append(suffix.as_str());
        if self.octave > 3 {
            let count = (self.octave - 3) as u32;
            let marks = repeat_str("'", count as usize);
            out.append(marks.as_str());
        } else if self.octave < 3 {
            let count = (3 - (self.octave as i64)) as u64;
            proof {
                assert(count <= 0x8000_0000_0003);
            }
            let marks = repeat_str(",", count as usize);
            out.append(marks.as_str());
        }
        out
    }
}

/// The opening and closing delimiters for a block: angle pairs when the
/// contents sound at once, braces when they follow each other.
pub fn delimiters(simultaneous: bool) -> (r: (String, String))
    ensures
        simultaneous ==> r.0@ == "<<"@ && r.1@ == ">>"@,
        !simultaneous ==> r.0@ == "{"@ && r.1@ == "}"@,
{
    if simultaneous {
        (String::from_str("<<"), String::from_str(">>"))
    } else {
        (String::from_str("{"), String::from_str("}"))
    }
}

/// The header of a named context: `\context T = "name"` when named,
/// `\new T` otherwise.
pub open spec fn context_signature_spec(name: Option<Seq<char>>, context_type: Seq<char>) -> Seq<
    char,
> {
    match name {
        Some(n) => "\\context "@ + context_type + " = \""@ + n + "\""@,
        None => "\\new "@ + context_type,
    }
}

/// The header of a named context: `\context T = "name"` when named,
/// `\new T` otherwise.
pub fn context_signature(name: &Option<String>, context_type: &str) -> (r: String)
    ensures
        name matches Some(n) ==> r@ == context_signature_spec(Some(n@), context_type@),
        name is None ==> r@ == context_signature_spec(None, context_type@),
{
    match name {
        Some(n) => {
            let mut out = String::from_str("\\context ");
            out.append(context_type);
            out.append(" = \"");
            out.append(n.as_str());
            out.append("\"");
            out
        },
        None => {
            let mut out = String::from_str("\\new ");
            out.append(context_type);
            out
        },
    }
}

} // verus!

verus! {

/// How many one bits the binary form of `n` holds.
pub open spec fn ones_in(n: int) -> int
    decreases n,
{
    if n <= 0 {
        0
    } else {
        ones_in(n / 2) + n % 2
    }
}

/// The count of one bits is nonnegative, and positive numbers have at
/// least one.
proof fn lemma_ones_in_pos(n: int)
    ensures
        ones_in(n) >= 0,
        n >= 1 ==> ones_in(n) >= 1,
    decreases n,
{
    if n > 0 {
        lemma_ones_in_pos(n / 2);
    }
}

/// Two to the power `e`.
pub open spec fn pow2_val(e: int) -> int
    decreases e,
{
    if e <= 0 {
        1
    } else {
        2 * pow2_val(e - 1)
    }
}

/// The base-two logarithm of a power of two.
pub open spec fn pow2_exp_spec(d: int) -> int
    decreases d,
{
    if d <= 1 {
        0
    } else {
        1 + pow2_exp_spec(d / 2)
    }
}

/// Doubling from one recovers a power of two from its logarithm.
proof fn lemma_pow2_val_of_exp(d: int)
    requires
        is_pow2(d),
    ensures
        pow2_val(pow2_exp_spec(d)) == d,
        pow2_exp_spec(d) >= 0,
    decreases d,
{
    if d > 1 {
        lemma_pow2_val_of_exp(d / 2);
    }
}

/// Powers of two grow strictly.
proof fn lemma_pow2_val_increases(e1: int, e2: int)
    requires
        0 <= e1 < e2,
    ensures
        pow2_val(e1) < pow2_val(e2),
        pow2_val(e1) >= 1,
    decreases e2,
{
    if e1 < e2 - 1 {
        lemma_pow2_val_increases(e1, e2 - 1);
    } else {
        if e1 > 0 {
            lemma_pow2_val_increases(e1 - 1, e1);
        }
    }
}

/// Numbers below two to the `e` have at most `e` one bits.
proof fn lemma_ones_bound(n: int, e: int)
    requires
        0 <= n,
        e >= 0,
        n < pow2_val(e),
    ensures
        ones_in(n) <= e,
    decreases e,
{
    if e == 0 {
        assert(n == 0);
    } else if n == 0 {
        lemma_ones_in_pos(n);
    } else {
        assert(n / 2 < pow2_val(e - 1)) by (nonlinear_arith)
            requires
                n < 2 * pow2_val(e - 1),
                n >= 0,
                n / 2 == (n - n % 2) / 2,
                n == 2 * (n / 2) + n % 2,
                0 <= n % 2 < 2,
        ;
        lemma_ones_bound(n / 2, e - 1);
    }
}

/// How many one bits `n >= 1` holds, counted.
fn count_ones(n: i32) -> (r: u32)
    requires
        n >= 1,
    ensures
        r == ones_in(n as int),
{
    let mut m = n;
    let mut c: u32 = 0;
    proof {
        lemma_ones_in_pos(n as int);
        lemma_ones_le_self(n as int);
    }
    while m > 0
        invariant
            0 <= m <= n,
            c + ones_in(m as int) == ones_in(n as int),
            0 <= ones_in(m as int),
            ones_in(n as int) <= n,
        decreases m,
    {
        proof {
            lemma_ones_in_pos(m as int / 2);
            lemma_ones_le_self(n as int);
        }
        if m % 2 == 1 {
            c = c + 1;
        }
        m = m / 2;
    }
    c
}

/// A number has no more one bits than its own value.
proof fn lemma_ones_le_self(n: int)
    ensures
        ones_in(n) <= (if n >= 0 {
            n
        } else {
            0
        }),
    decreases n,
{
    if n > 0 {
        lemma_ones_le_self(n / 2);
    }
}


/// The value of two to the thirtieth, unfolded.
proof fn lemma_pow2_30()
    ensures
        pow2_val(30) == 0x4000_0000,
{
    assert(pow2_val(0) == 1);
    assert(pow2_val(1) == 2);
    assert(pow2_val(2) == 4);
    assert(pow2_val(3) == 8);
    assert(pow2_val(4) == 16);
    assert(pow2_val(5) == 32);
    assert(pow2_val(6) == 64);
    assert(pow2_val(7) == 128);
    assert(pow2_val(8) == 256);
    assert(pow2_val(9) == 512);
    assert(pow2_val(10) == 1024);
    assert(pow2_val(11) == 2048);
    assert(pow2_val(12) == 4096);
    assert(pow2_val(13) == 8192);
    assert(pow2_val(14) == 16384);
    assert(pow2_val(15) == 32768);
    assert(pow2_val(16) == 65536);
    assert(pow2_val(17) == 131072);
    assert(pow2_val(18) == 262144);
    assert(pow2_val(19) == 524288);
    assert(pow2_val(20) == 1048576);
    assert(pow2_val(21) == 2097152);
    assert(pow2_val(22) == 4194304);
    assert(pow2_val(23) == 8388608);
    assert(pow2_val(24) == 16777216);
    assert(pow2_val(25) == 33554432);
    assert(pow2_val(26) == 67108864);
    assert(pow2_val(27) == 134217728);
    assert(pow2_val(28) == 268435456);
    assert(pow2_val(29) == 536870912);
    assert(pow2_val(30) == 1073741824);
}

/// The base-two logarithm of a power of two, computed.
fn pow2_exponent(d: i32) -> (r: u32)
    requires
        d >= 1,
        is_pow2(d as int),
    ensures
        r == pow2_exp_spec(d as int),
        r <= 30,
{
    proof {
        lemma_pow2_val_of_exp(d as int);
        if pow2_exp_spec(d as int) > 30 {
            if pow2_exp_spec(d as int) > 31 {
                lemma_pow2_val_increases(31, pow2_exp_spec(d as int));
            }
            assert(pow2_val(31) == 2 * pow2_val(30));
            lemma_pow2_30();
            assert(false);
        }
    }
    let mut m = d;
    let mut e: u32 = 0;
    while m > 1
        invariant
            1 <= m <= d,
            is_pow2(m as int),
            e + pow2_exp_spec(m as int) == pow2_exp_spec(d as int),
            e <= 30,
            pow2_exp_spec(d as int) <= 30,
            pow2_exp_spec(m as int) >= 0,
        decreases m,
    {
        proof {
            lemma_pow2_val_of_exp(m as int / 2);
        }
        m = m / 2;
        e = e + 1;
    }
    e
}

/// Two to the power `e`, computed.
fn pow2_value(e: u32) -> (r: i32)
    requires
        e <= 30,
    ensures
        r == pow2_val(e as int),
        r >= 1,
{
    let mut v: i32 = 1;
    let mut i: u32 = 0;
    proof {
        if e < 30 {
            lemma_pow2_val_increases(e as int, 30);
        }
        lemma_pow2_30();
    }
    while i < e
        invariant
            0 <= i <= e <= 30,
            v == pow2_val(i as int),
            v >= 1,
            pow2_val(e as int) <= 0x4000_0000,
        decreases e - i,
    {
        proof {
            lemma_pow2_val_increases(i as int, e as int);
            if i + 1 < e {
                lemma_pow2_val_increases(i as int + 1, e as int);
            }
        }
        v = v * 2;
        i = i + 1;
    }
    v
}

impl Duration {
    /// The duration's base glyph: a named long glyph for values of two
    /// whole notes and more, else the reciprocal power of two, shrunk by
    /// one power for each dot.
    pub open spec fn base_token_spec(self) -> Seq<char> {
        if self.num() >= 8 * self.den() {
            "\\maxima"@
        } else if self.num() >= 4 * self.den() {
            "\\longa"@
        } else if self.num() >= 2 * self.den() {
            "\\breve"@
        } else {
            dec_digits(pow2_val(pow2_exp_spec(self.den()) - (ones_in(self.num()) - 1)))
        }
    }

    /// The duration's full token: the base glyph and one dot for each one
    /// bit of the numerator past the first.
    pub open spec fn token_spec(self) -> Seq<char> {
        self.base_token_spec() + repeat_seq("."@, ones_in(self.num()) - 1)
    }
}

} // verus!

verus! {

/// Rendering into LilyPond source text.
///
/// `lily_req` is the well-formedness the renderer needs (it never panics
/// on such values), `lily_ok` says on which of those values rendering
/// succeeds, and `lily_str` is the exact text of a successful rendering.
pub trait ToLilypond {
    /// The values the renderer accepts.
    spec fn lily_req(&self) -> bool;

    /// The accepted values whose rendering succeeds.
    spec fn lily_ok(&self) -> bool;

    /// The text of a successful rendering.
    spec fn lily_str(&self) -> Seq<char>;

    /// Renders the value as LilyPond source text.
    fn to_lilypond(&self) -> (r: Result<String, Error>)
        requires
            self.lily_req(),
        ensures
            self.lily_ok() <==> r is Ok,
            r matches Ok(s) ==> s@ == self.lily_str(),
    ;
}

impl ToLilypond for Duration {
    /// The duration must be a reduced fraction.
    open spec fn lily_req(&self) -> bool {
        self.wf()
    }

    /// Only printable durations have a single-symbol rendering.
    open spec fn lily_ok(&self) -> bool {
        self.is_printable_spec()
    }

    open spec fn lily_str(&self) -> Seq<char> {
        self.token_spec()
    }

    /// The duration's token, or `UnprintableDuration` when no single
    /// symbol carries it.
    fn to_lilypond(&self) -> (r: Result<String, Error>)
        ensures
            r matches Err(e) ==> e == Error::UnprintableDuration(*self),
    {
        if !self.is_printable() {
            return Err(Error::UnprintableDuration(*self));
        }
        let n = self.numerator;
        let d = self.denominator;
        proof {
            lemma_ones_in_pos(n as int);
        }
        let ones = count_ones(n);
        let dots = ones - 1;
        let mut out: String;
        if (n as i64) >= 8 * (d as i64) {
            out = String::from_str("\\maxima");
        } else if (n as i64) >= 4 * (d as i64) {
            out = String::from_str("\\longa");
        } else if (n as i64) >= 2 * (d as i64) {
            out = String::from_str("\\breve");
        } else {
            let k = pow2_exponent(d);
            proof {
                lemma_pow2_val_of_exp(d as int);
                assert(pow2_val(k as int + 1) == 2 * pow2_val(k as int));
                lemma_ones_bound(n as int, k as int + 1);
            }
            let e = k - dots;
            let v = pow2_value(e);
            out = u64_to_string(v as u64);
        }
        let marks = repeat_str(".", dots as usize);
        out.append(marks.as_str());
        Ok(out)
    }
}

impl Notehead {
    /// The notehead's text: the pitch name and the display mark, if any.
    pub open spec fn name_spec(self) -> Seq<char> {
        self.written_pitch.name_spec() + (match self.accidental_display {
            Some(ad) => ad.mark_spec(),
            None => Seq::empty(),
        })
    }
}

impl ToLilypond for Notehead {
    open spec fn lily_req(&self) -> bool {
        true
    }

    open spec fn lily_ok(&self) -> bool {
        true
    }

    open spec fn lily_str(&self) -> Seq<char> {
        self.name_spec()
    }

    /// The pitch name followed by the accidental-display mark.
    fn to_lilypond(&self) -> (r: Result<String, Error>) {
        let mut out = self.written_pitch.name();
        match self.accidental_display {
            Some(ad) => {
                let mark = ad.mark();
                out.append(mark.as_str());
            },
            None => {
                proof {
                    assert(out@ =~= out@ + Seq::<char>::empty());
                }
            },
        }
        Ok(out)
    }
}

impl ToLilypond for Note {
    open spec fn lily_req(&self) -> bool {
        self.wf()
    }

    open spec fn lily_ok(&self) -> bool {
        true
    }

    open spec fn lily_str(&self) -> Seq<char> {
        self.notehead.name_spec() + self.written_duration.token_spec()
    }

    /// The notehead's text followed by the duration token.
    fn to_lilypond(&self) -> (r: Result<String, Error>) {
        let head = match self.notehead.to_lilypond() {
            Ok(s) => s,
            Err(_) => {
                proof {
                    assert(false);
                }
                vstd::pervasive::unreached()
            },
        };
        let tail = match self.written_duration.to_lilypond() {
            Ok(s) => s,
            Err(_) => {
                proof {
                    assert(false);
                }
                vstd::pervasive::unreached()
            },
        };
        let mut out = head;
        out.append(tail.as_str());
        Ok(out)
    }
}

impl ToLilypond for Rest {
    open spec fn lily_req(&self) -> bool {
        self.wf()
    }

    open spec fn lily_ok(&self) -> bool {
        true
    }

    open spec fn lily_str(&self) -> Seq<char> {
        "r"@ + self.written_duration.token_spec()
    }

    /// An `r` followed by the duration token.
    fn to_lilypond(&self) -> (r: Result<String, Error>) {
        let tail = match self.written_duration.to_lilypond() {
            Ok(s) => s,
            Err(_) => {
                proof {
                    assert(false);
                }
                vstd::pervasive::unreached()
            },
        };
        let mut out = String::from_str("r");
        out.append(tail.as_str());
        Ok(out)
    }
}

impl ToLilypond for Spacer {
    open spec fn lily_req(&self) -> bool {
        self.wf()
    }

    open spec fn lily_ok(&self) -> bool {
        true
    }

    open spec fn lily_str(&self) -> Seq<char> {
        "s"@ + self.written_duration.token_spec()
    }

    /// An `s` followed by the duration token.
    fn to_lilypond(&self) -> (r: Result<String, Error>) {
        let tail = match self.written_duration.to_lilypond() {
            Ok(s) => s,
            Err(_) => {
                proof {
                    assert(false);
                }
                vstd::pervasive::unreached()
            },
        };
        let mut out = String::from_str("s");
        out.append(tail.as_str());
        Ok(out)
    }
}

/// The lines of a chord body: each notehead's text behind two spaces.
pub open spec fn notehead_lines(s: Seq<Notehead>) -> Seq<Seq<char>>
    decreases s.len(),
{
    if s.len() == 0 {
        Seq::empty()
    } else {
        notehead_lines(s.drop_last()).push("  "@ + s.last().name_spec())
    }
}

impl Chord {
    /// The chord's notehead block: each notehead on its own line, pushed
    /// right by two spaces.
    pub open spec fn notehead_lines_spec(self) -> Seq<char> {
        join_seq(notehead_lines(self.noteheads@), "\n"@)
    }
}

impl ToLilypond for Chord {
    open spec fn lily_req(&self) -> bool {
        self.wf()
    }

    open spec fn lily_ok(&self) -> bool {
        true
    }

    open spec fn lily_str(&self) -> Seq<char> {
        "<\n"@ + self.notehead_lines_spec() + "\n>"@ + self.written_duration.token_spec()
    }

    /// The angle-bracketed notehead block followed by the duration token.
    fn to_lilypond(&self) -> (r: Result<String, Error>) {
        let mut parts: Vec<String> = Vec::new();
        let mut i: usize = 0;
        proof {
            assert(notehead_lines(self.noteheads@.subrange(0, 0)) =~= Seq::<Seq<char>>::empty());
            assert(views_of(parts@) =~= Seq::<Seq<char>>::empty());
        }
        while i < self.noteheads.len()
            invariant
                i <= self.noteheads@.len(),
                views_of(parts@) == notehead_lines(self.noteheads@.subrange(0, i as int)),
            decreases self.noteheads@.len() - i,
        {
            let mut line = String::from_str("  ");
            let head = match self.noteheads[i].to_lilypond() {
                Ok(s) => s,
                Err(_) => {
                    proof {
                        assert(false);
                    }
                    vstd::pervasive::unreached()
                },
            };
            line.append(head.as_str());
            let ghost preparts = parts@;
            parts.push(line);
            proof {
                assert(line@ == "  "@ + self.noteheads@[i as int].name_spec());
                assert(parts@.drop_last() =~= preparts);
                assert(self.noteheads@.subrange(0, i + 1).drop_last() =~= self.noteheads@.subrange(
                    0,
                    i as int,
                ));
                assert(self.noteheads@.subrange(0, i + 1).last() == self.noteheads@[i as int]);
                assert(views_of(parts@) == notehead_lines(self.noteheads@.subrange(0, i + 1)));
            }
            i = i + 1;
        }
        proof {
            assert(self.noteheads@.subrange(0, self.noteheads@.len() as int) =~= self.noteheads@);
        }
        let body = join_strings(&parts, "\n");
        let tail = match self.written_duration.to_lilypond() {
            Ok(s) => s,
            Err(_) => {
                proof {
                    assert(false);
                }
                vstd::pervasive::unreached()
            },
        };
        let mut out = String::from_str("<\n");
        out.append(body.as_str());
        out.append("\n>");
        out.append(tail.as_str());
        Ok(out)
    }
}

} // verus!

verus! {

/// The view of an optional name.
pub open spec fn name_view(n: Option<String>) -> Option<Seq<char>> {
    match n {
        Some(s) => Some(s@),
        None => None,
    }
}

/// Deep well-formedness of a tree of containables: every leaf duration is
/// reduced and printable.
pub open spec fn tree_wf(c: Containable) -> bool
    decreases c, 1nat,
{
    match c {
        Containable::Chord(x) => x.wf(),
        Containable::Note(x) => x.wf(),
        Containable::Rest(x) => x.wf(),
        Containable::Spacer(x) => x.wf(),
        Containable::Container(x) => seq_tree_wf(x.contents@),
        Containable::Tuplet(x) => seq_tree_wf(x.contents@),
        Containable::Voice(x) => seq_tree_wf(x.contents@),
        Containable::RhythmicStaff(x) => seq_tree_wf(x.contents@),
        Containable::Staff(x) => seq_tree_wf(x.contents@),
        Containable::StaffGroup(x) => seq_tree_wf(x.contents@),
        Containable::Score(x) => seq_tree_wf(x.contents@),
    }
}

/// Deep well-formedness of a row of containables.
pub open spec fn seq_tree_wf(s: Seq<Containable>) -> bool
    decreases s, 0nat,
{
    s.len() == 0 || (seq_tree_wf(s.drop_last()) && tree_wf(s.last()))
}

/// Each member of a deeply well-formed row is deeply well-formed.
pub proof fn lemma_seq_tree_wf_index(s: Seq<Containable>, i: int)
    requires
        seq_tree_wf(s),
        0 <= i < s.len(),
    ensures
        tree_wf(s[i]),
    decreases s.len(),
{
    if i == s.len() - 1 {
    } else {
        lemma_seq_tree_wf_index(s.drop_last(), i);
    }
}

/// The body of a block: its parts joined line by line and pushed right.
pub open spec fn block_body(parts: Seq<Seq<char>>) -> Seq<char> {
    indent_seq(join_seq(parts, "\n"@))
}

/// A context block: the header, the opening delimiter, the indented body,
/// and the closing delimiter.
pub open spec fn block_str(
    name: Option<Seq<char>>,
    context_type: Seq<char>,
    simultaneous: bool,
    parts: Seq<Seq<char>>,
) -> Seq<char> {
    context_signature_spec(name, context_type) + " "@ + (if simultaneous {
        "<<"@
    } else {
        "{"@
    }) + "\n"@ + block_body(parts) + "\n"@ + (if simultaneous {
        ">>"@
    } else {
        "}"@
    })
}

/// The text of one containable.
pub open spec fn render_spec(c: Containable) -> Seq<char>
    decreases c, 1nat,
{
    match c {
        Containable::Chord(x) => "<\n"@ + x.notehead_lines_spec() + "\n>"@
            + x.written_duration.token_spec(),
        Containable::Note(x) => x.notehead.name_spec() + x.written_duration.token_spec(),
        Containable::Rest(x) => "r"@ + x.written_duration.token_spec(),
        Containable::Spacer(x) => "s"@ + x.written_duration.token_spec(),
        Containable::Container(x) => "{\n"@ + block_body(render_parts_spec(x.contents@)) + "\n}"@,
        Containable::Tuplet(x) => "\\tuplet "@ + crate::text::int_str(x.multiplier.den()) + "/"@
            + crate::text::int_str(x.multiplier.num()) + " {\n"@ + block_body(
            render_parts_spec(x.contents@),
        ) + "\n}"@,
        Containable::Voice(x) => block_str(
            name_view(x.name),
            "Voice"@,
            x.simultaneous,
            render_parts_spec(x.contents@),
        ),
        Containable::RhythmicStaff(x) => block_str(
            name_view(x.name),
            "RhythmicStaff"@,
            x.simultaneous,
            render_parts_spec(x.contents@),
        ),
        Containable::Staff(x) => block_str(
            name_view(x.name),
            "Staff"@,
            x.simultaneous,
            render_parts_spec(x.contents@),
        ),
        Containable::StaffGroup(x) => block_str(
            name_view(x.name),
            "StaffGroup"@,
            true,
            render_parts_spec(x.contents@),
        ),
        Containable::Score(x) => block_str(
            name_view(x.name),
            "Score"@,
            true,
            render_parts_spec(x.contents@),
        ),
    }
}

/// The texts of a row of containables, in order.
pub open spec fn render_parts_spec(s: Seq<Containable>) -> Seq<Seq<char>>
    decreases s, 0nat,
{
    if s.len() == 0 {
        Seq::empty()
    } else {
        render_parts_spec(s.drop_last()).push(render_spec(s.last()))
    }
}

/// Renders one containable.
pub fn render_containable(c: &Containable) -> (r: String)
    requires
        tree_wf(*c),
    ensures
        r@ == render_spec(*c),
    decreases *c, 3nat,
{
    match c {
        Containable::Chord(x) => match x.to_lilypond() {
            Ok(s) => s,
            Err(_) => {
                proof {
                    assert(false);
                }
                vstd::pervasive::unreached()
            },
        },
        Containable::Note(x) => match x.to_lilypond() {
            Ok(s) => s,
            Err(_) => {
                proof {
                    assert(false);
                }
                vstd::pervasive::unreached()
            },
        },
        Containable::Rest(x) => match x.to_lilypond() {
            Ok(s) => s,
            Err(_) => {
                proof {
                    assert(false);
                }
                vstd::pervasive::unreached()
            },
        },
        Containable::Spacer(x) => match x.to_lilypond() {
            Ok(s) => s,
            Err(_) => {
                proof {
                    assert(false);
                }
                vstd::pervasive::unreached()
            },
        },
        Containable::Container(x) => {
            proof {
                assert(decreases_to!(*c => x.contents));
                assert(decreases_to!(x.contents => x.contents@));
            }
            let body = format_contents(x.contents.as_slice());
            let mut out = String::from_str("{\n");
            out.append(body.as_str());
            out.append("\n}");
            out
        },
        Containable::Tuplet(x) => {
            proof {
                assert(decreases_to!(*c => x.contents));
                assert(decreases_to!(x.contents => x.contents@));
            }
            let body = format_contents(x.contents.as_slice());
            let mut out = String::from_str("\\tuplet ");
            let den = crate::text::i64_to_string(x.multiplier.denominator as i64);
            out.append(den.as_str());
            out.append("/");
            let num = crate::text::i64_to_string(x.multiplier.numerator as i64);
            out.append(num.as_str());
            out.append(" {\n");
            out.append(body.as_str());
            out.append("\n}");
            out
        },
        Containable::Voice(x) => {
            proof {
                assert(decreases_to!(*c => x.contents));
                assert(decreases_to!(x.contents => x.contents@));
            }
            render_block(&x.name, "Voice", x.simultaneous, x.contents.as_slice())
        },
        Containable::RhythmicStaff(x) => {
            proof {
                assert(decreases_to!(*c => x.contents));
                assert(decreases_to!(x.contents => x.contents@));
            }
            render_block(&x.name, "RhythmicStaff", x.simultaneous, x.contents.as_slice())
        },
        Containable::Staff(x) => {
            proof {
                assert(decreases_to!(*c => x.contents));
                assert(decreases_to!(x.contents => x.contents@));
            }
            render_block(&x.name, "Staff", x.simultaneous, x.contents.as_slice())
        },
        Containable::StaffGroup(x) => {
            proof {
                assert(decreases_to!(*c => x.contents));
                assert(decreases_to!(x.contents => x.contents@));
            }
            render_block(&x.name, "StaffGroup", true, x.contents.as_slice())
        },
        Containable::Score(x) => {
            proof {
                assert(decreases_to!(*c => x.contents));
                assert(decreases_to!(x.contents => x.contents@));
            }
            render_block(&x.name, "Score", true, x.contents.as_slice())
        },
    }
}

/// Renders a context block around the given contents.
fn render_block(
    name: &Option<String>,
    context_type: &str,
    simultaneous: bool,
    contents: &[Containable],
) -> (r: String)
    requires
        seq_tree_wf(contents@),
    ensures
        r@ == block_str(name_view(*name), context_type@, simultaneous, render_parts_spec(contents@)),
    decreases contents@, 2nat,
{
    let mut out = context_signature(name, context_type);
    let (open, close) = delimiters(simultaneous);
    out.append(" ");
    out.append(open.as_str());
    out.append("\n");
    let body = format_contents(contents);
    out.append(body.as_str());
    out.append("\n");
    out.append(close.as_str());
    out
}

/// Renders the contents of a block: every element on its own lines, joined
/// and pushed right by two spaces.
pub fn format_contents(contents: &[Containable]) -> (r: String)
    requires
        seq_tree_wf(contents@),
    ensures
        r@ == block_body(render_parts_spec(contents@)),
    decreases contents@, 1nat,
{
    let parts = render_parts(contents);
    let joined = join_strings(&parts, "\n");
    indent(joined.as_str())
}

/// Renders each element of a row.
fn render_parts(cs: &[Containable]) -> (r: Vec<String>)
    requires
        seq_tree_wf(cs@),
    ensures
        views_of(r@) == render_parts_spec(cs@),
    decreases cs@, 0nat,
{
    let mut out: Vec<String> = Vec::new();
    let mut i: usize = 0;
    proof {
        assert(views_of(out@) =~= Seq::<Seq<char>>::empty());
        assert(render_parts_spec(cs@.subrange(0, 0)) =~= Seq::<Seq<char>>::empty());
    }
    while i < cs.len()
        invariant
            i <= cs@.len(),
            seq_tree_wf(cs@),
            views_of(out@) == render_parts_spec(cs@.subrange(0, i as int)),
        decreases cs@.len() - i,
    {
        proof {
            lemma_seq_tree_wf_index(cs@, i as int);
            assert(decreases_to!(cs@ => cs@[i as int]));
        }
        let piece = render_containable(&cs[i]);
        let ghost pre = out@;
        out.push(piece);
        proof {
            assert(out@.drop_last() =~= pre);
            assert(cs@.subrange(0, i + 1).drop_last() =~= cs@.subrange(0, i as int));
            assert(cs@.subrange(0, i + 1).last() == cs@[i as int]);
            assert(views_of(out@) == render_parts_spec(cs@.subrange(0, i + 1)));
        }
        i = i + 1;
    }
    proof {
        assert(cs@.subrange(0, cs@.len() as int) =~= cs@);
    }
    out
}

} // verus!

verus! {

impl ToLilypond for Container {
    open spec fn lily_req(&self) -> bool {
        seq_tree_wf(self.contents@)
    }

    open spec fn lily_ok(&self) -> bool {
        true
    }

    open spec fn lily_str(&self) -> Seq<char> {
        "{\n"@ + block_body(render_parts_spec(self.contents@)) + "\n}"@
    }

    /// The contents inside a brace pair.
    fn to_lilypond(&self) -> (r: Result<String, Error>) {
        let body = format_contents(self.contents.as_slice());
        let mut out = String::from_str("{\n");
        out.append(body.as_str());
        out.append("\n}");
        Ok(out)
    }
}

impl ToLilypond for Tuplet {
    open spec fn lily_req(&self) -> bool {
        seq_tree_wf(self.contents@)
    }

    open spec fn lily_ok(&self) -> bool {
        true
    }

    open spec fn lily_str(&self) -> Seq<char> {
        "\\tuplet "@ + crate::text::int_str(self.multiplier.den()) + "/"@ + crate::text::int_str(
            self.multiplier.num(),
        ) + " {\n"@ + block_body(render_parts_spec(self.contents@)) + "\n}"@
    }

    /// The ratio (denominator over numerator) before a braced block.
    fn to_lilypond(&self) -> (r: Result<String, Error>) {
        let body = format_contents(self.contents.as_slice());
        let mut out = String::from_str("\\tuplet ");
        let den = crate::text::i64_to_string(self.multiplier.denominator as i64);
        out.append(den.as_str());
        out.append("/");
        let num = crate::text::i64_to_string(self.multiplier.numerator as i64);
        out.append(num.as_str());
        out.append(" {\n");
        out.append(body.as_str());
        out.append("\n}");
        Ok(out)
    }
}

impl ToLilypond for Voice {
    open spec fn lily_req(&self) -> bool {
        seq_tree_wf(self.contents@)
    }

    open spec fn lily_ok(&self) -> bool {
        true
    }

    open spec fn lily_str(&self) -> Seq<char> {
        block_str(
            name_view(self.name),
            "Voice"@,
            self.simultaneous,
            render_parts_spec(self.contents@),
        )
    }

    /// A `Voice` context block.
    fn to_lilypond(&self) -> (r: Result<String, Error>) {
        Ok(render_block(&self.name, "Voice", self.simultaneous, self.contents.as_slice()))
    }
}

impl ToLilypond for Staff {
    open spec fn lily_req(&self) -> bool {
        seq_tree_wf(self.contents@)
    }

    open spec fn lily_ok(&self) -> bool {
        true
    }

    open spec fn lily_str(&self) -> Seq<char> {
        block_str(
            name_view(self.name),
            "Staff"@,
            self.simultaneous,
            render_parts_spec(self.contents@),
        )
    }

    /// A `Staff` context block.
    fn to_lilypond(&self) -> (r: Result<String, Error>) {
        Ok(render_block(&self.name, "Staff", self.simultaneous, self.contents.as_slice()))
    }
}

impl ToLilypond for RhythmicStaff {
    open spec fn lily_req(&self) -> bool {
        seq_tree_wf(self.contents@)
    }

    open spec fn lily_ok(&self) -> bool {
        true
    }

    open spec fn lily_str(&self) -> Seq<char> {
        block_str(
            name_view(self.name),
            "RhythmicStaff"@,
            self.simultaneous,
            render_parts_spec(self.contents@),
        )
    }

    /// A `RhythmicStaff` context block.
    fn to_lilypond(&self) -> (r: Result<String, Error>) {
        Ok(
            render_block(
                &self.name,
                "RhythmicStaff",
                self.simultaneous,
                self.contents.as_slice(),
            ),
        )
    }
}

impl ToLilypond for StaffGroup {
    open spec fn lily_req(&self) -> bool {
        seq_tree_wf(self.contents@)
    }

    open spec fn lily_ok(&self) -> bool {
        true
    }

    open spec fn lily_str(&self) -> Seq<char> {
        block_str(name_view(self.name), "StaffGroup"@, true, render_parts_spec(self.contents@))
    }

    /// A `StaffGroup` context block; staff groups always sound at once.
    fn to_lilypond(&self) -> (r: Result<String, Error>) {
        Ok(render_block(&self.name, "StaffGroup", true, self.contents.as_slice()))
    }
}

impl ToLilypond for Score {
    open spec fn lily_req(&self) -> bool {
        seq_tree_wf(self.contents@)
    }

    open spec fn lily_ok(&self) -> bool {
        true
    }

    open spec fn lily_str(&self) -> Seq<char> {
        block_str(name_view(self.name), "Score"@, true, render_parts_spec(self.contents@))
    }

    /// A `Score` context block; scores always sound at once.
    fn to_lilypond(&self) -> (r: Result<String, Error>) {
        Ok(render_block(&self.name, "Score", true, self.contents.as_slice()))
    }
}

impl ToLilypond for Containable {
    open spec fn lily_req(&self) -> bool {
        tree_wf(*self)
    }

    open spec fn lily_ok(&self) -> bool {
        true
    }

    open spec fn lily_str(&self) -> Seq<char> {
        render_spec(*self)
    }

    /// Whatever the held element renders as.
    fn to_lilypond(&self) -> (r: Result<String, Error>) {
        Ok(render_containable(self))
    }
}

} // verus!
