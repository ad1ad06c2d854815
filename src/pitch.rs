use vstd::prelude::*;

use crate::error::SynthError;

verus! {

/// Number of tones in one register.
pub const TONES_PER_REGISTER: usize = 12;

/// Number of entries in the tone table: nine registers, from the sub-contra
/// octave up to the fifth, of twelve tones each.
pub const TABLE_LEN: usize = 108;

/// Semitones from the lowest table entry (sub-contra c) up to the reference a1.
pub const REFERENCE_INDEX: i8 = 57;

/// Position of a tone letter inside a register: c C d D e f F g G a A h,
/// where an upper-case letter is the raised tone. -1 for any other character.
pub open spec fn tone_step(c: char) -> int {
    if c == 'c' { 0 }
    else if c == 'C' { 1 }
    else if c == 'd' { 2 }
    else if c == 'D' { 3 }
    else if c == 'e' { 4 }
    else if c == 'f' { 5 }
    else if c == 'F' { 6 }
    else if c == 'g' { 7 }
    else if c == 'G' { 8 }
    else if c == 'a' { 9 }
    else if c == 'A' { 10 }
    else if c == 'h' { 11 }
    else { -1 }
}

/// Index of a register marker, lowest first: C (sub-contra), c (contra),
/// b (great), s (small), then the digits 1 to 5. -1 for any other character.
pub open spec fn register_of(c: char) -> int {
    if c == 'C' { 0 }
    else if c == 'c' { 1 }
    else if c == 'b' { 2 }
    else if c == 's' { 3 }
    else if c == '1' { 4 }
    else if c == '2' { 5 }
    else if c == '3' { 6 }
    else if c == '4' { 7 }
    else if c == '5' { 8 }
    else { -1 }
}

/// A pitch name is a tone letter followed by a register marker.
pub open spec fn is_pitch_name(name: Seq<char>) -> bool {
    &&& name.len() == 2
    &&& tone_step(name[0]) >= 0
    &&& register_of(name[1]) >= 0
}

/// Semitone offset of a pitch name from the reference a1 (equal temperament).
pub open spec fn semitone_of(name: Seq<char>) -> int {
    12 * register_of(name[1]) + tone_step(name[0]) - 57
}

/// The rest marker: a note that sounds nothing.
pub open spec fn is_rest_name(name: Seq<char>) -> bool {
    name == seq!['p']
}

/// What a note's name stands for.
#[derive(Debug, Clone, Copy, PartialEq, Eq, Structural)]
pub enum Pitch {
    /// Silence for the note's length.
    Rest,
    /// A tone, as its semitone offset from the reference a1.
    Tone(i8),
}

/// The fixed mapping from pitch names to semitone offsets. The tuning is
/// equal temperament throughout: every register lies exactly twelve
/// semitones above the one below it, so no two names share an offset.
pub struct ToneTable {
    offsets: Vec<i8>,
}

fn tone_step_of(c: char) -> (r: Option<usize>)
    ensures
        tone_step(c) < 0 ==> r is None,
        tone_step(c) >= 0 ==> r == Some(tone_step(c) as usize),
{
    if c == 'c' { Some(0) }
    else if c == 'C' { Some(1) }
    else if c == 'd' { Some(2) }
    else if c == 'D' { Some(3) }
    else if c == 'e' { Some(4) }
    else if c == 'f' { Some(5) }
    else if c == 'F' { Some(6) }
    else if c == 'g' { Some(7) }
    else if c == 'G' { Some(8) }
    else if c == 'a' { Some(9) }
    else if c == 'A' { Some(10) }
    else if c == 'h' { Some(11) }
    else { None }
}

fn register_index(c: char) -> (r: Option<usize>)
    ensures
        register_of(c) < 0 ==> r is None,
        register_of(c) >= 0 ==> r == Some(register_of(c) as usize),
{
    if c == 'C' { Some(0) }
    else if c == 'c' { Some(1) }
    else if c == 'b' { Some(2) }
    else if c == 's' { Some(3) }
    else if c == '1' { Some(4) }
    else if c == '2' { Some(5) }
    else if c == '3' { Some(6) }
    else if c == '4' { Some(7) }
    else if c == '5' { Some(8) }
    else { None }
}

/// Builds the tone table: every register from sub-contra to the fifth, each
/// with its twelve tones, a1 at offset 0.
pub fn get_tone_table() -> (t: ToneTable)
    ensures
        t.wf(),
{
    let mut offsets: Vec<i8> = Vec::new();
    let mut i: usize = 0;
    while i < TABLE_LEN
        invariant
            i <= TABLE_LEN,
            offsets@.len() == i,
            forall|k: int| 0 <= k < i ==> offsets@[k] == k - 57,
        decreases TABLE_LEN - i,
    {
        let v: i8 = (i as i8) - REFERENCE_INDEX;
        offsets.push(v);
        i = i + 1;
    }
    ToneTable { offsets }
}

impl ToneTable {
    /// Entry `k` holds the offset of tone `k % 12` in register `k / 12`.
    pub closed spec fn wf(&self) -> bool {
        &&& self.offsets@.len() == TABLE_LEN
        &&& forall|k: int| 0 <= k < TABLE_LEN ==> self.offsets@[k] == k - 57
    }

    /// The semitone offset of a pitch name; `UnknownPitch` for any other text.
    pub fn lookup(&self, name: &str) -> (r: Result<i8, SynthError>)
        requires
            self.wf(),
        ensures
            is_pitch_name(name@) ==> r == Ok::<i8, SynthError>(semitone_of(name@) as i8),
            !is_pitch_name(name@) ==> r == Err::<i8, SynthError>(SynthError::UnknownPitch),
    {
        if name.unicode_len() != 2 {
            return Err(SynthError::UnknownPitch);
        }
        let tone = tone_step_of(name.get_char(0));
        let register = register_index(name.get_char(1));
        match (tone, register) {
            (Some(t), Some(g)) => {
                let k: usize = g * TONES_PER_REGISTER + t;
                Ok(self.offsets[k])
            },
            _ => Err(SynthError::UnknownPitch),
        }
    }

    /// What a note's name stands for: the rest marker `p`, or a pitch name.
    pub fn resolve(&self, name: &str) -> (r: Result<Pitch, SynthError>)
        requires
            self.wf(),
        ensures
            is_rest_name(name@) ==> r == Ok::<Pitch, SynthError>(Pitch::Rest),
            is_pitch_name(name@) ==> r == Ok::<Pitch, SynthError>(Pitch::Tone(semitone_of(name@) as i8)),
            !is_rest_name(name@) && !is_pitch_name(name@)
                ==> r == Err::<Pitch, SynthError>(SynthError::UnknownPitch),
    {
        if name.unicode_len() == 1 && name.get_char(0) == 'p' {
            assert(name@ =~= seq!['p']);
            return Ok(Pitch::Rest);
        }
        match self.lookup(name) {
            Ok(s) => Ok(Pitch::Tone(s)),
            Err(e) => Err(e),
        }
    }
}

} // verus!
