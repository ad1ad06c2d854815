use vstd::prelude::*;

use crate::error::SynthError;

verus! {

/// The output sinks that a composition can be rendered to.
#[derive(Debug, Clone, Copy, PartialEq, Eq, Structural)]
pub enum BackendKind {
    /// Live playback on the default sound server.
    Pulse,
    /// A 16-bit mono WAV file.
    Wav,
}

fn same_text(a: &str, b: &str) -> (r: bool)
    ensures
        r == (a@ == b@),
{
    let n: usize = a.unicode_len();
    if n != b.unicode_len() {
        return false;
    }
    let mut i: usize = 0;
    while i < n
        invariant
            i <= n,
            n == a@.len(),
            n == b@.len(),
            forall|k: int| 0 <= k < i ==> a@[k] == b@[k],
        decreases n - i,
    {
        if a.get_char(i) != b.get_char(i) {
            return false;
        }
        i = i + 1;
    }
    assert(a@ =~= b@);
    true
}

/// The sink that goes by `name`: `pulse` or `wav`.
pub fn backend_kind(name: &str) -> (r: Result<BackendKind, SynthError>)
    ensures
        name@ == "pulse"@ ==> r == Ok::<BackendKind, SynthError>(BackendKind::Pulse),
        name@ == "wav"@ ==> r == Ok::<BackendKind, SynthError>(BackendKind::Wav),
        name@ != "pulse"@ && name@ != "wav"@ ==> r == Err::<BackendKind, SynthError>(
            SynthError::UnknownBackend,
        ),
{
    proof {
        reveal_strlit("pulse");
        reveal_strlit("wav");
        assert("pulse"@.len() != "wav"@.len());
    }
    if same_text(name, "pulse") {
        Ok(BackendKind::Pulse)
    } else if same_text(name, "wav") {
        Ok(BackendKind::Wav)
    } else {
        Err(SynthError::UnknownBackend)
    }
}

} // verus!
