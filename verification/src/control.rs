//! Decisions the audio loop takes on each frame, from the live settings.
use vstd::prelude::*;

verus! {

/// The FFT size that the stored `fft_size` setting asks for: the stored
/// value when it is a positive unsigned integer, else `default`.
pub open spec fn fft_size_for_spec(stored: Option<u64>, default: usize) -> usize {
    match stored {
        Some(v) => if v as usize > 0 { v as usize } else { default },
        None => default,
    }
}

/// Read ONLY fft_size from the settings: the FFT size to open the stream with.
pub fn fft_size_for(stored: Option<u64>, default: usize) -> (size: usize)
    ensures
        size == fft_size_for_spec(stored, default),
{
    match stored {
        Some(v) => {
            let size = v as usize;
            if size > 0 { size } else { default }
        },
        None => default,
    }
}

/// Whether the stored `fft_size` setting asks for a different FFT size than
/// the one the running stream uses (so that the stream must be restarted).
/// A missing or non-numeric setting keeps the current size. A stored 0 differs
/// from every running size, so it keeps restarting the stream, which is then
/// opened with the built-in size again.
pub open spec fn fft_size_changed_spec(stored: Option<u64>, current: usize) -> bool {
    match stored {
        Some(v) => v as usize != current,
        None => false,
    }
}

/// Check if the FFT size changed (the setting read as an unsigned integer, if it is one).
pub fn fft_size_changed(stored: Option<u64>, current: usize) -> (changed: bool)
    ensures
        changed == fft_size_changed_spec(stored, current),
{
    let new_fft: usize = match stored {
        Some(v) => v as usize,
        None => current,
    };
    new_fft != current
}

/// A stream opened with the size that a nonzero setting asks for is not
/// restarted while the setting stays the same.
pub proof fn lemma_reopened_stream_is_kept(stored: Option<u64>, default: usize)
    requires
        !(stored matches Some(v) && v as usize == 0),
    ensures
        !fft_size_changed_spec(stored, fft_size_for_spec(stored, default)),
{
}

/// What the `effect` setting holds.
#[derive(Debug)]
pub enum EffectSetting {
    /// A string: the name of a suite, like "pulse" or "wave".
    Name(String),
    /// An unsigned integer: the position of a suite, like 0, 1, 2...
    Index(u64),
    /// Anything else.
    Other,
}

/// The suite that the loop drives this frame.
#[derive(Debug)]
pub enum SuiteChoice {
    /// The suite registered under this name, if there is one.
    Named(String),
    /// The suite at this position of the ordered list.
    Ordered(usize),
    /// No suite: nothing is sent this frame.
    NoSuite,
}

/// The suite an `effect` setting selects when `ordered_count` suites are
/// listed by position: a name selects by name; a number selects the suite at
/// that position if there is one; anything else, or no setting, selects none.
pub fn choose_suite(setting: Option<EffectSetting>, ordered_count: usize) -> (c: SuiteChoice)
    ensures
        match setting {
            Some(EffectSetting::Name(name)) => c matches SuiteChoice::Named(n) && n@ == name@,
            Some(EffectSetting::Index(idx)) => if (idx as usize) < ordered_count {
                c matches SuiteChoice::Ordered(i) && i == idx as usize
            } else {
                c is NoSuite
            },
            _ => c is NoSuite,
        },
{
    match setting {
        // Case 1: string effect key
        Some(EffectSetting::Name(name)) => SuiteChoice::Named(name),
        // Case 2: numeric effect index
        Some(EffectSetting::Index(idx)) => {
            let idx = idx as usize;
            if idx < ordered_count {
                SuiteChoice::Ordered(idx)
            } else {
                SuiteChoice::NoSuite
            }
        },
        _ => SuiteChoice::NoSuite,
    }
}


/// The stream restarts exactly when the stored size is a number other than
/// the running size; without a numeric setting it never restarts. For a
/// positive setting that is the same as: the size the stream would now be
/// opened with differs from the running one.
pub proof fn lemma_restart_rule(stored: Option<u64>, current: usize, default: usize)
    ensures
        forall|v: u64| stored == Some(v) ==> (fft_size_changed_spec(stored, current) <==> v as usize != current),
        stored is None ==> !fft_size_changed_spec(stored, current),
        forall|v: u64| stored == Some(v) && v as usize > 0 ==>
            (fft_size_changed_spec(stored, current) <==> fft_size_for_spec(stored, default) != current),
{
}

/// The stream opens with the stored size when it is a positive number, and
/// with the built-in size otherwise.
pub proof fn lemma_open_size(stored: Option<u64>, default: usize)
    ensures
        forall|v: u64| stored == Some(v) && v as usize > 0 ==> fft_size_for_spec(stored, default) == v as usize,
        forall|v: u64| stored == Some(v) && v as usize == 0 ==> fft_size_for_spec(stored, default) == default,
        stored is None ==> fft_size_for_spec(stored, default) == default,
{
}

} // verus!
