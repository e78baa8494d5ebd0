//! Choosing the audio device: command-line mode and the one-character
//! keys that label devices in the interactive picker.
use vstd::prelude::*;

verus! {

/// How the audio device is picked at start-up.
#[derive(Clone, Copy, Debug, PartialEq, Eq, Structural)]
pub enum DeviceSelectionMode {
    DefaultInput,
    DefaultOutput,
    ChooseInteractive,
}

/// The key shown for device number `idx`: a digit below ten, then letters
/// counted from `'a'`, with the offset taken modulo 256 as a byte.
pub open spec fn device_key_spec(idx: nat) -> char {
    if idx < 10 {
        (idx + 48) as char
    } else {
        (((idx - 10) % 256) + 97) as char
    }
}

/// Whether `device_key` can compute the key of `idx` without overflowing a byte.
pub open spec fn device_key_defined(idx: nat) -> bool {
    idx < 10 || ((idx - 10) % 256) + 97 < 256
}

/// Map integer index -> display key
pub fn device_key(idx: usize) -> (c: char)
    requires
        device_key_defined(idx as nat),
    ensures
        c == device_key_spec(idx as nat),
{
    if idx < 10 {
        let d: u8 = idx as u8;
        (d + 48u8) as char
    } else {
        let off: u8 = (idx - 10) as u8;
        assert(off == (idx - 10) % 256) by (bit_vector)
            requires off == (idx - 10) as u8, idx >= 10;
        (off + 97u8) as char
    }
}


/// The device number that a typed key stands for: its first character, read
/// as a digit or as a lowercase letter counted from ten.
pub open spec fn decode_key_spec(s: Seq<char>) -> Option<nat> {
    if s.len() == 0 {
        None
    } else {
        let c = s[0];
        if '0' <= c && c <= '9' {
            Some((c as nat - 48) as nat)
        } else if 'a' <= c && c <= 'z' {
            Some((c as nat - 97 + 10) as nat)
        } else {
            None
        }
    }
}

/// Convert user-typed key back to index
pub fn decode_key(s: &str) -> (r: Option<usize>)
    ensures
        match r {
            Some(i) => decode_key_spec(s@) == Some(i as nat),
            None => decode_key_spec(s@) is None,
        },
{
    broadcast use vstd::string::group_string_axioms;
    let mut chars = s.chars();
    let first = chars.next();
    match first {
        None => None,
        Some(c) => {
            if '0' <= c && c <= '9' {
                let v: u32 = c as u32;
                Some((v - 48) as usize)
            } else if 'a' <= c && c <= 'z' {
                let v: u32 = c as u32;
                Some((v - 97 + 10) as usize)
            } else {
                None
            }
        }
    }
}


/// Whether `flag` is one of the command-line arguments.
pub open spec fn has_arg(args: Seq<String>, flag: Seq<char>) -> bool {
    exists|i: int| 0 <= i < args.len() && #[trigger] args[i]@ == flag
}

/// The selection mode that a command line asks for: `-c` wins over `-o`,
/// and with neither the default input device is used.
pub open spec fn mode_for_args(args: Seq<String>) -> DeviceSelectionMode {
    if has_arg(args, seq!['-', 'c']) {
        DeviceSelectionMode::ChooseInteractive
    } else if has_arg(args, seq!['-', 'o']) {
        DeviceSelectionMode::DefaultOutput
    } else {
        DeviceSelectionMode::DefaultInput
    }
}

fn contains_arg(args: &Vec<String>, flag: &String) -> (r: bool)
    ensures
        r == has_arg(args@, flag@),
{
    let mut i: usize = 0;
    while i < args.len()
        invariant
            i <= args.len(),
            forall|j: int| 0 <= j < i ==> #[trigger] args@[j]@ != flag@,
        decreases args.len() - i,
    {
        if args[i] == *flag {
            return true;
        }
        i = i + 1;
    }
    false
}

/// The device selection mode for the given command-line arguments
/// (the program name may be among them).
pub fn parse_args(args: &Vec<String>) -> (mode: DeviceSelectionMode)
    ensures
        mode == mode_for_args(args@),
{
    let choose = "-c".to_owned();
    let output = "-o".to_owned();
    proof {
        reveal_strlit("-c");
        reveal_strlit("-o");
        assert(choose@ =~= seq!['-', 'c']);
        assert(output@ =~= seq!['-', 'o']);
    }
    if contains_arg(args, &choose) {
        DeviceSelectionMode::ChooseInteractive
    } else if contains_arg(args, &output) {
        DeviceSelectionMode::DefaultOutput
    } else {
        // no args, or -i
        DeviceSelectionMode::DefaultInput
    }
}


/// The device that an interactive key picks: devices are numbered inputs
/// first, then outputs.
#[derive(Clone, Copy, Debug, PartialEq, Eq, Structural)]
pub enum DeviceChoice {
    /// The input device at this position among the inputs.
    Input(usize),
    /// The output device at this position among the outputs.
    Output(usize),
}

/// Why a typed key picks no device.
#[derive(Clone, Copy, Debug, PartialEq, Eq, Structural)]
pub enum SelectionError {
    /// The key is not a digit or a lowercase letter.
    InvalidKey,
    /// The key numbers no listed device.
    OutOfRange,
}

/// The device that `key` picks among `n_inputs` inputs and `n_outputs` outputs.
pub open spec fn resolve_spec(key: Seq<char>, n_inputs: nat, n_outputs: nat) -> Result<DeviceChoice, SelectionError> {
    match decode_key_spec(key) {
        None => Err(SelectionError::InvalidKey),
        Some(idx) => if idx >= n_inputs + n_outputs {
            Err(SelectionError::OutOfRange)
        } else if idx < n_inputs {
            Ok(DeviceChoice::Input(idx as usize))
        } else {
            Ok(DeviceChoice::Output((idx - n_inputs) as usize))
        },
    }
}

/// Resolves the key typed in the interactive picker (already trimmed) to a
/// device, given how many input and output devices were listed.
pub fn resolve_device_key(key: &str, n_inputs: usize, n_outputs: usize) -> (r: Result<DeviceChoice, SelectionError>)
    requires
        n_inputs + n_outputs <= usize::MAX,
    ensures
        r == resolve_spec(key@, n_inputs as nat, n_outputs as nat),
{
    match decode_key(key) {
        None => Err(SelectionError::InvalidKey),
        Some(idx) => {
            if idx >= n_inputs + n_outputs {
                Err(SelectionError::OutOfRange)
            } else if idx < n_inputs {
                Ok(DeviceChoice::Input(idx))
            } else {
                Ok(DeviceChoice::Output(idx - n_inputs))
            }
        },
    }
}

/// The key shown for device `idx` reads back as `idx`, for the 36 devices that
/// get a digit or a letter (`0`-`9`, then `a`-`z`).
pub proof fn lemma_device_key_roundtrip(idx: nat)
    requires
        idx < 36,
    ensures
        device_key_defined(idx),
        decode_key_spec(seq![device_key_spec(idx)]) == Some(idx),
{
    if idx < 10 {
        assert(((idx + 48) as char) as nat == idx + 48);
    } else {
        assert((idx - 10) % 256 == idx - 10);
        assert(((idx - 10 + 97) as char) as nat == idx - 10 + 97);
    }
}

/// Typing the key shown next to a listed device picks that very device.
pub proof fn lemma_shown_key_picks_device(idx: nat, n_inputs: nat, n_outputs: nat)
    requires
        idx < n_inputs + n_outputs,
        idx < 36,
    ensures
        resolve_spec(seq![device_key_spec(idx)], n_inputs, n_outputs) == if idx < n_inputs {
            Ok::<DeviceChoice, SelectionError>(DeviceChoice::Input(idx as usize))
        } else {
            Ok(DeviceChoice::Output((idx - n_inputs) as usize))
        },
{
    lemma_device_key_roundtrip(idx);
}


/// The keys of the first ten devices are the digits '0' to '9', those of the
/// next 26 the letters 'a' to 'z', in order.
pub proof fn lemma_device_keys_in_order(idx: nat)
    ensures
        idx < 10 ==> device_key_spec(idx) as nat == '0' as nat + idx,
        10 <= idx < 36 ==> device_key_spec(idx) as nat == 'a' as nat + (idx - 10),
{
    if 10 <= idx < 36 {
        assert((idx - 10) % 256 == idx - 10);
    }
}

/// A typed key is read by its first character alone: a digit stands for its
/// value, a lowercase letter for ten plus its place in the alphabet, anything
/// else (or nothing) for no device.
pub proof fn lemma_decode_first_char(s: Seq<char>)
    ensures
        s.len() == 0 ==> decode_key_spec(s) is None,
        s.len() > 0 && '0' <= s[0] <= '9' ==> decode_key_spec(s) == Some((s[0] as nat - '0' as nat) as nat),
        s.len() > 0 && 'a' <= s[0] <= 'z' ==> decode_key_spec(s) == Some((s[0] as nat - 'a' as nat + 10) as nat),
        s.len() > 0 && !('0' <= s[0] <= '9') && !('a' <= s[0] <= 'z') ==> decode_key_spec(s) is None,
{
}

/// `-c` anywhere on the command line asks for the interactive picker; else
/// `-o` asks for the default output device; else the default input device is used.
pub proof fn lemma_mode_flags(args: Seq<String>)
    ensures
        (exists|i: int| 0 <= i < args.len() && #[trigger] args[i]@ == seq!['-', 'c'])
            ==> mode_for_args(args) == DeviceSelectionMode::ChooseInteractive,
        !(exists|i: int| 0 <= i < args.len() && #[trigger] args[i]@ == seq!['-', 'c'])
            && (exists|i: int| 0 <= i < args.len() && #[trigger] args[i]@ == seq!['-', 'o'])
            ==> mode_for_args(args) == DeviceSelectionMode::DefaultOutput,
        !(exists|i: int| 0 <= i < args.len() && #[trigger] args[i]@ == seq!['-', 'c'])
            && !(exists|i: int| 0 <= i < args.len() && #[trigger] args[i]@ == seq!['-', 'o'])
            ==> mode_for_args(args) == DeviceSelectionMode::DefaultInput,
{
}

/// The device a key picks is the one numbered by the key, inputs first: an
/// input `i` when the key reads `i` below the number of inputs, an output `o`
/// when it reads `n_inputs + o`, out of range past the outputs, and invalid
/// when it reads as no number.
pub proof fn lemma_resolve_by_number(key: Seq<char>, n_inputs: nat, n_outputs: nat)
    requires
        n_inputs + n_outputs <= usize::MAX,
    ensures
        decode_key_spec(key) is None <==> resolve_spec(key, n_inputs, n_outputs) == Err::<DeviceChoice, SelectionError>(SelectionError::InvalidKey),
        forall|x: nat| decode_key_spec(key) == Some(x) ==> {
            &&& x < n_inputs ==> resolve_spec(key, n_inputs, n_outputs) == Ok::<DeviceChoice, SelectionError>(DeviceChoice::Input(x as usize))
            &&& n_inputs <= x < n_inputs + n_outputs ==> resolve_spec(key, n_inputs, n_outputs)
                == Ok::<DeviceChoice, SelectionError>(DeviceChoice::Output((x - n_inputs) as usize))
            &&& x >= n_inputs + n_outputs ==> resolve_spec(key, n_inputs, n_outputs) == Err::<DeviceChoice, SelectionError>(SelectionError::OutOfRange)
        },
        resolve_spec(key, n_inputs, n_outputs) matches Ok(DeviceChoice::Input(i)) ==> i < n_inputs,
        resolve_spec(key, n_inputs, n_outputs) matches Ok(DeviceChoice::Output(o)) ==> o < n_outputs,
{
}

} // verus!
