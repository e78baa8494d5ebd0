//! Art-Net framing of a DMX universe, and the 512-channel buffer it carries.
use vstd::prelude::*;

verus! {

/// The Art-Net packet ID, `"Art-Net"` followed by a zero byte.
pub open spec fn artnet_id() -> Seq<u8> {
    seq![0x41u8, 0x72u8, 0x74u8, 0x2du8, 0x4eu8, 0x65u8, 0x74u8, 0x00u8]
}

/// The 18-byte header of an ArtDmx packet: the ID, the OpOutput opcode
/// 0x5000 (little endian), protocol version 14 (big endian), sequence 0,
/// physical port 0, the universe (little endian) and the data length
/// (big endian, taken modulo 2^16).
pub open spec fn artnet_header(universe: u16, len: nat) -> Seq<u8> {
    artnet_id() + seq![
        0x00u8, 0x50u8,
        0x00u8, 0x0eu8,
        0x00u8,
        0x00u8,
        (universe % 256) as u8, (universe / 256) as u8,
        ((len % 65536) / 256) as u8, ((len % 65536) % 256) as u8,
    ]
}

/// The ArtDmx packet that carries `channels` on `universe`.
pub open spec fn artnet_packet_spec(universe: u16, channels: Seq<u8>) -> Seq<u8> {
    artnet_header(universe, channels.len()) + channels
}

/// Builds the ArtDmx packet (opcode OpOutput) that sends the DMX data
/// `channels` to `universe`.
pub fn artnet_packet(universe: u16, channels: &[u8]) -> (packet: Vec<u8>)
    ensures
        packet@ == artnet_packet_spec(universe, channels@),
{
    let mut packet: Vec<u8> = Vec::new();
    // ID
    packet.push(0x41);
    packet.push(0x72);
    packet.push(0x74);
    packet.push(0x2d);
    packet.push(0x4e);
    packet.push(0x65);
    packet.push(0x74);
    packet.push(0x00);
    // OpOutput 0x5000 (little endian)
    packet.push(0x00);
    packet.push(0x50);
    // ProtVerHi=0, ProtVerLo=14
    packet.push(0x00);
    packet.push(0x0e);
    // Sequence
    packet.push(0);
    // Physical
    packet.push(0);
    // Universe (little endian)
    packet.push((universe % 256) as u8);
    packet.push((universe / 256) as u8);
    // Data length (big endian)
    let len16: u16 = (channels.len() % 65536) as u16;
    packet.push((len16 / 256) as u8);
    packet.push((len16 % 256) as u8);
    let ghost head = packet@;
    proof {
        assert(head =~= artnet_header(universe, channels@.len()));
    }
    // DMX Data
    packet.extend_from_slice(channels);
    proof {
        assert forall|i: int| 0 <= i < channels@.len() implies packet@[i + 18] == channels@[i] by {
            assert(vstd::pervasive::cloned::<u8>(channels@[i], packet@[i + 18]));
        }
        assert(packet@ =~= artnet_packet_spec(universe, channels@));
    }
    packet
}


/// The number of channels in a DMX universe.
pub const UNIVERSE_SIZE: usize = 512;

/// The value of a string of decimal digits.
pub open spec fn decimal_value(digits: Seq<char>) -> nat
    decreases digits.len(),
{
    if digits.len() == 0 {
        0
    } else {
        (decimal_value(digits.drop_last()) * 10 + (digits.last() as int - 48)) as nat
    }
}

/// Every character is an ASCII decimal digit.
pub open spec fn all_digits(s: Seq<char>) -> bool {
    forall|i: int| 0 <= i < s.len() ==> '0' <= #[trigger] s[i] && s[i] <= '9'
}

/// How `str::parse::<usize>` reads a string: an optional `+` followed by one
/// or more ASCII decimal digits, whose value must fit in a `usize`.
pub open spec fn parse_usize_spec(s: Seq<char>) -> Option<usize> {
    let digits = if s.len() > 0 && s[0] == '+' { s.drop_first() } else { s };
    if digits.len() > 0 && all_digits(digits) && decimal_value(digits) <= usize::MAX {
        Some(decimal_value(digits) as usize)
    } else {
        None
    }
}

proof fn lemma_decimal_value_grows(s: Seq<char>, j: int)
    requires
        all_digits(s),
        0 <= j <= s.len(),
    ensures
        decimal_value(s.subrange(0, j)) <= decimal_value(s),
    decreases s.len() - j,
{
    if j < s.len() {
        lemma_decimal_value_grows(s, j + 1);
        let t = s.subrange(0, j + 1);
        assert(t.drop_last() =~= s.subrange(0, j));
        assert('0' <= s[j]);
        assert(t.last() == s[j]);
        assert(decimal_value(t) == decimal_value(s.subrange(0, j)) * 10 + (s[j] as int - 48));
    } else {
        assert(s.subrange(0, j) =~= s);
    }
}

/// Reads a string as `str::parse::<usize>` (std's `FromStr for usize`) does:
/// an optional `+`, then one or more ASCII digits whose value fits in a `usize`.
fn parse_usize(s: &str) -> (r: Option<usize>)
    ensures
        r == parse_usize_spec(s@),
{
    let len = s.unicode_len();
    let mut start: usize = 0;
    if len > 0 && s.get_char(0) == '+' {
        start = 1;
    }
    let ghost digits = if s@.len() > 0 && s@[0] == '+' { s@.drop_first() } else { s@ };
    proof {
        assert(digits =~= s@.subrange(start as int, len as int));
    }
    if start == len {
        return None;
    }
    let mut value: u128 = 0;
    let mut i: usize = start;
    while i < len
        invariant
            start <= i <= len,
            len == s@.len(),
            digits == s@.subrange(start as int, len as int),
            digits == (if s@.len() > 0 && s@[0] == '+' { s@.drop_first() } else { s@ }),
            all_digits(digits.subrange(0, i - start)),
            value == decimal_value(digits.subrange(0, i - start)),
            value <= usize::MAX,
        decreases len - i,
    {
        let c = s.get_char(i);
        assert(digits[i - start] == c);
        if c < '0' || c > '9' {
            proof {
                assert(!('0' <= digits[i - start] && digits[i - start] <= '9'));
                assert(!all_digits(digits));
                assert(parse_usize_spec(s@) is None);
            }
            return None;
        }
        let d: u32 = (c as u32) - 48;
        let next: u128 = value * 10 + d as u128;
        proof {
            let t = digits.subrange(0, i + 1 - start);
            assert(t.drop_last() =~= digits.subrange(0, i - start));
            assert(t.last() == c);
            assert(all_digits(t));
            assert(decimal_value(t) == value * 10 + (c as int - 48));
            assert(next == decimal_value(t));
        }
        if next > usize::MAX as u128 {
            proof {
                if all_digits(digits) {
                    lemma_decimal_value_grows(digits, i + 1 - start);
                    assert(decimal_value(digits) > usize::MAX);
                }
                assert(digits.len() > 0);
                assert(parse_usize_spec(s@) is None);
            }
            return None;
        }
        value = next;
        i = i + 1;
    }
    proof {
        assert(digits.subrange(0, len - start) =~= digits);
    }
    Some(value as usize)
}

/// The DMX level that a JSON number stands for: the number, capped at 255.
pub open spec fn level_of(v: u64) -> u8 {
    if v > 255 { 255 } else { v as u8 }
}

/// The buffer after the first `k` entries of a frame's channel object have
/// been written: entry `(key, value)` sets channel `key` (1-based, 1..=512)
/// to its capped level when the key is a number and the value an unsigned
/// integer; other entries are skipped.
pub open spec fn universe_upto(entries: Seq<(String, Option<u64>)>, k: nat) -> Seq<u8>
    decreases k,
{
    if k == 0 {
        Seq::new(512, |i: int| 0u8)
    } else {
        let prev = universe_upto(entries, (k - 1) as nat);
        let key = entries[k - 1].0@;
        let value = entries[k - 1].1;
        match (parse_usize_spec(key), value) {
            (Some(ch), Some(v)) => if 1 <= ch <= 512 {
                prev.update(ch - 1, level_of(v))
            } else {
                prev
            },
            _ => prev,
        }
    }
}

/// The full 512-channel DMX buffer for the entries (key, numeric value) of a
/// frame's channel object, in the order the object lists them.
pub fn frame_universe(entries: &Vec<(String, Option<u64>)>) -> (dmx: Vec<u8>)
    ensures
        dmx@ == universe_upto(entries@, entries@.len()),
{
    // Create a full 512-channel DMX buffer
    let mut dmx: Vec<u8> = Vec::new();
    let mut j: usize = 0;
    while j < UNIVERSE_SIZE
        invariant
            j <= 512,
            dmx@ =~= Seq::new(j as nat, |i: int| 0u8),
        decreases 512 - j,
    {
        dmx.push(0);
        j = j + 1;
    }
    // Fill the buffer from the channel object
    let mut k: usize = 0;
    while k < entries.len()
        invariant
            k <= entries.len(),
            dmx@ == universe_upto(entries@, k as nat),
            dmx@.len() == 512,
        decreases entries.len() - k,
    {
        let (key, value) = (&entries[k].0, entries[k].1);
        if let Some(ch) = parse_usize(key.as_str()) {
            if ch >= 1 && ch <= UNIVERSE_SIZE {
                if let Some(val) = value {
                    let level: u8 = if val > 255 { 255 } else { val as u8 };
                    dmx.set(ch - 1, level);
                }
            }
        }
        k = k + 1;
    }
    dmx
}


/// The `channels` field of a frame as the sender finds it.
pub enum FrameChannels {
    /// The frame has no `channels` field.
    Missing,
    /// The field is not an object.
    NotObject,
    /// The (key, unsigned integer value) entries of the object, in its order.
    Entries(Vec<(String, Option<u64>)>),
}

/// What the sender does with a frame.
pub enum FrameAction {
    /// Send this 512-channel universe.
    Send(Vec<u8>),
    /// Send nothing: the frame has no `channels` field.
    MissingChannels,
    /// Send nothing: `channels` is not an object.
    ChannelsNotObject,
}

/// What to do with a frame: nothing is sent exactly when the `channels`
/// field is missing or not an object; otherwise the universe it fills is sent.
pub fn frame_action(channels: FrameChannels) -> (a: FrameAction)
    ensures
        match channels {
            FrameChannels::Missing => a is MissingChannels,
            FrameChannels::NotObject => a is ChannelsNotObject,
            FrameChannels::Entries(e) => a matches FrameAction::Send(d) && d@ == universe_upto(e@, e@.len()),
        },
{
    match channels {
        FrameChannels::Missing => FrameAction::MissingChannels,
        FrameChannels::NotObject => FrameAction::ChannelsNotObject,
        FrameChannels::Entries(e) => FrameAction::Send(frame_universe(&e)),
    }
}

/// Entry `e` of a channel object sets DMX channel `ch` (1-based).
pub open spec fn sets_channel(e: (String, Option<u64>), ch: nat) -> bool {
    &&& parse_usize_spec(e.0@) == Some(ch as usize)
    &&& e.1 is Some
}

/// The buffer always holds the 512 channels of one universe.
pub proof fn lemma_universe_len(entries: Seq<(String, Option<u64>)>, k: nat)
    ensures
        universe_upto(entries, k).len() == 512,
    decreases k,
{
    if k > 0 {
        lemma_universe_len(entries, (k - 1) as nat);
    }
}

/// Channel `ch` of the buffer holds the capped value of the last entry that
/// sets it; keys that name the same channel override each other in order.
pub proof fn lemma_universe_last_writer(entries: Seq<(String, Option<u64>)>, k: nat, ch: nat, j: int)
    requires
        1 <= ch <= 512,
        0 <= j < k,
        sets_channel(entries[j], ch),
        forall|i: int| j < i < k ==> !sets_channel(#[trigger] entries[i], ch),
    ensures
        universe_upto(entries, k)[ch - 1] == level_of(entries[j].1->0),
    decreases k,
{
    lemma_universe_len(entries, (k - 1) as nat);
    if j < k - 1 {
        lemma_universe_last_writer(entries, (k - 1) as nat, ch, j);
        assert(!sets_channel(entries[k - 1], ch));
    }
}

/// A channel that no entry sets stays at zero.
pub proof fn lemma_universe_unset(entries: Seq<(String, Option<u64>)>, k: nat, ch: nat)
    requires
        1 <= ch <= 512,
        forall|i: int| 0 <= i < k ==> !sets_channel(#[trigger] entries[i], ch),
    ensures
        universe_upto(entries, k)[ch - 1] == 0,
    decreases k,
{
    if k > 0 {
        lemma_universe_len(entries, (k - 1) as nat);
        lemma_universe_unset(entries, (k - 1) as nat, ch);
        assert(!sets_channel(entries[k - 1], ch));
    }
}


/// A channel shows the value of the last entry that sets it, capped at 255:
/// the value itself when it is at most 255, and 255 above.
pub proof fn lemma_universe_value(entries: Seq<(String, Option<u64>)>, k: nat, ch: nat, j: int)
    requires
        1 <= ch <= 512,
        0 <= j < k,
        sets_channel(entries[j], ch),
        forall|i: int| j < i < k ==> !sets_channel(#[trigger] entries[i], ch),
    ensures
        entries[j].1->0 <= 255 ==> universe_upto(entries, k)[ch - 1] == entries[j].1->0,
        entries[j].1->0 > 255 ==> universe_upto(entries, k)[ch - 1] == 255,
{
    lemma_universe_last_writer(entries, k, ch, j);
}

/// The bytes of an ArtDmx packet: "Art-Net" and a zero byte; the opcode
/// 0x5000 low byte first; protocol version 14 high byte first; sequence and
/// physical port 0; the universe low byte first; the data length modulo 2^16
/// high byte first; then the data.
pub proof fn lemma_artnet_layout(universe: u16, channels: Seq<u8>)
    ensures
        ({
            let p = artnet_packet_spec(universe, channels);
            &&& p.len() == 18 + channels.len()
            &&& p[0] == 0x41 && p[1] == 0x72 && p[2] == 0x74 && p[3] == 0x2d
            &&& p[4] == 0x4e && p[5] == 0x65 && p[6] == 0x74 && p[7] == 0x00
            &&& p[8] + 256 * p[9] == 0x5000
            &&& 256 * p[10] + p[11] == 14
            &&& p[12] == 0 && p[13] == 0
            &&& p[14] + 256 * p[15] == universe
            &&& 256 * p[16] + p[17] == channels.len() % 65536
            &&& forall|i: int| 0 <= i < channels.len() ==> p[18 + i] == #[trigger] channels[i]
        }),
{
    let p = artnet_packet_spec(universe, channels);
    let n = channels.len() % 65536;
    assert(p[16] == n / 256 && p[17] == n % 256);
    assert(256 * (n / 256) + n % 256 == n);
}

} // verus!
