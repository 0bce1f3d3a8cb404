//! HTTP/2 SETTINGS-frame fingerprints: browser-shaped parameter sets,
//! their serialized SETTINGS frame, a stable fingerprint hash, and a
//! rotator that cycles through a pool of parameter sets. Randomness
//! comes in only through two trusted draws; everything computed from
//! the drawn values is verified.

use vstd::prelude::*;
use rand::Rng;

verus! {

/// HTTP/2 SETTINGS parameters of one client fingerprint.
#[derive(Clone, Copy, Debug, PartialEq, Eq, Structural)]
pub struct Http2Settings {
    /// HEADER_TABLE_SIZE (protocol default: 4096).
    pub header_table_size: u32,
    /// ENABLE_PUSH (protocol default: on).
    pub enable_push: bool,
    /// MAX_CONCURRENT_STREAMS (protocol default: unlimited).
    pub max_concurrent_streams: u32,
    /// INITIAL_WINDOW_SIZE (protocol default: 65535).
    pub initial_window_size: u32,
    /// MAX_FRAME_SIZE (protocol default: 16384).
    pub max_frame_size: u32,
    /// MAX_HEADER_LIST_SIZE (protocol default: unlimited).
    pub max_header_list_size: Option<u32>,
}

/// Chrome-shaped parameters: push disabled, large windows, default
/// frame size.
pub open spec fn is_chrome_settings(s: Http2Settings) -> bool {
    &&& 65536 <= s.header_table_size <= 131072
    &&& !s.enable_push
    &&& 100 <= s.max_concurrent_streams <= 1000
    &&& 6291456 <= s.initial_window_size <= 16777216
    &&& s.max_frame_size == 16384
    &&& s.max_header_list_size is None
}

/// Firefox-shaped parameters.
pub open spec fn is_firefox_settings(s: Http2Settings) -> bool {
    &&& 65536 <= s.header_table_size <= 262144
    &&& s.enable_push
    &&& 100 <= s.max_concurrent_streams <= 250
    &&& 131072 <= s.initial_window_size <= 1048576
    &&& s.max_frame_size == 16384
    &&& s.max_header_list_size is None
}

/// Safari-shaped parameters.
pub open spec fn is_safari_settings(s: Http2Settings) -> bool {
    &&& 4096 <= s.header_table_size <= 65536
    &&& s.enable_push
    &&& s.max_concurrent_streams == 100
    &&& 65535 <= s.initial_window_size <= 262144
    &&& s.max_frame_size == 16384
    &&& s.max_header_list_size is None
}

/// Any of the three browser shapes.
pub open spec fn is_browser_settings(s: Http2Settings) -> bool {
    ||| is_chrome_settings(s)
    ||| is_firefox_settings(s)
    ||| is_safari_settings(s)
}

/// Big-endian bytes of a 16-bit value.
pub open spec fn spec_be2(x: u16) -> Seq<u8> {
    seq![(x >> 8) as u8, x as u8]
}

/// Big-endian bytes of a 32-bit value.
pub open spec fn spec_be4(x: u32) -> Seq<u8> {
    seq![(x >> 24) as u8, (x >> 16) as u8, (x >> 8) as u8, x as u8]
}

/// One SETTINGS pair: 2-byte identifier, 4-byte value.
pub open spec fn spec_setting(id: u16, val: u32) -> Seq<u8> {
    spec_be2(id) + spec_be4(val)
}

/// The SETTINGS payload: the five fixed parameters in identifier
/// order, then MAX_HEADER_LIST_SIZE when bounded.
pub open spec fn spec_settings_payload(s: Http2Settings) -> Seq<u8> {
    spec_setting(1, s.header_table_size) + spec_setting(
        2,
        if s.enable_push {
            1u32
        } else {
            0u32
        },
    ) + spec_setting(3, s.max_concurrent_streams) + spec_setting(4, s.initial_window_size)
        + spec_setting(5, s.max_frame_size) + (match s.max_header_list_size {
        Some(m) => spec_setting(6, m),
        None => Seq::empty(),
    })
}

/// The full SETTINGS frame: 3-byte big-endian length, type 0x4, no
/// flags, stream id 0, then the payload.
pub open spec fn spec_frame_bytes(s: Http2Settings) -> Seq<u8> {
    seq![
        0u8,
        0u8,
        spec_settings_payload(s).len() as u8,
        4u8,
        0u8,
        0u8,
        0u8,
        0u8,
        0u8,
    ] + spec_settings_payload(s)
}

/// One step of the 64-bit FNV-1a fold.
pub open spec fn fnv1a_step(h: u64, b: u8) -> u64 {
    (((h ^ (b as u64)) as nat * 0x100000001b3nat) % 0x10000000000000000nat) as u64
}

/// FNV-1a hash of the first `i` bytes of `s`.
pub open spec fn fnv1a(s: Seq<u8>, i: int) -> u64
    decreases i,
{
    if i <= 0 {
        0xcbf29ce484222325u64
    } else {
        fnv1a_step(fnv1a(s, i - 1), s[i - 1])
    }
}

/// The sixteen lowercase hex digits.
pub open spec fn hex_table() -> Seq<char> {
    "0123456789abcdef"@
}

/// `h` rendered as 16 lowercase hex characters, most significant
/// nibble first.
pub open spec fn spec_hex16(h: u64) -> Seq<char> {
    Seq::new(16, |i: int| hex_table()[((h >> (((15 - i) as u64) * 4)) & 0xf) as int])
}

/// Relies on `rand::thread_rng` and `rand::Rng::gen_range`: a random
/// value drawn from the inclusive range.
#[verifier::external_body]
fn rand_u32_in(lo: u32, hi: u32) -> (r: u32)
    requires
        lo <= hi,
    ensures
        lo <= r <= hi,
{
    rand::thread_rng().gen_range(lo..=hi)
}

/// Relies on `rand::random`: a random boolean.
#[verifier::external_body]
fn rand_bool() -> (r: bool)
{
    rand::random::<bool>()
}

impl Http2Settings {
    /// Settings mimicking Chrome: push off, a large randomized window.
    pub fn chrome() -> (r: Self)
        ensures
            is_chrome_settings(r),
    {
        Http2Settings {
            header_table_size: rand_u32_in(65536, 131072),
            enable_push: false,
            max_concurrent_streams: rand_u32_in(100, 1000),
            initial_window_size: rand_u32_in(6291456, 16777216),
            max_frame_size: 16384,
            max_header_list_size: None,
        }
    }

    /// Settings mimicking Firefox.
    pub fn firefox() -> (r: Self)
        ensures
            is_firefox_settings(r),
    {
        Http2Settings {
            header_table_size: rand_u32_in(65536, 262144),
            enable_push: true,
            max_concurrent_streams: rand_u32_in(100, 250),
            initial_window_size: rand_u32_in(131072, 1048576),
            max_frame_size: 16384,
            max_header_list_size: None,
        }
    }

    /// Settings mimicking Safari.
    pub fn safari() -> (r: Self)
        ensures
            is_safari_settings(r),
    {
        Http2Settings {
            header_table_size: rand_u32_in(4096, 65536),
            enable_push: true,
            max_concurrent_streams: 100,
            initial_window_size: rand_u32_in(65535, 262144),
            max_frame_size: 16384,
            max_header_list_size: None,
        }
    }

    /// Randomly one of the three browser shapes.
    pub fn randomized() -> (r: Self)
        ensures
            is_browser_settings(r),
    {
        let browser = rand_u32_in(0, 2);
        if browser == 0 {
            Self::chrome()
        } else if browser == 1 {
            Self::firefox()
        } else {
            Self::safari()
        }
    }

    /// Fully randomized parameters, each within its plausible range.
    pub fn fully_random() -> (r: Self)
        ensures
            4096 <= r.header_table_size <= 16777216,
            1 <= r.max_concurrent_streams <= 1000,
            65535 <= r.initial_window_size <= 16777215,
            16384 <= r.max_frame_size <= 16777215,
            r.max_header_list_size matches Some(m) ==> 1024 <= m <= 16777216,
    {
        let max_header_list_size = if rand_bool() {
            Some(rand_u32_in(1024, 16777216))
        } else {
            None
        };
        Http2Settings {
            header_table_size: rand_u32_in(4096, 16777216),
            enable_push: rand_bool(),
            max_concurrent_streams: rand_u32_in(1, 1000),
            initial_window_size: rand_u32_in(65535, 16777215),
            max_frame_size: rand_u32_in(16384, 16777215),
            max_header_list_size,
        }
    }

    /// Serialize the SETTINGS frame these parameters announce.
    pub fn to_frame_bytes(&self) -> (r: Vec<u8>)
        ensures
            r@ == spec_frame_bytes(*self),
            r@.len() == 9 + spec_settings_payload(*self).len(),
            r@[3] == 4,
    {
        let mut payload: Vec<u8> = Vec::new();
        push_setting(&mut payload, 1, self.header_table_size);
        push_setting(
            &mut payload,
            2,
            if self.enable_push {
                1
            } else {
                0
            },
        );
        push_setting(&mut payload, 3, self.max_concurrent_streams);
        push_setting(&mut payload, 4, self.initial_window_size);
        push_setting(&mut payload, 5, self.max_frame_size);
        if let Some(m) = self.max_header_list_size {
            push_setting(&mut payload, 6, m);
        }
        proof {
            assert(payload@ =~= spec_settings_payload(*self));
        }
        let mut frame: Vec<u8> = Vec::new();
        frame.push(0);
        frame.push(0);
        frame.push(payload.len() as u8);
        frame.push(4);
        frame.push(0);
        frame.push(0);
        frame.push(0);
        frame.push(0);
        frame.push(0);
        frame.append(&mut payload);
        proof {
            assert(frame@ =~= spec_frame_bytes(*self));
        }
        frame
    }

    /// A stable fingerprint of these parameters: the 64-bit FNV-1a
    /// hash of the serialized SETTINGS payload, as 16 hex characters.
    /// Equal parameters always produce the same hash.
    pub fn fingerprint_hash(&self) -> (r: String)
        ensures
            r@ == spec_hex16(fnv1a(spec_settings_payload(*self), spec_settings_payload(*self).len() as int)),
    {
        let mut payload: Vec<u8> = Vec::new();
        push_setting(&mut payload, 1, self.header_table_size);
        push_setting(
            &mut payload,
            2,
            if self.enable_push {
                1
            } else {
                0
            },
        );
        push_setting(&mut payload, 3, self.max_concurrent_streams);
        push_setting(&mut payload, 4, self.initial_window_size);
        push_setting(&mut payload, 5, self.max_frame_size);
        if let Some(m) = self.max_header_list_size {
            push_setting(&mut payload, 6, m);
        }
        proof {
            assert(payload@ =~= spec_settings_payload(*self));
        }
        let n = payload.len();
        let mut h: u64 = 0xcbf29ce484222325;
        let mut i: usize = 0;
        while i < n
            invariant
                i <= n,
                n == payload@.len(),
                h == fnv1a(payload@, i as int),
            decreases n - i,
        {
            h = (h ^ (payload[i] as u64)).wrapping_mul(0x100000001b3);
            i = i + 1;
        }
        hex16(h)
    }
}

/// Append one SETTINGS pair (2-byte identifier, 4-byte value).
fn push_setting(out: &mut Vec<u8>, id: u16, val: u32)
    ensures
        final(out)@ == old(out)@ + spec_setting(id, val),
{
    out.push((id >> 8) as u8);
    out.push(#[verifier::truncate] (id as u8));
    out.push((val >> 24) as u8);
    out.push(#[verifier::truncate] ((val >> 16) as u8));
    out.push(#[verifier::truncate] ((val >> 8) as u8));
    out.push(#[verifier::truncate] (val as u8));
    proof {
        assert(out@ =~= old(out)@ + spec_setting(id, val));
    }
}

/// Render a 64-bit value as 16 lowercase hex characters.
fn hex16(h: u64) -> (r: String)
    ensures
        r@ == spec_hex16(h),
{
    let table = "0123456789abcdef";
    proof {
        reveal_strlit("0123456789abcdef");
    }
    let mut out = String::new();
    let mut i: usize = 0;
    while i < 16
        invariant
            i <= 16,
            table@ == hex_table(),
            table@.len() == 16,
            out@ == spec_hex16(h).subrange(0, i as int),
        decreases 16 - i,
    {
        let shift: u64 = ((15 - i) as u64) * 4;
        let shifted: u64 = h >> shift;
        let nib: u64 = shifted & 0xf;
        proof {
            assert(shifted & 0xf < 16) by (bit_vector);
        }
        let d = table.substring_char(nib as usize, nib as usize + 1);
        out.append(d);
        proof {
            assert(d@ =~= seq![hex_table()[nib as int]]);
            assert(out@ =~= spec_hex16(h).subrange(0, (i + 1) as int));
        }
        i = i + 1;
    }
    proof {
        assert(spec_hex16(h).subrange(0, 16) =~= spec_hex16(h));
    }
    out
}

impl Default for Http2Settings {
    /// A random browser-shaped parameter set.
    fn default() -> (r: Self)
        ensures
            is_browser_settings(r),
    {
        Self::randomized()
    }
}

/// Rotates through a pool of SETTINGS fingerprints.
pub struct Http2Rotator {
    settings: Vec<Http2Settings>,
    current_index: usize,
}

impl Http2Rotator {
    /// The pool never empties and the cursor stays in bounds.
    pub closed spec fn inv(&self) -> bool {
        &&& 1 <= self.settings@.len()
        &&& self.current_index < self.settings@.len()
    }

    /// Size of the pool.
    pub closed spec fn count(&self) -> nat {
        self.settings@.len()
    }

    /// Position of the cursor.
    pub closed spec fn index(&self) -> nat {
        self.current_index as nat
    }

    /// The pool entry at `i`.
    pub closed spec fn setting_at(&self, i: int) -> Http2Settings {
        self.settings@[i]
    }

    /// Build a rotator over `count` freshly randomized browser-shaped
    /// parameter sets.
    pub fn new(count: usize) -> (r: Self)
        requires
            1 <= count,
        ensures
            r.inv(),
            r.count() == count,
            r.index() == 0,
            forall|i: int| 0 <= i < count ==> is_browser_settings(#[trigger] r.setting_at(i)),
    {
        let mut settings: Vec<Http2Settings> = Vec::new();
        let mut i: usize = 0;
        while i < count
            invariant
                i <= count,
                settings@.len() == i,
                forall|j: int| 0 <= j < i ==> is_browser_settings(#[trigger] settings@[j]),
            decreases count - i,
        {
            settings.push(Http2Settings::randomized());
            i = i + 1;
        }
        Http2Rotator { settings, current_index: 0 }
    }

    /// The parameter set under the cursor.
    pub fn current(&self) -> (r: &Http2Settings)
        requires
            self.inv(),
        ensures
            *r == self.setting_at(self.index() as int),
    {
        &self.settings[self.current_index]
    }

    /// Advance the cursor cyclically and return the parameter set it
    /// lands on.
    pub fn rotate(&mut self) -> (r: &Http2Settings)
        requires
            old(self).inv(),
        ensures
            final(self).inv(),
            final(self).count() == old(self).count(),
            forall|i: int|
                0 <= i < old(self).count() ==> #[trigger] final(self).setting_at(i) == old(
                self,
            ).setting_at(i),
            final(self).index() == (old(self).index() + 1) % old(self).count(),
            *r == final(self).setting_at(final(self).index() as int),
    {
        let n = self.settings.len();
        self.current_index = (self.current_index + 1) % n;
        self.current()
    }
}

} // verus!
