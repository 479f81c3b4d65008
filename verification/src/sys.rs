//! What the audio system reports about outputs and failures, and how it reads.

use vstd::prelude::*;
use vstd::string::*;
use vstd::utf8::*;
use vstd::arithmetic::power::*;
use crate::error::{about, EqError, ErrorView, Fault};
use crate::number::Double;
use crate::text::{decimal, digits, glue, glue3, optional};

verus! {

/// The format of an output stream.
#[derive(Debug)]
pub struct StreamFacts {
    pub sample_rate: Double,
    /// The sample rate as it is written.
    pub rate_text: String,
    pub format_id: u32,
    pub format_flags: u32,
    pub bytes_per_frame: u32,
    pub channels: u32,
    pub bits_per_channel: u32,
}

/// What [`StreamFacts`] hold.
pub ghost struct StreamView {
    pub sample_rate: Double,
    pub rate_text: Seq<char>,
    pub format_id: u32,
    pub format_flags: u32,
    pub bytes_per_frame: u32,
    pub channels: u32,
    pub bits_per_channel: u32,
}

impl View for StreamFacts {
    type V = StreamView;

    open spec fn view(&self) -> StreamView {
        StreamView {
            sample_rate: self.sample_rate,
            rate_text: self.rate_text@,
            format_id: self.format_id,
            format_flags: self.format_flags,
            bytes_per_frame: self.bytes_per_frame,
            channels: self.channels,
            bits_per_channel: self.bits_per_channel,
        }
    }
}

/// The four characters `lpcm` as one big-endian number.
pub const LINEAR_PCM: u32 = 0x6c70_636d;

/// The characters from `!` to `~`, in the order of their codes.
pub open spec fn graphic_table() -> Seq<char> {
    "!\"#$%&'()*+,-./0123456789:;<=>?@ABCDEFGHIJKLMNOPQRSTUVWXYZ[\\]^_`abcdefghijklmnopqrstuvwxyz{|}~"@
}

/// The characters of the table are those with the codes 33 to 126.
pub proof fn graphic_table_holds_codes()
    ensures
        graphic_table().len() == 94,
        forall|i: int| 0 <= i < 94 ==> (#[trigger] graphic_table()[i]) as int == 33 + i,
{
    reveal_strlit(
        "!\"#$%&'()*+,-./0123456789:;<=>?@ABCDEFGHIJKLMNOPQRSTUVWXYZ[\\]^_`abcdefghijklmnopqrstuvwxyz{|}~",
    );
}

/// A printable character other than the space.
pub open spec fn graphic_byte(b: int) -> bool {
    33 <= b <= 126
}

/// The four bytes of a format identifier, the most significant one first.
pub open spec fn four_bytes(id: u32) -> Seq<int> {
    seq![
        id as int / 0x100_0000,
        id as int / 0x1_0000 % 0x100,
        id as int / 0x100 % 0x100,
        id as int % 0x100,
    ]
}

/// The four bytes as characters.
pub open spec fn four_characters(id: u32) -> Seq<char> {
    Seq::new(4, |i: int| graphic_table()[four_bytes(id)[i] - 33])
}

/// The hexadecimal notation of `n` with `width` digits.
pub open spec fn hex(n: nat, width: nat) -> Seq<char>
    decreases width,
{
    if width == 0 {
        Seq::empty()
    } else {
        hex(n / 16, (width - 1) as nat) + seq!["0123456789abcdef"@[n as int % 16]]
    }
}

impl StreamView {
    /// Linear samples in floating point.
    pub open spec fn float(self) -> bool {
        self.format_id == LINEAR_PCM && self.format_flags % 2 == 1
    }

    /// All channels share one buffer: the flag for separate buffers is not set.
    pub open spec fn interleaved(self) -> bool {
        self.format_flags / 32 % 2 == 0
    }

    /// What the format is called.
    pub open spec fn format_name(self) -> Seq<char> {
        if self.float() {
            "Float"@ + digits(self.bits_per_channel as nat)
        } else if forall|i: int| 0 <= i < 4 ==> graphic_byte(#[trigger] four_bytes(self.format_id)[i]) {
            four_characters(self.format_id)
        } else {
            "0x"@ + hex(self.format_id as nat, 8)
        }
    }

    /// Rate, channels, format, and layout in one line.
    pub open spec fn description(self) -> Seq<char> {
        self.rate_text + " Hz, "@ + digits(self.channels as nat) + " ch, "@ + self.format_name()
            + if self.interleaved() {
            ", interleaved"@
        } else {
            ", non-interleaved"@
        }
    }
}

fn graphic_text(b: u32) -> (t: &'static str)
    requires
        graphic_byte(b as int),
    ensures
        t@ == seq![graphic_table()[b as int - 33]],
{
    let table: &'static str =
        "!\"#$%&'()*+,-./0123456789:;<=>?@ABCDEFGHIJKLMNOPQRSTUVWXYZ[\\]^_`abcdefghijklmnopqrstuvwxyz{|}~";
    proof {
        graphic_table_holds_codes();
    }
    let i: usize = (b - 33) as usize;
    let t = table.substring_char(i, i + 1);
    assert(t@ =~= seq![graphic_table()[b as int - 33]]);
    t
}

fn hex_text(n: u32, width: u32) -> (t: String)
    ensures
        t@ == hex(n as nat, width as nat),
    decreases width,
{
    if width == 0 {
        let t = String::new();
        assert(t@ =~= Seq::empty());
        return t;
    }
    let mut t = hex_text(n / 16, width - 1);
    let table: &'static str = "0123456789abcdef";
    proof {
        reveal_strlit("0123456789abcdef");
    }
    let i: usize = (n % 16) as usize;
    let d = table.substring_char(i, i + 1);
    assert(d@ =~= seq!["0123456789abcdef"@[n as int % 16]]);
    t.append(d);
    t
}

impl StreamFacts {
    /// What the format is called: `Float32` and the like, the four characters of the format
    /// where they can be printed, and its number otherwise.
    pub fn format_name(&self) -> (t: String)
        ensures
            t@ == self@.format_name(),
    {
        if self.format_id == LINEAR_PCM && self.format_flags % 2 == 1 {
            return glue("Float", &decimal(self.bits_per_channel as u64));
        }
        let id = self.format_id;
        let a: u32 = id / 0x100_0000;
        let b: u32 = id / 0x1_0000 % 0x100;
        let c: u32 = id / 0x100 % 0x100;
        let d: u32 = id % 0x100;
        let ghost four = four_bytes(id);
        assert(four[0] == a && four[1] == b && four[2] == c && four[3] == d);
        if 33 <= a && a <= 126 && 33 <= b && b <= 126 && 33 <= c && c <= 126 && 33 <= d && d
            <= 126 {
            let mut t = glue3(graphic_text(a), graphic_text(b), graphic_text(c));
            t.append(graphic_text(d));
            assert(t@ =~= four_characters(id));
            t
        } else {
            glue("0x", &hex_text(id, 8))
        }
    }

    /// Whether all channels share one buffer.
    pub fn interleaved(&self) -> (r: bool)
        ensures
            r == self@.interleaved(),
    {
        self.format_flags / 32 % 2 == 0
    }

    /// Rate, channels, format, and layout in one line.
    pub fn description(&self) -> (t: String)
        ensures
            t@ == self@.description(),
    {
        let mut t = glue3(&self.rate_text, " Hz, ", &decimal(self.channels as u64));
        t.append(" ch, ");
        t.append(&self.format_name());
        if self.interleaved() {
            t.append(", interleaved");
        } else {
            t.append(", non-interleaved");
        }
        t
    }
}

/// One coherent description of a prospective output: every property was read from the device
/// with this exact identifier.
#[derive(Debug)]
pub struct OutputTarget {
    pub id: u32,
    pub uid: String,
    pub name: String,
    pub sample_rate: Double,
    pub stream: StreamFacts,
}

/// What an [`OutputTarget`] holds.
pub ghost struct TargetView {
    pub id: u32,
    pub uid: Seq<char>,
    pub name: Seq<char>,
    pub sample_rate: Double,
    pub stream: StreamView,
}

impl View for OutputTarget {
    type V = TargetView;

    open spec fn view(&self) -> TargetView {
        TargetView {
            id: self.id,
            uid: self.uid@,
            name: self.name@,
            sample_rate: self.sample_rate,
            stream: self.stream@,
        }
    }
}

/// The identifier of the default output device; the system says 0 where there is none.
pub fn default_output_device(id: u32) -> (r: Option<u32>)
    ensures
        r == if id == 0 {
            None::<u32>
        } else {
            Some(id)
        },
{
    if id != 0 {
        Some(id)
    } else {
        None
    }
}

/// The nominal sample rate that the system reports, where it is a positive number.
pub fn output_device_sample_rate(rate: Double) -> (r: Option<Double>)
    ensures
        r == if rate.finite() && !rate.negative() && rate.magnitude_bits() > 0 {
            Some(rate)
        } else {
            None::<Double>
        },
{
    if rate.is_positive() {
        Some(rate)
    } else {
        None
    }
}

/// Decodes UTF-8 with `std::str::from_utf8`, which gives the text that has exactly these
/// bytes, and fails where there is none.
#[verifier::external_body]
fn decode(bytes: &[u8]) -> (r: Option<String>)
    ensures
        match r {
            Some(s) => valid_utf8(bytes@) && encode_utf8(s@) == bytes@,
            None => !valid_utf8(bytes@),
        },
{
    match std::str::from_utf8(bytes) {
        Ok(s) => Some(s.to_owned()),
        Err(_) => None,
    }
}

/// The text at the start of `buf`: the bytes before the first NUL, decoded, where there is a
/// NUL, the bytes are UTF-8, and there are any.
pub open spec fn c_text(buf: Seq<u8>) -> Option<Seq<char>> {
    let n = nul_at(buf);
    if n < buf.len() && n > 0 && valid_utf8(buf.take(n)) {
        Some(decode_utf8(buf.take(n)))
    } else {
        None
    }
}

/// The place of the first NUL; the length where there is none.
pub open spec fn nul_at(buf: Seq<u8>) -> int
    decreases buf.len(),
{
    if buf.len() == 0 || buf[0] == 0 {
        0
    } else {
        1 + nul_at(buf.drop_first())
    }
}

proof fn nul_found(buf: Seq<u8>, i: int)
    requires
        0 <= i <= buf.len(),
        forall|j: int| 0 <= j < i ==> #[trigger] buf[j] != 0,
        i < buf.len() ==> buf[i] == 0,
    ensures
        nul_at(buf) == i,
    decreases buf.len(),
{
    if i > 0 {
        assert(buf[0] != 0);
        let d = buf.drop_first();
        assert forall|j: int| 0 <= j < i - 1 implies #[trigger] d[j] != 0 by {
            assert(buf[j + 1] != 0);
        }
        nul_found(d, i - 1);
    }
}

fn text_until_nul(buf: &[u8]) -> (r: Option<String>)
    ensures
        optional(r) == c_text(buf@),
{
    let mut i: usize = 0;
    while i < buf.len() && buf[i] != 0
        invariant
            i <= buf.len(),
            forall|j: int| 0 <= j < i ==> #[trigger] buf[j] != 0,
        decreases buf.len() - i,
    {
        i += 1;
    }
    proof {
        nul_found(buf@, i as int);
    }
    if i == buf.len() || i == 0 {
        return None;
    }
    let bytes = vstd::slice::slice_subrange(buf, 0, i);
    assert(bytes@ =~= buf@.take(i as int));
    let r = decode(bytes);
    proof {
        if let Some(s) = &r {
            encode_utf8_decode_utf8(s@);
        }
    }
    r
}

/// The human-readable name of an output device, from the buffer that the system filled in.
/// `found` says whether it did. An empty name counts as none.
pub fn output_device_name(found: bool, buf: &[u8]) -> (r: Option<String>)
    ensures
        optional(r) == if found {
            c_text(buf@)
        } else {
            None
        },
{
    if !found {
        return None;
    }
    text_until_nul(buf)
}

/// What to say when the tap did not start, from the message buffer that the system filled in.
pub fn tap_failure(buf: &[u8]) -> (t: String)
    ensures
        t@ == "could not start the audio tap: "@ + match c_text(buf@) {
            Some(m) => m,
            None => "unknown Core Audio error"@,
        },
{
    match text_until_nul(buf) {
        Some(m) => glue("could not start the audio tap: ", &m),
        None => glue("could not start the audio tap: ", "unknown Core Audio error"),
    }
}

/// What a failure code of the running tap means.
pub open spec fn runtime_failure(code: u32) -> Option<Seq<char>> {
    if code == 0 {
        None
    } else if code == 1 {
        Some("runtime output stream layout changed"@)
    } else if code == 2 {
        Some("runtime input stream layout changed"@)
    } else if code == 3 {
        Some("runtime stream buffer sizes no longer match"@)
    } else {
        Some("unknown runtime stream failure"@)
    }
}

/// What a failure code of the running tap means; 0 means none.
pub fn runtime_error(code: u32) -> (r: Option<String>)
    ensures
        optional(r) == runtime_failure(code),
{
    if code == 0 {
        None
    } else if code == 1 {
        Some("runtime output stream layout changed".to_owned())
    } else if code == 2 {
        Some("runtime input stream layout changed".to_owned())
    } else if code == 3 {
        Some("runtime stream buffer sizes no longer match".to_owned())
    } else {
        Some("unknown runtime stream failure".to_owned())
    }
}

/// What a snapshot of the default output comes to, from the properties that could be read.
/// The name is a label: where there is none, the identifier stands in for it.
pub open spec fn resolved(
    id: Option<u32>,
    uid: Option<Seq<char>>,
    name: Option<Seq<char>>,
    rate: Option<Double>,
    stream: Option<StreamView>,
) -> Result<TargetView, ErrorView> {
    match id {
        None => Err(about(Fault::Outside, "no default output device"@)),
        Some(n) => {
            let number = digits(n as nat);
            if uid is None {
                Err(about(Fault::Outside, "could not read output device UID for #"@ + number))
            } else if rate is None {
                Err(
                    about(
                        Fault::Outside,
                        "could not read output device sample rate for #"@ + number,
                    ),
                )
            } else if stream is None {
                Err(about(Fault::Outside, "could not read output stream format for #"@ + number))
            } else {
                Ok(
                    TargetView {
                        id: n,
                        uid: uid->0,
                        name: match name {
                            Some(t) => t,
                            None => "#"@ + number,
                        },
                        sample_rate: rate->0,
                        stream: stream->0,
                    },
                )
            }
        },
    }
}

impl OutputTarget {
    /// Put a snapshot together from the properties that could be read of the device `id`.
    pub fn resolve(
        id: Option<u32>,
        uid: Option<String>,
        name: Option<String>,
        rate: Option<Double>,
        stream: Option<StreamFacts>,
    ) -> (r: Result<OutputTarget, EqError>)
        ensures
            match resolved(
                id,
                optional(uid),
                optional(name),
                rate,
                match stream {
                    Some(s) => Some(s@),
                    None => None,
                },
            ) {
                Ok(t) => r matches Ok(target) && target@ == t,
                Err(e) => r matches Err(error) && error@ == e,
            },
    {
        let n: u32 = match id {
            Some(n) => n,
            None => return Err(EqError::about(Fault::Outside, "no default output device")),
        };
        let number = decimal(n as u64);
        let uid: String = match uid {
            Some(t) => t,
            None => {
                return Err(
                    EqError::outside(glue("could not read output device UID for #", &number)),
                );
            },
        };
        let name: String = match name {
            Some(t) => t,
            None => glue("#", &number),
        };
        let rate: Double = match rate {
            Some(x) => x,
            None => {
                return Err(
                    EqError::outside(
                        glue("could not read output device sample rate for #", &number),
                    ),
                );
            },
        };
        match stream {
            Some(stream) => Ok(OutputTarget { id: n, uid, name, sample_rate: rate, stream }),
            None => Err(
                EqError::outside(glue("could not read output stream format for #", &number)),
            ),
        }
    }
}

/// The number of silent frames in a row after one more block. The count starts over where it
/// would not fit.
pub open spec fn silence_after(before: u64, silent: bool, frames: u32) -> int {
    if silent {
        (before + frames) % 0x1_0000_0000_0000_0000
    } else {
        0
    }
}

/// The number of silent frames in a row after one more block.
pub fn silent_frames(before: u64, silent: bool, frames: u32) -> (n: u64)
    ensures
        n == silence_after(before, silent, frames),
{
    if silent {
        before.wrapping_add(frames as u64)
    } else {
        0
    }
}

// --- laws ------------------------------------------------------------------------------------

/// An output is usable exactly when there is a default one and its identifier, its rate, and its
/// format could be read; then it is described by what was read. The name alone may be missing.
pub proof fn which_outputs_are_usable(
    id: Option<u32>,
    uid: Option<Seq<char>>,
    name: Option<Seq<char>>,
    rate: Option<Double>,
    stream: Option<StreamView>,
)
    ensures
        resolved(id, uid, name, rate, stream) is Ok <==> id is Some && uid is Some && rate is Some
            && stream is Some,
        resolved(id, uid, name, rate, stream) matches Ok(t) ==> {
            &&& Some(t.id) == id
            &&& Some(t.uid) == uid
            &&& Some(t.sample_rate) == rate
            &&& Some(t.stream) == stream
            &&& name is Some ==> Some(t.name) == name
            &&& name is None ==> t.name.skip(1) == digits(t.id as nat)
        },
{
    if name is None {
        if let Some(n) = id {
            reveal_strlit("#");
            assert(("#"@ + digits(n as nat)).skip(1) =~= digits(n as nat));
        }
    }
}

/// A format is described by its rate, its channels, and its layout; separate buffers are told
/// from a shared one.
pub proof fn a_description_tells_the_format(s: StreamView)
    ensures
        s.description().take(s.rate_text.len() as int) == s.rate_text,
        crate::text::holds(s.description(), s.format_name()),
        s.format_flags / 32 % 2 == 1 <==> !s.interleaved(),
        s.format_id == 0x6c70_636d && s.format_flags % 2 == 1 ==> s.format_name() == "Float"@
            + digits(s.bits_per_channel as nat),
{
    let t = s.description();
    let a = s.rate_text + " Hz, "@ + digits(s.channels as nat) + " ch, "@;
    let f = s.format_name();
    assert(t.take(s.rate_text.len() as int) =~= s.rate_text);
    assert(t.subrange(a.len() as int, (a.len() + f.len()) as int) =~= f);
    assert(crate::text::stands_at(t, f, a.len() as int));
}

/// The number that hexadecimal digits stand for.
pub open spec fn hex_reading(t: Seq<char>) -> int
    decreases t.len(),
{
    if t.len() == 0 {
        0
    } else {
        16 * hex_reading(t.drop_last()) + if '0' <= t.last() <= '9' {
            t.last() as int - 48
        } else {
            t.last() as int - 87
        }
    }
}

/// Hexadecimal notation reads as the number it was made of, as far as its digits go.
pub proof fn hex_reads_back(n: nat, width: nat)
    ensures
        hex(n, width).len() == width,
        n < pow(16, width) ==> hex_reading(hex(n, width)) == n,
    decreases width,
{
    reveal(pow);
    reveal_strlit("0123456789abcdef");
    if width > 0 {
        hex_reads_back(n / 16, (width - 1) as nat);
        let t = hex(n, width);
        let d = n as int % 16;
        assert(t.drop_last() =~= hex(n / 16, (width - 1) as nat));
        assert(pow(16, width) == 16 * pow(16, (width - 1) as nat));
        let c = "0123456789abcdef"@[d];
        assert(d < 10 ==> c as int == 48 + d);
        assert(d >= 10 ==> c as int == 87 + d);
        assert(t.last() == c);
    }
}

/// A text from the system ends before the first NUL, and there is one only where there is a NUL
/// with UTF-8 before it: its bytes are those before the NUL, and no text is empty.
pub proof fn a_text_ends_at_the_nul(buf: Seq<u8>)
    ensures
        c_text(buf) matches Some(t) ==> {
            let n = encode_utf8(t).len();
            &&& 0 < n < buf.len()
            &&& buf[n as int] == 0
            &&& buf.take(n as int) == encode_utf8(t)
            &&& forall|i: int| 0 <= i < n ==> #[trigger] buf[i] != 0
        },
        c_text(buf) is None ==> {
            ||| forall|i: int| 0 <= i < buf.len() ==> #[trigger] buf[i] != 0
            ||| buf[0] == 0
            ||| exists|n: int| 0 < n < buf.len() && buf[n] == 0 && !valid_utf8(#[trigger] buf.take(n))
        },
{
    nul_is_first(buf);
    let n = nul_at(buf);
    if let Some(t) = c_text(buf) {
        decode_utf8_encode_utf8(buf.take(n));
    } else if n < buf.len() && n > 0 {
        assert(!valid_utf8(buf.take(n)));
    }
}

proof fn nul_is_first(buf: Seq<u8>)
    ensures
        0 <= nul_at(buf) <= buf.len(),
        nul_at(buf) < buf.len() ==> buf[nul_at(buf)] == 0,
        forall|i: int| 0 <= i < nul_at(buf) ==> #[trigger] buf[i] != 0,
    decreases buf.len(),
{
    if buf.len() > 0 && buf[0] != 0 {
        let d = buf.drop_first();
        nul_is_first(d);
        assert forall|i: int| 0 <= i < nul_at(buf) implies #[trigger] buf[i] != 0 by {
            if i > 0 {
                assert(d[i - 1] == buf[i]);
            }
        }
    }
}

/// No failure is told exactly where the code is zero; every other code is told.
pub proof fn every_failure_code_is_told(code: u32)
    ensures
        runtime_failure(code) is None <==> code == 0,
{
}

/// Silent frames add up from block to block, in one block or in two, and one block with sound in
/// it starts the count over.
pub proof fn silence_adds_up(before: u64, a: u32, b: u32)
    requires
        before + a + b <= u64::MAX,
        a + b <= u32::MAX,
    ensures
        silence_after(before, true, a) == before + a,
        silence_after(silence_after(before, true, a) as u64, true, b) == silence_after(
            before,
            true,
            (a + b) as u32,
        ),
        silence_after(before, false, a) == 0,
{
}

} // verus!
