//! What the settings panel says.
use crate::audio_state::AudioState;
use crate::i18n::Strings;
use crate::perf::SystemSnapshot;
use crate::settings::{CaptureInfo, FitMode};
use crate::text::{decimal, lemma_encode_concat, line, push_decimal};
use vstd::prelude::*;
use vstd::string::*;
use vstd::utf8::{decode_utf8, encode_utf8, encode_utf8_decode_utf8, is_char_boundary};

verus! {

/// Bytes of a device name that fit the dropdown.
pub const MAX_NAME: usize = 48;

/// Bytes of a longer name that are shown, at the most.
pub const SHORT_NAME: usize = 45;

/// The last place at or before `at` where no character is cut.
pub open spec fn boundary_before(bytes: Seq<u8>, at: nat) -> nat
    decreases at,
{
    if at == 0 || is_char_boundary(bytes, at as int) {
        at
    } else {
        boundary_before(bytes, (at - 1) as nat)
    }
}

/// The characters of a longer name that are shown.
pub open spec fn shown_part(s: Seq<char>) -> Seq<char> {
    let bytes = encode_utf8(s);
    decode_utf8(bytes.take(boundary_before(bytes, SHORT_NAME as nat) as int))
}

/// A device name as it is shown in the dropdown: whole where it fits, else as
/// many of its first characters as there is room for, and three dots.
pub open spec fn shortened(s: Seq<char>) -> Seq<char> {
    if encode_utf8(s).len() <= MAX_NAME {
        s
    } else {
        shown_part(s) + "..."@
    }
}

/// No character is cut at the place that is found.
proof fn lemma_boundary(bytes: Seq<u8>, at: nat)
    requires
        vstd::utf8::valid_utf8(bytes),
    ensures
        boundary_before(bytes, at) <= at,
        is_char_boundary(bytes, boundary_before(bytes, at) as int),
    decreases at,
{
    if at > 0 && !is_char_boundary(bytes, at as int) {
        lemma_boundary(bytes, (at - 1) as nat);
    }
}

/// Shortens device names so they fit the dropdown without horizontal scroll.
pub fn short(s: &str) -> (r: String)
    ensures
        r@ == shortened(s@),
{
    let len: usize = s.as_bytes().len();
    if len <= MAX_NAME {
        return line(s);
    }
    let ghost bytes = encode_utf8(s@);
    proof {
        vstd::utf8::encode_utf8_valid_utf8(s@);
    }
    let mut cut: usize = SHORT_NAME;
    while cut > 0 && !s.is_char_boundary(cut)
        invariant
            bytes == encode_utf8(s@),
            cut <= SHORT_NAME,
            boundary_before(bytes, SHORT_NAME as nat) == boundary_before(bytes, cut as nat),
        decreases cut,
    {
        cut = cut - 1;
    }
    proof {
        lemma_boundary(bytes, cut as nat);
    }
    let (head, _rest) = s.split_at(cut);
    let mut out: String = line(head);
    out.append("...");
    proof {
        encode_utf8_decode_utf8(head@);
        assert(encode_utf8(head@) =~= bytes.take(cut as int));
    }
    out
}

/// Every name fits the dropdown once it was shortened, and what is shown of it
/// is how it starts.
pub proof fn law_short_names_fit(s: Seq<char>)
    ensures
        encode_utf8(shortened(s)).len() <= MAX_NAME,
        encode_utf8(s).len() > MAX_NAME ==> shortened(s) == shown_part(s) + "..."@,
        shown_part(s).is_prefix_of(s),
{
    let bytes = encode_utf8(s);
    let at = boundary_before(bytes, SHORT_NAME as nat) as int;
    vstd::utf8::encode_utf8_valid_utf8(s);
    lemma_boundary(bytes, SHORT_NAME as nat);
    if at > bytes.len() {
        assert(!is_char_boundary(bytes, at));
    }
    vstd::utf8::valid_utf8_split(bytes, at);
    vstd::utf8::decode_utf8_split(bytes, at);
    encode_utf8_decode_utf8(s);
    let cut = bytes.take(at);
    assert(cut =~= bytes.subrange(0, at));
    assert(s =~= shown_part(s) + decode_utf8(bytes.subrange(at, bytes.len() as int)));
    if bytes.len() > MAX_NAME {
        vstd::utf8::decode_utf8_encode_utf8(cut);
        lemma_encode_concat(shown_part(s), "..."@);
        reveal_strlit("...");
        assert(vstd::utf8::is_ascii_chars("..."@));
        vstd::utf8::is_ascii_chars_encode_utf8("..."@);
    }
}

/// The line about the capture in the corner of the picture.
pub fn stats_line(t: &Strings, info: &CaptureInfo) -> (s: String)
    ensures
        s@ == t.stats_target@ + " "@ + decimal(info.fps_target as nat) + " fps  "@
            + info.format_label@,
{
    let mut out: String = line(t.stats_target);
    out.append(" ");
    push_decimal(&mut out, info.fps_target as u64);
    out.append(" fps  ");
    out.append(info.format_label.as_str());
    out
}

/// The line about the running audio streams.
pub fn audio_line(t: &Strings, state: &AudioState) -> (s: String)
    ensures
        s@ == decimal(state.sample_rate as nat) + " Hz, "@ + decimal(state.in_channels() as nat)
            + " "@ + t.audio_status_channels@ + ", "@ + t.audio_status_buffered@ + " "@ + decimal(
            (state.buffered_time() % 0x1_0000_0000) as nat,
        ) + " ms"@,
{
    let mut out: String = line("");
    push_decimal(&mut out, state.sample_rate() as u64);
    out.append(" Hz, ");
    push_decimal(&mut out, state.channels() as u64);
    out.append(" ");
    out.append(t.audio_status_channels);
    out.append(", ");
    out.append(t.audio_status_buffered);
    out.append(" ");
    push_decimal(&mut out, state.buffered_ms() as u64);
    out.append(" ms");
    proof {
        reveal_strlit("");
    }
    assert(out@ =~= decimal(state.sample_rate as nat) + " Hz, "@ + decimal(
        state.in_channels() as nat,
    ) + " "@ + t.audio_status_channels@ + ", "@ + t.audio_status_buffered@ + " "@ + decimal(
        (state.buffered_time() % 0x1_0000_0000) as nat,
    ) + " ms"@);
    out
}

/// The line about this process, given its share of the processor as text.
pub fn app_load_line(t: &Strings, cpu: &str, memory_mb: u64) -> (s: String)
    ensures
        s@ == t.perf_app_cpu@ + " "@ + cpu@ + " %   "@ + t.perf_app_ram@ + " "@ + decimal(
            memory_mb as nat,
        ) + " MB"@,
{
    let mut out: String = line(t.perf_app_cpu);
    out.append(" ");
    out.append(cpu);
    out.append(" %   ");
    out.append(t.perf_app_ram);
    out.append(" ");
    push_decimal(&mut out, memory_mb);
    out.append(" MB");
    out
}

/// The line about the machine, given the load of the processor as text.
pub fn system_load_line(t: &Strings, cpu: &str, system: &SystemSnapshot) -> (s: String)
    ensures
        s@ == t.perf_system_cpu@ + " "@ + cpu@ + " %   "@ + t.perf_system_ram@ + " "@ + decimal(
            system.used_memory_mb as nat,
        ) + " / "@ + decimal(system.total_memory_mb as nat) + " MB"@,
{
    let mut out: String = line(t.perf_system_cpu);
    out.append(" ");
    out.append(cpu);
    out.append(" %   ");
    out.append(t.perf_system_ram);
    out.append(" ");
    push_decimal(&mut out, system.used_memory_mb);
    out.append(" / ");
    push_decimal(&mut out, system.total_memory_mb);
    out.append(" MB");
    out
}

/// The address that the relay listens on: this machine alone, or everyone.
pub fn relay_host(localhost_only: bool) -> (host: [u8; 4])
    ensures
        host@ == if localhost_only {
            seq![127u8, 0u8, 0u8, 1u8]
        } else {
            seq![0u8, 0u8, 0u8, 0u8]
        },
{
    let host: [u8; 4] = if localhost_only {
        [127, 0, 0, 1]
    } else {
        [0, 0, 0, 0]
    };
    assert(host@ =~= if localhost_only {
        seq![127u8, 0u8, 0u8, 1u8]
    } else {
        seq![0u8, 0u8, 0u8, 0u8]
    });
    host
}

/// The relay section of the panel.
#[derive(Debug)]
pub struct RelayPanel {
    pub running: bool,
    pub port: u16,
    /// Start the relay with the program.
    pub autostart: bool,
    pub localhost_only: bool,
    /// Why the relay could not be started the last time.
    pub error: Option<String>,
}

impl RelayPanel {
    /// Takes note of what came of a start: a relay that runs is started with
    /// the program from then on; one that does not leaves its reason.
    pub fn started(&mut self, outcome: Result<(), String>)
        ensures
            match outcome {
                Ok(_) => *final(self) == (RelayPanel {
                    running: true,
                    autostart: true,
                    error: None,
                    ..*old(self)
                }),
                Err(reason) => *final(self) == (RelayPanel { error: Some(reason), ..*old(self) }),
            },
    {
        match outcome {
            Ok(_) => {
                self.running = true;
                self.autostart = true;
                self.error = None;
            },
            Err(reason) => {
                self.error = Some(reason);
            },
        }
    }

    /// Takes note that the user stopped the relay: it is not started with the
    /// program any more.
    pub fn stopped(&mut self)
        ensures
            *final(self) == (RelayPanel { running: false, autostart: false, ..*old(self) }),
    {
        self.running = false;
        self.autostart = false;
    }
}

/// Whether to hint at a firewall: the relay runs for the whole network, and no
/// client has ever come.
pub fn firewall_hint(active_clients: u64, total_clients: u64, localhost_only: bool) -> (r: bool)
    ensures
        r == (active_clients == 0 && total_clients == 0 && !localhost_only),
{
    active_clients == 0 && total_clients == 0 && !localhost_only
}

/// The label of a fit mode.
pub fn fit_label(t: &Strings, mode: FitMode) -> (s: &'static str)
    ensures
        s == match mode {
            FitMode::Stretch => t.fit_stretch,
            FitMode::Fit => t.fit_fit,
            FitMode::Fill => t.fit_fill,
        },
{
    match mode {
        FitMode::Stretch => t.fit_stretch,
        FitMode::Fit => t.fit_fit,
        FitMode::Fill => t.fit_fill,
    }
}

/// What the apply button says: whether there is something to apply.
pub fn apply_label(t: &Strings, dirty: bool) -> (s: &'static str)
    ensures
        s == if dirty {
            t.apply
        } else {
            t.applied
        },
{
    if dirty {
        t.apply
    } else {
        t.applied
    }
}

/// Behind the characters of a text stands a boundary of its bytes.
proof fn lemma_boundary_between(a: Seq<char>, b: Seq<char>)
    ensures
        is_char_boundary(encode_utf8(a + b), encode_utf8(a).len() as int),
    decreases a.len(),
{
    let all = a + b;
    let bytes = encode_utf8(all);
    vstd::utf8::encode_utf8_valid_utf8(all);
    if a.len() > 0 {
        let at = encode_utf8(a).len() as int;
        lemma_boundary_between(a.drop_first(), b);
        vstd::utf8::encode_utf8_first_scalar(all);
        vstd::utf8::encode_utf8_first_scalar(a);
        assert(all.drop_first() =~= a.drop_first() + b);
        assert(vstd::utf8::pop_first_scalar(bytes) =~= encode_utf8(all.drop_first()));
        assert(at == vstd::utf8::encode_scalar(a[0] as u32).len() + encode_utf8(
            a.drop_first(),
        ).len());
        lemma_encode_concat(a, b);
        assert(at <= bytes.len());
    }
}

/// No boundary lies between the place that is found and the one that was asked
/// for.
proof fn lemma_last_boundary(bytes: Seq<u8>, at: nat, other: nat)
    requires
        is_char_boundary(bytes, other as int),
        other <= at,
    ensures
        other <= boundary_before(bytes, at),
    decreases at,
{
    if at > 0 && !is_char_boundary(bytes, at as int) {
        lemma_last_boundary(bytes, (at - 1) as nat, other);
    }
}

/// A name of up to 48 bytes is shown whole. Of a longer one as much is shown as
/// there is room for: its first characters in 45 bytes, where one character more
/// would not fit, and three dots.
pub proof fn law_as_much_as_fits_is_shown(s: Seq<char>)
    ensures
        encode_utf8(s).len() <= 48 ==> shortened(s) == s,
        encode_utf8(s).len() > 48 ==> exists|k: int|
            {
                &&& 0 <= k < s.len()
                &&& shortened(s) == #[trigger] s.take(k) + "..."@
                &&& encode_utf8(s.take(k)).len() <= 45
                &&& encode_utf8(s.take(k + 1)).len() > 45
            },
{
    if encode_utf8(s).len() > 48 {
        let bytes = encode_utf8(s);
        let at = boundary_before(bytes, 45) as int;
        law_short_names_fit(s);
        let k = shown_part(s).len() as int;
        assert(shown_part(s) =~= s.take(k));
        vstd::utf8::encode_utf8_valid_utf8(s);
        lemma_boundary(bytes, 45);
        vstd::utf8::valid_utf8_split(bytes, at);
        assert(bytes.take(at) =~= bytes.subrange(0, at));
        vstd::utf8::decode_utf8_encode_utf8(bytes.take(at));
        assert(encode_utf8(s.take(k)) =~= bytes.take(at));
        if k == s.len() {
            assert(s.take(k) =~= s);
        }
        assert(k < s.len());
        let more = s.take(k + 1);
        assert(s =~= more + s.skip(k + 1));
        lemma_boundary_between(more, s.skip(k + 1));
        assert(more =~= s.take(k) + seq![s[k]]);
        lemma_encode_concat(s.take(k), seq![s[k]]);
        vstd::utf8::char_is_scalar(s[k]);
        assert(encode_utf8(seq![s[k]]).len() > 0);
        if encode_utf8(more).len() <= 45 {
            lemma_last_boundary(bytes, 45, encode_utf8(more).len());
        }
        assert(shortened(s) == s.take(k) + "..."@);
    }
}

} // verus!
