//! The settings file: one `key=value` assignment per line, `#` comments,
//! blank lines and unknown keys ignored. Reading gives the assignments in file
//! order; the three on/off switches are interpreted here, the numeric values
//! are handed on as text.

use vstd::prelude::*;
use crate::text::{same_text, spec_find, spec_trim, spec_ascii_lower, chars_of, trim, find_char, ascii_lower, copy_range, push_all};

verus! {

/// A setting that the settings file can assign.
#[derive(Clone, Copy, Debug, PartialEq, Eq, Structural)]
pub enum SettingKey {
    DenoiseEnabled,
    DenoiseReductionDb,
    DenoiseFloorDb,
    DenoiseSoftnessDb,
    HpfEnabled,
    TargetDb,
    RideAmount,
    SpeedMs,
    NoiseFloorDb,
    MaxBoostDb,
    MaxCutDb,
    OutputGainDb,
    Limiter,
}

/// The name under which a setting is written.
pub open spec fn spec_key_name(k: SettingKey) -> Seq<char> {
    match k {
        SettingKey::DenoiseEnabled => "denoise_enabled"@,
        SettingKey::DenoiseReductionDb => "denoise_reduction_db"@,
        SettingKey::DenoiseFloorDb => "denoise_floor_db"@,
        SettingKey::DenoiseSoftnessDb => "denoise_softness_db"@,
        SettingKey::HpfEnabled => "hpf_enabled"@,
        SettingKey::TargetDb => "target_db"@,
        SettingKey::RideAmount => "ride_amount"@,
        SettingKey::SpeedMs => "speed_ms"@,
        SettingKey::NoiseFloorDb => "noise_floor_db"@,
        SettingKey::MaxBoostDb => "max_boost_db"@,
        SettingKey::MaxCutDb => "max_cut_db"@,
        SettingKey::OutputGainDb => "output_gain_db"@,
        SettingKey::Limiter => "limiter"@,
    }
}

/// The setting a name read from the file stands for: its written name, or
/// `denoise_amount`, an older name of the denoise reduction.
pub open spec fn spec_key_named(name: Seq<char>) -> Option<SettingKey> {
    if name == "denoise_enabled"@ {
        Some(SettingKey::DenoiseEnabled)
    } else if name == "denoise_reduction_db"@ || name == "denoise_amount"@ {
        Some(SettingKey::DenoiseReductionDb)
    } else if name == "denoise_floor_db"@ {
        Some(SettingKey::DenoiseFloorDb)
    } else if name == "denoise_softness_db"@ {
        Some(SettingKey::DenoiseSoftnessDb)
    } else if name == "hpf_enabled"@ {
        Some(SettingKey::HpfEnabled)
    } else if name == "target_db"@ {
        Some(SettingKey::TargetDb)
    } else if name == "ride_amount"@ {
        Some(SettingKey::RideAmount)
    } else if name == "speed_ms"@ {
        Some(SettingKey::SpeedMs)
    } else if name == "noise_floor_db"@ {
        Some(SettingKey::NoiseFloorDb)
    } else if name == "max_boost_db"@ {
        Some(SettingKey::MaxBoostDb)
    } else if name == "max_cut_db"@ {
        Some(SettingKey::MaxCutDb)
    } else if name == "output_gain_db"@ {
        Some(SettingKey::OutputGainDb)
    } else if name == "limiter"@ {
        Some(SettingKey::Limiter)
    } else {
        None
    }
}

/// Whether a setting is an on/off switch (the others are numbers).
pub open spec fn spec_is_switch(k: SettingKey) -> bool {
    k == SettingKey::DenoiseEnabled || k == SettingKey::HpfEnabled || k == SettingKey::Limiter
}

/// The order in which the settings are written.
pub open spec fn spec_file_order() -> Seq<SettingKey> {
    seq![
        SettingKey::DenoiseEnabled,
        SettingKey::DenoiseReductionDb,
        SettingKey::DenoiseFloorDb,
        SettingKey::DenoiseSoftnessDb,
        SettingKey::HpfEnabled,
        SettingKey::TargetDb,
        SettingKey::RideAmount,
        SettingKey::SpeedMs,
        SettingKey::NoiseFloorDb,
        SettingKey::MaxBoostDb,
        SettingKey::MaxCutDb,
        SettingKey::OutputGainDb,
        SettingKey::Limiter,
    ]
}

impl SettingKey {
    /// The name under which this setting is written.
    pub fn name(self) -> (r: &'static str)
        ensures
            r@ == spec_key_name(self),
    {
        match self {
            SettingKey::DenoiseEnabled => "denoise_enabled",
            SettingKey::DenoiseReductionDb => "denoise_reduction_db",
            SettingKey::DenoiseFloorDb => "denoise_floor_db",
            SettingKey::DenoiseSoftnessDb => "denoise_softness_db",
            SettingKey::HpfEnabled => "hpf_enabled",
            SettingKey::TargetDb => "target_db",
            SettingKey::RideAmount => "ride_amount",
            SettingKey::SpeedMs => "speed_ms",
            SettingKey::NoiseFloorDb => "noise_floor_db",
            SettingKey::MaxBoostDb => "max_boost_db",
            SettingKey::MaxCutDb => "max_cut_db",
            SettingKey::OutputGainDb => "output_gain_db",
            SettingKey::Limiter => "limiter",
        }
    }

    /// The setting that `name` stands for, if any (names are case-sensitive).
    pub fn from_name(name: &[char]) -> (r: Option<SettingKey>)
        ensures
            r == spec_key_named(name@),
    {
        if same_text(name, "denoise_enabled") {
            Some(SettingKey::DenoiseEnabled)
        } else if same_text(name, "denoise_reduction_db") || same_text(name, "denoise_amount") {
            Some(SettingKey::DenoiseReductionDb)
        } else if same_text(name, "denoise_floor_db") {
            Some(SettingKey::DenoiseFloorDb)
        } else if same_text(name, "denoise_softness_db") {
            Some(SettingKey::DenoiseSoftnessDb)
        } else if same_text(name, "hpf_enabled") {
            Some(SettingKey::HpfEnabled)
        } else if same_text(name, "target_db") {
            Some(SettingKey::TargetDb)
        } else if same_text(name, "ride_amount") {
            Some(SettingKey::RideAmount)
        } else if same_text(name, "speed_ms") {
            Some(SettingKey::SpeedMs)
        } else if same_text(name, "noise_floor_db") {
            Some(SettingKey::NoiseFloorDb)
        } else if same_text(name, "max_boost_db") {
            Some(SettingKey::MaxBoostDb)
        } else if same_text(name, "max_cut_db") {
            Some(SettingKey::MaxCutDb)
        } else if same_text(name, "output_gain_db") {
            Some(SettingKey::OutputGainDb)
        } else if same_text(name, "limiter") {
            Some(SettingKey::Limiter)
        } else {
            None
        }
    }

    /// Whether this setting is an on/off switch.
    pub fn is_switch(self) -> (r: bool)
        ensures
            r == spec_is_switch(self),
    {
        match self {
            SettingKey::DenoiseEnabled | SettingKey::HpfEnabled | SettingKey::Limiter => true,
            _ => false,
        }
    }

    /// All settings, in the order in which they are written.
    pub fn file_order() -> (r: Vec<SettingKey>)
        ensures
            r@ == spec_file_order(),
    {
        let r = vec![
            SettingKey::DenoiseEnabled,
            SettingKey::DenoiseReductionDb,
            SettingKey::DenoiseFloorDb,
            SettingKey::DenoiseSoftnessDb,
            SettingKey::HpfEnabled,
            SettingKey::TargetDb,
            SettingKey::RideAmount,
            SettingKey::SpeedMs,
            SettingKey::NoiseFloorDb,
            SettingKey::MaxBoostDb,
            SettingKey::MaxCutDb,
            SettingKey::OutputGainDb,
            SettingKey::Limiter,
        ];
        assert(r@ =~= spec_file_order());
        r
    }
}


/// One assignment read from (or to be written to) the settings file: the
/// setting, and the text after the first `=` of its line.
#[derive(Debug)]
pub struct Entry {
    pub key: SettingKey,
    pub value: Vec<char>,
}

impl View for Entry {
    type V = (SettingKey, Seq<char>);

    open spec fn view(&self) -> (SettingKey, Seq<char>) {
        (self.key, self.value@)
    }
}

/// The views of a list of entries.
pub open spec fn entries_view(es: Seq<Entry>) -> Seq<(SettingKey, Seq<char>)> {
    es.map_values(|e: Entry| e@)
}

/// What one line of the settings file assigns: nothing for a blank line, a
/// `#` comment, a line without `=` or one whose name (trimmed) is unknown;
/// otherwise the named setting and the rest of the trimmed line after the
/// first `=`.
pub open spec fn spec_parse_line(line: Seq<char>) -> Option<(SettingKey, Seq<char>)> {
    let t = spec_trim(line);
    if t.len() == 0 || t[0] == '#' {
        None
    } else {
        match spec_find(t, '=') {
            None => None,
            Some(i) => match spec_key_named(spec_trim(t.take(i))) {
                Some(k) => Some((k, t.skip(i + 1))),
                None => None,
            },
        }
    }
}

/// What one line of the settings file assigns.
pub fn parse_line(line: &[char]) -> (r: Option<Entry>)
    ensures
        match r {
            Some(e) => spec_parse_line(line@) == Some(e@),
            None => spec_parse_line(line@) is None,
        },
{
    let t = trim(line);
    if t.len() == 0 || t[0] == '#' {
        return None;
    }
    match find_char(&t, '=') {
        None => None,
        Some(i) => {
            proof {
                crate::text::lemma_find(t@, '=');
            }
            let name_part = copy_range(&t, 0, i);
            let name = trim(&name_part);
            match SettingKey::from_name(&name) {
                Some(k) => {
                    let value = copy_range(&t, i + 1, t.len());
                    proof {
                        assert(name_part@ =~= t@.take(i as int));
                        assert(value@ =~= t@.skip(i + 1));
                    }
                    Some(Entry { key: k, value })
                },
                None => {
                    proof {
                        assert(name_part@ =~= t@.take(i as int));
                    }
                    None
                },
            }
        },
    }
}

/// The pieces of `s` between line feeds, in order (one more piece than there
/// are line feeds). Reading trims every piece and skips blank ones, so this
/// gives the same assignments as `str::lines`, which drops the `\r` of a
/// `\r\n` ending and the empty piece after a final line feed.
pub open spec fn spec_split_lines(s: Seq<char>) -> Seq<Seq<char>>
    decreases s.len(),
{
    if s.len() == 0 {
        seq![Seq::<char>::empty()]
    } else {
        let prev = spec_split_lines(s.drop_last());
        if s.last() == '\n' {
            prev.push(Seq::<char>::empty())
        } else {
            prev.update(prev.len() - 1, prev.last().push(s.last()))
        }
    }
}

/// The assignments of a list of lines, in order.
pub open spec fn spec_entries_of(lines: Seq<Seq<char>>) -> Seq<(SettingKey, Seq<char>)>
    decreases lines.len(),
{
    if lines.len() == 0 {
        Seq::empty()
    } else {
        let prev = spec_entries_of(lines.drop_last());
        match spec_parse_line(lines.last()) {
            Some(e) => prev.push(e),
            None => prev,
        }
    }
}

/// The assignments of a settings file, in file order.
pub open spec fn spec_parse_settings(content: Seq<char>) -> Seq<(SettingKey, Seq<char>)> {
    spec_entries_of(spec_split_lines(content))
}

/// The assignments of a settings file, in file order.
pub fn parse_settings(content: &str) -> (r: Vec<Entry>)
    ensures
        entries_view(r@) == spec_parse_settings(content@),
{
    let cs = chars_of(content);
    let n: usize = cs.len();
    let mut out: Vec<Entry> = Vec::new();
    let mut line: Vec<char> = Vec::new();
    let ghost mut done: Seq<Seq<char>> = Seq::empty();
    let mut i: usize = 0;
    assert(cs@.take(0) =~= Seq::<char>::empty());
    assert(done.push(line@) =~= seq![Seq::<char>::empty()]);
    while i < n
        invariant
            i <= n == cs@.len(),
            spec_split_lines(cs@.take(i as int)) == done.push(line@),
            entries_view(out@) == spec_entries_of(done),
        decreases n - i,
    {
        let c = cs[i];
        assert(cs@.take(i + 1).drop_last() =~= cs@.take(i as int));
        if c == '\n' {
            let parsed = parse_line(&line);
            proof {
                let d2 = done.push(line@);
                assert(d2.drop_last() =~= done);
            }
            match parsed {
                Some(e) => {
                    out.push(e);
                    assert(entries_view(out@) =~= spec_entries_of(done).push(e@));
                },
                None => {},
            }
            proof {
                done = done.push(line@);
            }
            line = Vec::new();
            assert(spec_split_lines(cs@.take(i + 1)) =~= done.push(line@));
        } else {
            line.push(c);
            assert(spec_split_lines(cs@.take(i + 1)) =~= done.push(line@));
        }
        i = i + 1;
    }
    let parsed = parse_line(&line);
    proof {
        assert(cs@.take(n as int) =~= cs@);
        assert(done.push(line@).drop_last() =~= done);
    }
    match parsed {
        Some(e) => {
            out.push(e);
            assert(entries_view(out@) =~= spec_entries_of(done).push(e@));
        },
        None => {},
    }
    out
}


/// What an on/off value reads as: after trimming and lowering ASCII letters,
/// `true`, `1`, `yes` and `on` are on, `false`, `0`, `no` and `off` are off,
/// and anything else leaves `fallback`.
pub open spec fn spec_parse_bool(value: Seq<char>, fallback: bool) -> bool {
    let w = spec_ascii_lower(spec_trim(value));
    if w == "true"@ || w == "1"@ || w == "yes"@ || w == "on"@ {
        true
    } else if w == "false"@ || w == "0"@ || w == "no"@ || w == "off"@ {
        false
    } else {
        fallback
    }
}

/// What an on/off value reads as, `fallback` where it is not one.
pub fn parse_bool(value: &[char], fallback: bool) -> (r: bool)
    ensures
        r == spec_parse_bool(value@, fallback),
{
    let t = trim(value);
    let w = ascii_lower(&t);
    if same_text(&w, "true") || same_text(&w, "1") || same_text(&w, "yes") || same_text(&w, "on") {
        true
    } else if same_text(&w, "false") || same_text(&w, "0") || same_text(&w, "no") || same_text(
        &w,
        "off",
    ) {
        false
    } else {
        fallback
    }
}

/// How an on/off value is written.
pub open spec fn spec_bool_text(b: bool) -> Seq<char> {
    if b {
        "true"@
    } else {
        "false"@
    }
}

/// How an on/off value is written.
pub fn bool_text(b: bool) -> (r: &'static str)
    ensures
        r@ == spec_bool_text(b),
{
    if b {
        "true"
    } else {
        "false"
    }
}

/// The three on/off settings.
#[derive(Clone, Copy, Debug, PartialEq, Eq, Structural)]
pub struct Switches {
    pub denoise_enabled: bool,
    pub hpf_enabled: bool,
    pub limiter: bool,
}

impl Default for Switches {
    /// All three switches on, as a fresh installation has them.
    fn default() -> (r: Switches)
        ensures
            r == (Switches { denoise_enabled: true, hpf_enabled: true, limiter: true }),
    {
        Switches { denoise_enabled: true, hpf_enabled: true, limiter: true }
    }
}

/// The value of the switch `k` in `sw` (`k` a switch).
pub open spec fn spec_switch_value(sw: Switches, k: SettingKey) -> bool {
    if k == SettingKey::DenoiseEnabled {
        sw.denoise_enabled
    } else if k == SettingKey::HpfEnabled {
        sw.hpf_enabled
    } else {
        sw.limiter
    }
}

/// `sw` after one assignment: a switch takes what its value reads as, with
/// its current state as the fallback; a numeric setting leaves `sw` as it is.
pub open spec fn spec_apply_entry(sw: Switches, e: (SettingKey, Seq<char>)) -> Switches {
    match e.0 {
        SettingKey::DenoiseEnabled => Switches {
            denoise_enabled: spec_parse_bool(e.1, sw.denoise_enabled),
            ..sw
        },
        SettingKey::HpfEnabled => Switches { hpf_enabled: spec_parse_bool(e.1, sw.hpf_enabled), ..sw },
        SettingKey::Limiter => Switches { limiter: spec_parse_bool(e.1, sw.limiter), ..sw },
        _ => sw,
    }
}

/// `sw` after the assignments `es`, in order.
pub open spec fn spec_apply_entries(sw: Switches, es: Seq<(SettingKey, Seq<char>)>) -> Switches
    decreases es.len(),
{
    if es.len() == 0 {
        sw
    } else {
        spec_apply_entry(spec_apply_entries(sw, es.drop_last()), es.last())
    }
}

/// `base` after the assignments `entries`, in order.
pub fn apply_switches(entries: &[Entry], base: Switches) -> (r: Switches)
    ensures
        r == spec_apply_entries(base, entries_view(entries@)),
{
    let n: usize = entries.len();
    let mut sw = base;
    let mut i: usize = 0;
    while i < n
        invariant
            i <= n == entries@.len(),
            sw == spec_apply_entries(base, entries_view(entries@).take(i as int)),
        decreases n - i,
    {
        let e = &entries[i];
        match e.key {
            SettingKey::DenoiseEnabled => {
                sw.denoise_enabled = parse_bool(&e.value, sw.denoise_enabled);
            },
            SettingKey::HpfEnabled => {
                sw.hpf_enabled = parse_bool(&e.value, sw.hpf_enabled);
            },
            SettingKey::Limiter => {
                sw.limiter = parse_bool(&e.value, sw.limiter);
            },
            _ => {},
        }
        assert(entries_view(entries@).take(i + 1).drop_last() =~= entries_view(entries@).take(
            i as int,
        ));
        i = i + 1;
    }
    assert(entries_view(entries@).take(n as int) =~= entries_view(entries@));
    sw
}


/// The first line of a written settings file.
pub open spec fn spec_header() -> Seq<char> {
    "# SimpleVoiceCleaner settings"@
}

/// The line (without its line feed) that writes one assignment.
pub open spec fn spec_entry_line(e: (SettingKey, Seq<char>)) -> Seq<char> {
    spec_key_name(e.0) + "="@ + e.1
}

/// The header and the lines of `es`, joined by line feeds.
pub open spec fn spec_joined_lines(es: Seq<(SettingKey, Seq<char>)>) -> Seq<char>
    decreases es.len(),
{
    if es.len() == 0 {
        spec_header()
    } else {
        spec_joined_lines(es.drop_last()) + seq!['\n'] + spec_entry_line(es.last())
    }
}

/// The settings file that writes `es`: the header line, then one
/// `name=value` line per assignment, each line ended by a line feed.
pub open spec fn spec_render_settings(es: Seq<(SettingKey, Seq<char>)>) -> Seq<char> {
    spec_joined_lines(es).push('\n')
}

/// The settings file that writes `entries`, in order.
pub fn render_settings(entries: &[Entry]) -> (r: Vec<char>)
    ensures
        r@ == spec_render_settings(entries_view(entries@)),
{
    let mut out = chars_of("# SimpleVoiceCleaner settings");
    let n: usize = entries.len();
    let mut i: usize = 0;
    while i < n
        invariant
            i <= n == entries@.len(),
            out@ == spec_joined_lines(entries_view(entries@).take(i as int)),
        decreases n - i,
    {
        let e = &entries[i];
        out.push('\n');
        let name = chars_of(e.key.name());
        push_all(&mut out, &name);
        out.push('=');
        push_all(&mut out, &e.value);
        proof {
            let es = entries_view(entries@);
            assert(es.take(i + 1).drop_last() =~= es.take(i as int));
            assert("="@ =~= seq!['=']) by {
                reveal_strlit("=");
            }
            assert(out@ =~= spec_joined_lines(es.take(i + 1)));
        }
        i = i + 1;
    }
    assert(entries_view(entries@).take(n as int) =~= entries_view(entries@));
    out.push('\n');
    out
}

} // verus!
