//! What holds of the settings file format as a whole: names read back as the
//! settings they were written for, written switches read back as the same
//! switches, a written file reads back as the assignments it was written
//! from, and lines that assign nothing change nothing.

use vstd::prelude::*;
use crate::text::{spec_is_whitespace, spec_trim, spec_trim_start, spec_trim_end, spec_find,
    shift_found, spec_ascii_lower, spec_ascii_lower_char};
use crate::settings::{
    SettingKey, Switches, spec_key_name, spec_key_named, spec_split_lines, spec_entries_of,
    spec_parse_line, spec_parse_settings, spec_header, spec_entry_line, spec_joined_lines,
    spec_render_settings, spec_parse_bool, spec_bool_text, spec_is_switch, spec_switch_value,
    spec_apply_entry, spec_apply_entries,
};

verus! {

/// A value that can be written and read back unchanged: no line feed in it,
/// and no whitespace at its end (reading trims every line).
pub open spec fn spec_writable_value(v: Seq<char>) -> bool {
    &&& forall|i: int| 0 <= i < v.len() ==> v[i] != '\n'
    &&& (v.len() == 0 || !spec_is_whitespace(v.last()))
}

/// Every value of `es` can be written and read back unchanged.
pub open spec fn spec_writable(es: Seq<(SettingKey, Seq<char>)>) -> bool {
    forall|i: int| 0 <= i < es.len() ==> spec_writable_value(#[trigger] es[i].1)
}

proof fn lemma_split_lines_nonempty(s: Seq<char>)
    ensures
        spec_split_lines(s).len() >= 1,
    decreases s.len(),
{
    if s.len() > 0 {
        lemma_split_lines_nonempty(s.drop_last());
    }
}

proof fn lemma_split_single_line(s: Seq<char>)
    requires
        forall|i: int| 0 <= i < s.len() ==> s[i] != '\n',
    ensures
        spec_split_lines(s) == seq![s],
    decreases s.len(),
{
    if s.len() > 0 {
        lemma_split_single_line(s.drop_last());
        assert(s.drop_last().push(s.last()) =~= s);
        assert(spec_split_lines(s) =~= seq![s]);
    } else {
        assert(s =~= Seq::<char>::empty());
    }
}

proof fn lemma_split_at_newline(x: Seq<char>, y: Seq<char>)
    ensures
        spec_split_lines(x + seq!['\n'] + y) == spec_split_lines(x) + spec_split_lines(y),
    decreases y.len(),
{
    let s = x + seq!['\n'] + y;
    if y.len() == 0 {
        assert(s.drop_last() =~= x);
        assert(spec_split_lines(y) =~= seq![Seq::<char>::empty()]);
        assert(spec_split_lines(s) =~= spec_split_lines(x) + spec_split_lines(y));
    } else {
        lemma_split_at_newline(x, y.drop_last());
        lemma_split_lines_nonempty(y.drop_last());
        lemma_split_lines_nonempty(x);
        assert(s.drop_last() =~= x + seq!['\n'] + y.drop_last());
        assert(s.last() == y.last());
        assert(spec_split_lines(s) =~= spec_split_lines(x) + spec_split_lines(y));
    }
}

proof fn lemma_entries_append(a: Seq<Seq<char>>, b: Seq<Seq<char>>)
    ensures
        spec_entries_of(a + b) == spec_entries_of(a) + spec_entries_of(b),
    decreases b.len(),
{
    if b.len() == 0 {
        assert(a + b =~= a);
        assert(spec_entries_of(a) + spec_entries_of(b) =~= spec_entries_of(a));
    } else {
        lemma_entries_append(a, b.drop_last());
        assert((a + b).drop_last() =~= a + b.drop_last());
        assert((a + b).last() == b.last());
        assert(spec_entries_of(a + b) =~= spec_entries_of(a) + spec_entries_of(b));
    }
}

proof fn lemma_trim_unchanged(s: Seq<char>)
    requires
        s.len() > 0,
        !spec_is_whitespace(s[0]),
        !spec_is_whitespace(s.last()),
    ensures
        spec_trim(s) == s,
{
    assert(spec_trim_start(s) == s);
    assert(spec_trim_end(s) == s);
}

proof fn lemma_find_after(a: Seq<char>, b: Seq<char>, c: char)
    requires
        forall|i: int| 0 <= i < a.len() ==> a[i] != c,
    ensures
        spec_find(a + b, c) == shift_found(spec_find(b, c), a.len() as int),
    decreases a.len(),
{
    if a.len() == 0 {
        assert(a + b =~= b);
        match spec_find(b, c) {
            Some(k) => {},
            None => {},
        }
    } else {
        lemma_find_after(a.drop_first(), b, c);
        assert((a + b).drop_first() =~= a.drop_first() + b);
        assert((a + b)[0] == a[0]);
        match spec_find(b, c) {
            Some(k) => {},
            None => {},
        }
    }
}

/// What every written name is like: not empty, no whitespace at either end, no
/// `#` first, no `=` or line feed in it, and it reads back as its setting.
proof fn lemma_key_name_facts(k: SettingKey)
    ensures
        spec_key_name(k).len() > 0,
        !spec_is_whitespace(spec_key_name(k)[0]),
        spec_key_name(k)[0] != '#',
        !spec_is_whitespace(spec_key_name(k).last()),
        forall|i: int|
            0 <= i < spec_key_name(k).len() ==> spec_key_name(k)[i] != '=' && spec_key_name(k)[i]
                != '\n',
        spec_key_named(spec_key_name(k)) == Some(k),
{
    reveal_strlit("denoise_enabled");
    reveal_strlit("denoise_reduction_db");
    reveal_strlit("denoise_amount");
    reveal_strlit("denoise_floor_db");
    reveal_strlit("denoise_softness_db");
    reveal_strlit("hpf_enabled");
    reveal_strlit("target_db");
    reveal_strlit("ride_amount");
    reveal_strlit("speed_ms");
    reveal_strlit("noise_floor_db");
    reveal_strlit("max_boost_db");
    reveal_strlit("max_cut_db");
    reveal_strlit("output_gain_db");
    reveal_strlit("limiter");
    assert("denoise_enabled"@.len() == 15);
    assert("denoise_reduction_db"@.len() == 20);
    assert("denoise_amount"@.len() == 14);
    assert("denoise_floor_db"@.len() == 16);
    assert("denoise_softness_db"@.len() == 19);
    assert("hpf_enabled"@.len() == 11);
    assert("target_db"@.len() == 9);
    assert("ride_amount"@.len() == 11);
    assert("speed_ms"@.len() == 8);
    assert("noise_floor_db"@.len() == 14);
    assert("max_boost_db"@.len() == 12);
    assert("max_cut_db"@.len() == 10);
    assert("output_gain_db"@.len() == 14);
    assert("limiter"@.len() == 7);
    match k {
        SettingKey::DenoiseEnabled => {
            assert(spec_key_named(spec_key_name(k)) == Some(k));
        },
        SettingKey::DenoiseReductionDb => {
            assert(spec_key_named(spec_key_name(k)) == Some(k));
        },
        SettingKey::DenoiseFloorDb => {
            assert(spec_key_named(spec_key_name(k)) == Some(k));
        },
        SettingKey::DenoiseSoftnessDb => {
            assert(spec_key_named(spec_key_name(k)) == Some(k));
        },
        SettingKey::HpfEnabled => {
            assert(spec_key_named(spec_key_name(k)) == Some(k));
        },
        SettingKey::TargetDb => {
            assert(spec_key_named(spec_key_name(k)) == Some(k));
        },
        SettingKey::RideAmount => {
            assert("ride_amount"@[0] != "hpf_enabled"@[0]);
            assert(spec_key_named(spec_key_name(k)) == Some(k));
        },
        SettingKey::SpeedMs => {
            assert(spec_key_named(spec_key_name(k)) == Some(k));
        },
        SettingKey::NoiseFloorDb => {
            assert("noise_floor_db"@[0] != "denoise_amount"@[0]);
            assert(spec_key_named(spec_key_name(k)) == Some(k));
        },
        SettingKey::MaxBoostDb => {
            assert(spec_key_named(spec_key_name(k)) == Some(k));
        },
        SettingKey::MaxCutDb => {
            assert(spec_key_named(spec_key_name(k)) == Some(k));
        },
        SettingKey::OutputGainDb => {
            assert("output_gain_db"@[0] != "denoise_amount"@[0]);
            assert("output_gain_db"@[0] != "noise_floor_db"@[0]);
            assert(spec_key_named(spec_key_name(k)) == Some(k));
        },
        SettingKey::Limiter => {
            assert(spec_key_named(spec_key_name(k)) == Some(k));
        },
    }
}

/// Every setting's written name reads back as that setting.
pub proof fn law_key_name_reads_back(k: SettingKey)
    ensures
        spec_key_named(spec_key_name(k)) == Some(k),
{
    lemma_key_name_facts(k);
}

/// The line written for an assignment reads back as that assignment.
pub proof fn law_entry_line_reads_back(e: (SettingKey, Seq<char>))
    requires
        spec_writable_value(e.1),
    ensures
        spec_parse_line(spec_entry_line(e)) == Some(e),
{
    let name = spec_key_name(e.0);
    let v = e.1;
    let line = spec_entry_line(e);
    lemma_key_name_facts(e.0);
    reveal_strlit("=");
    assert(line =~= name + (seq!['='] + v));
    assert(line[0] == name[0]);
    if v.len() > 0 {
        assert(line.last() == v.last());
    } else {
        assert(line.last() == '=');
    }
    lemma_trim_unchanged(line);
    lemma_find_after(name, seq!['='] + v, '=');
    assert(spec_find(seq!['='] + v, '=') == Some(0int));
    assert(line.take(name.len() as int) =~= name);
    lemma_trim_unchanged(name);
    assert(line.skip(name.len() as int + 1) =~= v);
}

/// The lines written for a list of assignments.
pub open spec fn spec_written_lines(es: Seq<(SettingKey, Seq<char>)>) -> Seq<Seq<char>> {
    es.map_values(|e: (SettingKey, Seq<char>)| spec_entry_line(e))
}

proof fn lemma_joined_split(es: Seq<(SettingKey, Seq<char>)>)
    requires
        spec_writable(es),
    ensures
        spec_split_lines(spec_joined_lines(es)) == seq![spec_header()] + spec_written_lines(es),
    decreases es.len(),
{
    reveal_strlit("# SimpleVoiceCleaner settings");
    reveal_strlit("=");
    if es.len() == 0 {
        lemma_split_single_line(spec_header());
        assert(seq![spec_header()] + spec_written_lines(es) =~= seq![spec_header()]);
    } else {
        lemma_joined_split(es.drop_last());
        let line = spec_entry_line(es.last());
        lemma_key_name_facts(es.last().0);
        assert(spec_writable(es.drop_last())) by {
            assert forall|i: int| 0 <= i < es.drop_last().len() implies spec_writable_value(
                #[trigger] es.drop_last()[i].1,
            ) by {
                assert(es.drop_last()[i] == es[i]);
            }
        }
        let v = es.last().1;
        assert(spec_writable_value(es[es.len() - 1].1));
        assert(line =~= spec_key_name(es.last().0) + (seq!['='] + v));
        assert forall|i: int| 0 <= i < line.len() implies line[i] != '\n' by {
            if i >= spec_key_name(es.last().0).len() + 1 {
                assert(line[i] == v[i - spec_key_name(es.last().0).len() - 1]);
            }
        }
        lemma_split_single_line(line);
        lemma_split_at_newline(spec_joined_lines(es.drop_last()), line);
        assert(spec_written_lines(es) =~= spec_written_lines(es.drop_last()).push(line));
        assert(spec_split_lines(spec_joined_lines(es)) =~= seq![spec_header()] + spec_written_lines(
            es,
        ));
    }
}


proof fn lemma_writable_prefix(es: Seq<(SettingKey, Seq<char>)>)
    requires
        spec_writable(es),
        es.len() > 0,
    ensures
        spec_writable(es.drop_last()),
        spec_writable_value(es.last().1),
{
    assert forall|i: int| 0 <= i < es.drop_last().len() implies spec_writable_value(
        #[trigger] es.drop_last()[i].1,
    ) by {
        assert(es.drop_last()[i] == es[i]);
    }
    assert(spec_writable_value(es[es.len() - 1].1));
}

proof fn lemma_written_lines_read_back(es: Seq<(SettingKey, Seq<char>)>)
    requires
        spec_writable(es),
    ensures
        spec_entries_of(spec_written_lines(es)) == es,
    decreases es.len(),
{
    if es.len() == 0 {
        assert(spec_written_lines(es) =~= Seq::<Seq<char>>::empty());
        assert(es =~= Seq::<(SettingKey, Seq<char>)>::empty());
    } else {
        lemma_writable_prefix(es);
        lemma_written_lines_read_back(es.drop_last());
        law_entry_line_reads_back(es.last());
        let w = spec_written_lines(es);
        assert(w.drop_last() =~= spec_written_lines(es.drop_last()));
        assert(w.last() == spec_entry_line(es.last()));
        assert(es.drop_last().push(es.last()) =~= es);
    }
}

/// A settings file written from assignments whose values can be written reads
/// back as exactly those assignments, in the same order.
pub proof fn law_written_file_reads_back(es: Seq<(SettingKey, Seq<char>)>)
    requires
        spec_writable(es),
    ensures
        spec_parse_settings(spec_render_settings(es)) == es,
{
    reveal_strlit("# SimpleVoiceCleaner settings");
    let j = spec_joined_lines(es);
    lemma_joined_split(es);
    assert(spec_render_settings(es) =~= j + seq!['\n'] + Seq::<char>::empty());
    lemma_split_at_newline(j, Seq::<char>::empty());
    assert(spec_split_lines(Seq::<char>::empty()) =~= seq![Seq::<char>::empty()]);
    let lines = seq![spec_header()] + spec_written_lines(es) + seq![Seq::<char>::empty()];
    assert(spec_split_lines(spec_render_settings(es)) =~= lines);
    lemma_entries_append(seq![spec_header()] + spec_written_lines(es), seq![Seq::<char>::empty()]);
    lemma_entries_append(seq![spec_header()], spec_written_lines(es));
    lemma_written_lines_read_back(es);
    // The header is a comment and the piece after the final line feed is blank.
    lemma_trim_unchanged(spec_header());
    assert(spec_parse_line(spec_header()) is None);
    assert(seq![spec_header()].drop_last() =~= Seq::<Seq<char>>::empty());
    assert(seq![spec_header()].last() == spec_header());
    assert(spec_entries_of(Seq::<Seq<char>>::empty()) =~= Seq::<(SettingKey, Seq<char>)>::empty());
    assert(spec_entries_of(seq![spec_header()]) =~= Seq::<(SettingKey, Seq<char>)>::empty());
    assert(seq![Seq::<char>::empty()].drop_last() =~= Seq::<Seq<char>>::empty());
    assert(spec_trim(Seq::<char>::empty()) =~= Seq::<char>::empty());
    assert(spec_entries_of(seq![Seq::<char>::empty()]) =~= Seq::<(SettingKey, Seq<char>)>::empty());
    assert(spec_parse_settings(spec_render_settings(es)) =~= es);
}


/// A written on/off value reads back as itself, whatever the fallback.
pub proof fn law_bool_text_reads_back(b: bool, fallback: bool)
    ensures
        spec_parse_bool(spec_bool_text(b), fallback) == b,
{
    reveal_strlit("true");
    reveal_strlit("false");
    reveal_strlit("1");
    reveal_strlit("yes");
    reveal_strlit("on");
    reveal_strlit("0");
    reveal_strlit("no");
    reveal_strlit("off");
    let t = spec_bool_text(b);
    lemma_trim_unchanged(t);
    assert(spec_ascii_lower(t) =~= t);
    if !b {
        assert(t[0] != "true"@[0]);
        assert(t[0] != "1"@[0]);
        assert(t[0] != "yes"@[0]);
        assert(t[0] != "on"@[0]);
    }
}

/// A line that assigns nothing (blank, a comment, without `=`, or with an
/// unknown name) can be added between any two parts of a settings file
/// without changing what the file assigns.
pub proof fn law_line_without_assignment_changes_nothing(
    before: Seq<char>,
    line: Seq<char>,
    after: Seq<char>,
)
    requires
        forall|i: int| 0 <= i < line.len() ==> line[i] != '\n',
        spec_parse_line(line) is None,
    ensures
        spec_parse_settings(before + seq!['\n'] + line + seq!['\n'] + after) == spec_parse_settings(
            before + seq!['\n'] + after,
        ),
{
    let with_line = before + seq!['\n'] + (line + seq!['\n'] + after);
    assert(before + seq!['\n'] + line + seq!['\n'] + after =~= with_line);
    lemma_split_at_newline(before, line + seq!['\n'] + after);
    lemma_split_at_newline(line, after);
    lemma_split_single_line(line);
    lemma_split_at_newline(before, after);
    let sb = spec_split_lines(before);
    let sa = spec_split_lines(after);
    assert(spec_split_lines(with_line) =~= sb + seq![line] + sa);
    lemma_entries_append(sb + seq![line], sa);
    lemma_entries_append(sb, seq![line]);
    lemma_entries_append(sb, sa);
    assert(seq![line].drop_last() =~= Seq::<Seq<char>>::empty());
    assert(seq![line].last() == line);
    assert(spec_entries_of(Seq::<Seq<char>>::empty()) =~= Seq::<(SettingKey, Seq<char>)>::empty());
    assert(spec_entries_of(seq![line]) =~= Seq::<(SettingKey, Seq<char>)>::empty());
    assert(spec_entries_of(sb) + spec_entries_of(seq![line]) =~= spec_entries_of(sb));
}

/// The assignments of `es` carry the switches of `sw`: every assignment to a
/// switch writes that switch's state in `sw`.
pub open spec fn spec_carries_switches(es: Seq<(SettingKey, Seq<char>)>, sw: Switches) -> bool {
    forall|i: int|
        0 <= i < es.len() && spec_is_switch(#[trigger] es[i].0) ==> es[i].1 == spec_bool_text(
            spec_switch_value(sw, es[i].0),
        )
}

/// `es` assigns the setting `k` somewhere.
pub open spec fn spec_assigns(es: Seq<(SettingKey, Seq<char>)>, k: SettingKey) -> bool {
    exists|i: int| 0 <= i < es.len() && #[trigger] es[i].0 == k
}

proof fn lemma_apply_carried_switches(
    es: Seq<(SettingKey, Seq<char>)>,
    sw: Switches,
    base: Switches,
    k: SettingKey,
)
    requires
        spec_carries_switches(es, sw),
        spec_is_switch(k),
    ensures
        spec_switch_value(spec_apply_entries(base, es), k) == if spec_assigns(es, k) {
            spec_switch_value(sw, k)
        } else {
            spec_switch_value(base, k)
        },
    decreases es.len(),
{
    if es.len() > 0 {
        let prev = es.drop_last();
        let e = es.last();
        assert(spec_carries_switches(prev, sw)) by {
            assert forall|i: int| 0 <= i < prev.len() && spec_is_switch(#[trigger] prev[i].0) implies prev[i].1
                == spec_bool_text(spec_switch_value(sw, prev[i].0)) by {
                assert(prev[i] == es[i]);
            }
        }
        lemma_apply_carried_switches(prev, sw, base, k);
        assert(es[es.len() - 1] == e);
        if spec_is_switch(e.0) {
            law_bool_text_reads_back(spec_switch_value(sw, e.0), spec_switch_value(spec_apply_entries(base, prev), e.0));
        }
        if spec_assigns(prev, k) {
            let i = choose|i: int| 0 <= i < prev.len() && #[trigger] prev[i].0 == k;
            assert(es[i] == prev[i]);
        }
        if spec_assigns(es, k) && e.0 != k {
            let i = choose|i: int| 0 <= i < es.len() && #[trigger] es[i].0 == k;
            assert(prev[i] == es[i]);
        }
    }
}

/// Switches written into a settings file (together with any other writable
/// assignments) read back as the same switches, whatever they were before
/// reading, as long as the file assigns each of the three.
pub proof fn law_written_switches_read_back(
    es: Seq<(SettingKey, Seq<char>)>,
    sw: Switches,
    before: Switches,
)
    requires
        spec_writable(es),
        spec_carries_switches(es, sw),
        spec_assigns(es, SettingKey::DenoiseEnabled),
        spec_assigns(es, SettingKey::HpfEnabled),
        spec_assigns(es, SettingKey::Limiter),
    ensures
        spec_apply_entries(before, spec_parse_settings(spec_render_settings(es))) == sw,
{
    law_written_file_reads_back(es);
    lemma_apply_carried_switches(es, sw, before, SettingKey::DenoiseEnabled);
    lemma_apply_carried_switches(es, sw, before, SettingKey::HpfEnabled);
    lemma_apply_carried_switches(es, sw, before, SettingKey::Limiter);
}


/// Every character of `w` is whitespace.
pub open spec fn spec_all_whitespace(w: Seq<char>) -> bool {
    forall|i: int| 0 <= i < w.len() ==> spec_is_whitespace(#[trigger] w[i])
}

/// A settings file whose whole text is one line (with or without a final
/// line feed after it) assigns exactly what that line assigns.
pub proof fn law_single_line_file(line: Seq<char>)
    requires
        forall|i: int| 0 <= i < line.len() ==> line[i] != '\n',
    ensures
        spec_parse_settings(line) == match spec_parse_line(line) {
            Some(e) => seq![e],
            None => Seq::<(SettingKey, Seq<char>)>::empty(),
        },
        spec_parse_settings(line.push('\n')) == spec_parse_settings(line),
{
    lemma_split_single_line(line);
    assert(seq![line].drop_last() =~= Seq::<Seq<char>>::empty());
    assert(seq![line].last() == line);
    assert(spec_entries_of(Seq::<Seq<char>>::empty()) =~= Seq::<(SettingKey, Seq<char>)>::empty());
    match spec_parse_line(line) {
        Some(e) => {
            assert(spec_entries_of(seq![line]) =~= seq![e]);
        },
        None => {
            assert(spec_entries_of(seq![line]) =~= Seq::<(SettingKey, Seq<char>)>::empty());
        },
    }
    lemma_split_at_newline(line, Seq::<char>::empty());
    assert(line.push('\n') =~= line + seq!['\n'] + Seq::<char>::empty());
    assert(spec_split_lines(Seq::<char>::empty()) =~= seq![Seq::<char>::empty()]);
    lemma_entries_append(seq![line], seq![Seq::<char>::empty()]);
    assert(seq![Seq::<char>::empty()].drop_last() =~= Seq::<Seq<char>>::empty());
    assert(seq![Seq::<char>::empty()].last() == Seq::<char>::empty());
    assert(spec_trim(Seq::<char>::empty()) =~= Seq::<char>::empty());
    assert(spec_entries_of(seq![Seq::<char>::empty()]) =~= Seq::<(SettingKey, Seq<char>)>::empty());
    assert(spec_entries_of(seq![line]) + Seq::<(SettingKey, Seq<char>)>::empty() =~= spec_entries_of(
        seq![line],
    ));
    assert(seq![line] + seq![Seq::<char>::empty()] =~= spec_split_lines(line) + spec_split_lines(
        Seq::<char>::empty(),
    ));
}

proof fn lemma_trim_start_white_prefix(w: Seq<char>, x: Seq<char>)
    requires
        spec_all_whitespace(w),
    ensures
        spec_trim_start(w + x) == spec_trim_start(x),
    decreases w.len(),
{
    if w.len() == 0 {
        assert(w + x =~= x);
    } else {
        assert((w + x)[0] == w[0]);
        assert((w + x).drop_first() =~= w.drop_first() + x);
        assert(spec_all_whitespace(w.drop_first())) by {
            assert forall|i: int| 0 <= i < w.drop_first().len() implies spec_is_whitespace(
                #[trigger] w.drop_first()[i],
            ) by {
                assert(w.drop_first()[i] == w[i + 1]);
            }
        }
        lemma_trim_start_white_prefix(w.drop_first(), x);
    }
}

proof fn lemma_trim_end_white_suffix(x: Seq<char>, w: Seq<char>)
    requires
        spec_all_whitespace(w),
    ensures
        spec_trim_end(x + w) == spec_trim_end(x),
    decreases w.len(),
{
    if w.len() == 0 {
        assert(x + w =~= x);
    } else {
        assert((x + w).last() == w.last());
        assert(spec_is_whitespace(w[w.len() - 1]));
        assert((x + w).drop_last() =~= x + w.drop_last());
        assert(spec_all_whitespace(w.drop_last())) by {
            assert forall|i: int| 0 <= i < w.drop_last().len() implies spec_is_whitespace(
                #[trigger] w.drop_last()[i],
            ) by {
                assert(w.drop_last()[i] == w[i]);
            }
        }
        lemma_trim_end_white_suffix(x, w.drop_last());
    }
}

/// Whitespace around a setting's name does not change what a line assigns:
/// the line `a name b = v`, with `a` and `b` any runs of whitespace, assigns
/// `v` to the named setting.
pub proof fn law_name_padding_ignored(k: SettingKey, a: Seq<char>, b: Seq<char>, v: Seq<char>)
    requires
        spec_all_whitespace(a),
        spec_all_whitespace(b),
        spec_writable_value(v),
    ensures
        spec_parse_line(a + spec_key_name(k) + b + seq!['='] + v) == Some((k, v)),
{
    let n = spec_key_name(k);
    lemma_key_name_facts(k);
    let x = n + b + (seq!['='] + v);
    let line = a + n + b + seq!['='] + v;
    assert(line =~= a + x);
    lemma_trim_start_white_prefix(a, x);
    assert(x[0] == n[0]);
    assert(spec_trim_start(x) == x);
    if v.len() > 0 {
        assert(x.last() == v.last());
    } else {
        assert(x.last() == '=');
    }
    assert(spec_trim_end(x) == x);
    assert(spec_trim(line) == x);
    assert forall|i: int| 0 <= i < (n + b).len() implies (n + b)[i] != '=' by {
        if i >= n.len() {
            assert((n + b)[i] == b[i - n.len()]);
            assert(spec_is_whitespace(b[i - n.len()]));
        }
    }
    lemma_find_after(n + b, seq!['='] + v, '=');
    assert(x =~= (n + b) + (seq!['='] + v));
    assert(spec_find(seq!['='] + v, '=') == Some(0int));
    let i = (n + b).len() as int;
    assert(x.take(i) =~= n + b);
    lemma_trim_end_white_suffix(n, b);
    assert((n + b)[0] == n[0]);
    assert(spec_trim_start(n + b) == n + b);
    assert(spec_trim_end(n) == n);
    assert(x.skip(i + 1) =~= v);
}

proof fn lemma_trim_ignores_trailing_white(v: Seq<char>, w: Seq<char>)
    requires
        spec_all_whitespace(w),
    ensures
        spec_trim_end(spec_trim_start(v + w)) == spec_trim_end(spec_trim_start(v)),
    decreases v.len(),
{
    if v.len() == 0 {
        assert(v + w =~= w);
        lemma_trim_start_white_prefix(w, Seq::<char>::empty());
        assert(w + Seq::<char>::empty() =~= w);
    } else if spec_is_whitespace(v[0]) {
        assert((v + w)[0] == v[0]);
        assert((v + w).drop_first() =~= v.drop_first() + w);
        lemma_trim_ignores_trailing_white(v.drop_first(), w);
    } else {
        assert((v + w)[0] == v[0]);
        lemma_trim_end_white_suffix(v, w);
    }
}

/// Whitespace around an on/off value does not change how it reads.
pub proof fn law_bool_padding_ignored(a: Seq<char>, v: Seq<char>, b: Seq<char>, fallback: bool)
    requires
        spec_all_whitespace(a),
        spec_all_whitespace(b),
    ensures
        spec_parse_bool(a + v + b, fallback) == spec_parse_bool(v, fallback),
{
    assert(a + v + b =~= a + (v + b));
    lemma_trim_start_white_prefix(a, v + b);
    lemma_trim_ignores_trailing_white(v, b);
    assert(spec_trim(a + v + b) == spec_trim(v));
}

proof fn lemma_lower_char(c: char)
    ensures
        spec_is_whitespace(spec_ascii_lower_char(c)) == spec_is_whitespace(c),
        spec_ascii_lower_char(spec_ascii_lower_char(c)) == spec_ascii_lower_char(c),
{
}

proof fn lemma_lower_trim_start(s: Seq<char>)
    ensures
        spec_trim_start(spec_ascii_lower(s)) == spec_ascii_lower(spec_trim_start(s)),
    decreases s.len(),
{
    if s.len() > 0 {
        lemma_lower_char(s[0]);
        assert(spec_ascii_lower(s).drop_first() =~= spec_ascii_lower(s.drop_first()));
        lemma_lower_trim_start(s.drop_first());
    }
}

proof fn lemma_lower_trim_end(s: Seq<char>)
    ensures
        spec_trim_end(spec_ascii_lower(s)) == spec_ascii_lower(spec_trim_end(s)),
    decreases s.len(),
{
    if s.len() > 0 {
        lemma_lower_char(s.last());
        assert(spec_ascii_lower(s).last() == spec_ascii_lower_char(s.last()));
        assert(spec_ascii_lower(s).drop_last() =~= spec_ascii_lower(s.drop_last()));
        lemma_lower_trim_end(s.drop_last());
    }
}

/// Reading an on/off value ignores ASCII case: a value reads as its
/// lower-cased form does.
pub proof fn law_bool_ignores_case(v: Seq<char>, fallback: bool)
    ensures
        spec_parse_bool(v, fallback) == spec_parse_bool(spec_ascii_lower(v), fallback),
{
    lemma_lower_trim_start(v);
    lemma_lower_trim_end(spec_trim_start(v));
    let t = spec_trim(v);
    assert(spec_trim(spec_ascii_lower(v)) == spec_ascii_lower(t));
    assert forall|i: int| 0 <= i < t.len() implies spec_ascii_lower(spec_ascii_lower(t))[i]
        == spec_ascii_lower(t)[i] by {
        lemma_lower_char(t[i]);
    }
    assert(spec_ascii_lower(spec_ascii_lower(t)) =~= spec_ascii_lower(t));
}

/// An assignment to a switch sets that switch to what its value reads as,
/// with the switch's state before the assignment as the fallback.
pub proof fn law_switch_assignment(
    sw: Switches,
    es: Seq<(SettingKey, Seq<char>)>,
    k: SettingKey,
    v: Seq<char>,
)
    requires
        spec_is_switch(k),
    ensures
        spec_switch_value(spec_apply_entries(sw, es.push((k, v))), k) == spec_parse_bool(
            v,
            spec_switch_value(spec_apply_entries(sw, es), k),
        ),
{
    assert(es.push((k, v)).drop_last() =~= es);
    assert(es.push((k, v)).last() == (k, v));
}

/// An assignment changes no setting but its own, and an assignment whose
/// value reads as neither on nor off changes nothing at all.
pub proof fn law_assignment_is_local(sw: Switches, k: SettingKey, v: Seq<char>)
    ensures
        forall|j: SettingKey|
            spec_is_switch(j) && j != k ==> spec_switch_value(spec_apply_entry(sw, (k, v)), j)
                == spec_switch_value(sw, j),
        spec_parse_bool(v, true) != spec_parse_bool(v, false) ==> spec_apply_entry(sw, (k, v))
            == sw,
        !spec_is_switch(k) ==> spec_apply_entry(sw, (k, v)) == sw,
{
}

} // verus!
