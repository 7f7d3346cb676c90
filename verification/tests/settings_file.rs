use simple_voice_cleaner::settings::{
    apply_switches, bool_text, parse_bool, parse_line, parse_settings, render_settings, Entry,
    SettingKey, Switches,
};

fn chars(s: &str) -> Vec<char> {
    s.chars().collect()
}

fn text(v: &[char]) -> String {
    v.iter().collect()
}

fn entry(key: SettingKey, value: &str) -> Entry {
    Entry { key, value: chars(value) }
}

fn pairs(entries: &[Entry]) -> Vec<(SettingKey, String)> {
    entries.iter().map(|e| (e.key, text(&e.value))).collect()
}

#[test]
fn parse_bool_accepts_every_spelling() {
    for v in ["true", "1", "yes", "on", "TRUE", "Yes", "  On  ", "\tyEs\n"] {
        assert!(parse_bool(&chars(v), false), "{v:?}");
    }
    for v in ["false", "0", "no", "off", "FALSE", " No ", "OFF\r"] {
        assert!(!parse_bool(&chars(v), true), "{v:?}");
    }
}

#[test]
fn parse_bool_keeps_fallback_on_anything_else() {
    for v in ["", "  ", "maybe", "2", "y", "n", "tru e", "enabled", "\u{a0}"] {
        assert!(parse_bool(&chars(v), true), "{v:?}");
        assert!(!parse_bool(&chars(v), false), "{v:?}");
    }
}

#[test]
fn parse_bool_trims_unicode_whitespace() {
    assert!(parse_bool(&chars("\u{a0}\u{3000}yes\u{2028}"), false));
    assert!(!parse_bool(&chars("\u{2003}off\u{85}"), true));
}

#[test]
fn bool_text_reads_back() {
    assert_eq!(bool_text(true), "true");
    assert_eq!(bool_text(false), "false");
    for b in [true, false] {
        for f in [true, false] {
            assert_eq!(parse_bool(&chars(bool_text(b)), f), b);
        }
    }
}

#[test]
fn key_names_read_back() {
    let order = SettingKey::file_order();
    assert_eq!(order.len(), 13);
    for k in order {
        assert_eq!(SettingKey::from_name(&chars(k.name())), Some(k));
    }
}

#[test]
fn key_names_and_alias() {
    assert_eq!(SettingKey::from_name(&chars("denoise_amount")), Some(SettingKey::DenoiseReductionDb));
    assert_eq!(SettingKey::from_name(&chars("denoise_reduction_db")), Some(SettingKey::DenoiseReductionDb));
    assert_eq!(SettingKey::from_name(&chars("speed_ms")), Some(SettingKey::SpeedMs));
    assert_eq!(SettingKey::from_name(&chars("Limiter")), None);
    assert_eq!(SettingKey::from_name(&chars(" limiter")), None);
    assert_eq!(SettingKey::from_name(&chars("")), None);
    assert_eq!(SettingKey::DenoiseFloorDb.name(), "denoise_floor_db");
    assert_eq!(SettingKey::OutputGainDb.name(), "output_gain_db");
}

#[test]
fn file_order_is_the_written_order() {
    let names: Vec<&str> = SettingKey::file_order().into_iter().map(|k| k.name()).collect();
    assert_eq!(
        names,
        vec![
            "denoise_enabled",
            "denoise_reduction_db",
            "denoise_floor_db",
            "denoise_softness_db",
            "hpf_enabled",
            "target_db",
            "ride_amount",
            "speed_ms",
            "noise_floor_db",
            "max_boost_db",
            "max_cut_db",
            "output_gain_db",
            "limiter",
        ]
    );
}

#[test]
fn switches_are_the_three_on_off_settings() {
    let switches: Vec<SettingKey> =
        SettingKey::file_order().into_iter().filter(|k| k.is_switch()).collect();
    assert_eq!(switches, vec![SettingKey::DenoiseEnabled, SettingKey::HpfEnabled, SettingKey::Limiter]);
}

#[test]
fn parse_line_cases() {
    let e = parse_line(&chars("  target_db = -20.5  ")).unwrap();
    assert_eq!(e.key, SettingKey::TargetDb);
    assert_eq!(text(&e.value), " -20.5");
    let e = parse_line(&chars("denoise_amount=80")).unwrap();
    assert_eq!(e.key, SettingKey::DenoiseReductionDb);
    assert_eq!(text(&e.value), "80");
    let e = parse_line(&chars("limiter=a=b")).unwrap();
    assert_eq!(text(&e.value), "a=b");
    let e = parse_line(&chars("limiter=")).unwrap();
    assert_eq!(text(&e.value), "");
    assert!(parse_line(&chars("")).is_none());
    assert!(parse_line(&chars("   \t ")).is_none());
    assert!(parse_line(&chars("# limiter=true")).is_none());
    assert!(parse_line(&chars("   #target_db=1")).is_none());
    assert!(parse_line(&chars("limiter true")).is_none());
    assert!(parse_line(&chars("volume=3")).is_none());
    assert!(parse_line(&chars("=3")).is_none());
}

#[test]
fn parse_settings_in_file_order() {
    let content = "# SimpleVoiceCleaner settings\r\n\
                   denoise_enabled=false\r\n\
                   \r\n\
                   unknown=1\n\
                   speed_ms = 700\n\
                   no equals sign here\n\
                   limiter=off";
    let es = parse_settings(content);
    assert_eq!(
        pairs(&es),
        vec![
            (SettingKey::DenoiseEnabled, "false".to_string()),
            (SettingKey::SpeedMs, " 700".to_string()),
            (SettingKey::Limiter, "off".to_string()),
        ]
    );
}

#[test]
fn parse_settings_empty_and_blank() {
    assert!(parse_settings("").is_empty());
    assert!(parse_settings("\n\n   \n# only a comment\n").is_empty());
}

#[test]
fn parse_settings_keeps_repeated_keys() {
    let es = parse_settings("max_cut_db=3\nmax_cut_db=4\n");
    assert_eq!(
        pairs(&es),
        vec![(SettingKey::MaxCutDb, "3".to_string()), (SettingKey::MaxCutDb, "4".to_string())]
    );
}

#[test]
fn switches_default_all_on() {
    let sw = Switches::default();
    assert!(sw.denoise_enabled && sw.hpf_enabled && sw.limiter);
}

#[test]
fn apply_switches_last_valid_value_wins() {
    let es = parse_settings(
        "denoise_enabled=no\nhpf_enabled=0\nhpf_enabled=garbage\nlimiter=off\nlimiter=ON\ntarget_db=off\n",
    );
    let sw = apply_switches(&es, Switches::default());
    assert_eq!(sw, Switches { denoise_enabled: false, hpf_enabled: false, limiter: true });
}

#[test]
fn apply_switches_unassigned_keep_base() {
    let base = Switches { denoise_enabled: false, hpf_enabled: true, limiter: false };
    let sw = apply_switches(&parse_settings("speed_ms=100\n"), base);
    assert_eq!(sw, base);
}

#[test]
fn render_settings_exact_text() {
    let es = vec![entry(SettingKey::DenoiseEnabled, "true"), entry(SettingKey::TargetDb, "-18")];
    assert_eq!(
        text(&render_settings(&es)),
        "# SimpleVoiceCleaner settings\ndenoise_enabled=true\ntarget_db=-18\n"
    );
    assert_eq!(text(&render_settings(&[])), "# SimpleVoiceCleaner settings\n");
}

#[test]
fn written_file_reads_back() {
    let values = [
        "false", "100", "-55", "12", "true", "-18", "70", "500", "-50", "6", "9", "0", "true",
    ];
    let es: Vec<Entry> = SettingKey::file_order()
        .into_iter()
        .zip(values)
        .map(|(k, v)| entry(k, v))
        .collect();
    let written = text(&render_settings(&es));
    let read = parse_settings(&written);
    assert_eq!(pairs(&read), pairs(&es));
}

#[test]
fn written_switches_read_back() {
    for bits in 0..8u8 {
        let sw = Switches { denoise_enabled: bits & 1 != 0, hpf_enabled: bits & 2 != 0, limiter: bits & 4 != 0 };
        let es: Vec<Entry> = SettingKey::file_order()
            .into_iter()
            .map(|k| match k {
                SettingKey::DenoiseEnabled => entry(k, bool_text(sw.denoise_enabled)),
                SettingKey::HpfEnabled => entry(k, bool_text(sw.hpf_enabled)),
                SettingKey::Limiter => entry(k, bool_text(sw.limiter)),
                _ => entry(k, "1.5"),
            })
            .collect();
        let read = parse_settings(&text(&render_settings(&es)));
        let before = Switches { denoise_enabled: !sw.denoise_enabled, hpf_enabled: !sw.hpf_enabled, limiter: !sw.limiter };
        assert_eq!(apply_switches(&read, before), sw);
    }
}

#[test]
fn line_without_assignment_changes_nothing() {
    let a = "limiter=off\ntarget_db=-20";
    let b = "hpf_enabled=no";
    for junk in ["", "# comment", "nothing", "volume=11", "   "] {
        let with = format!("{a}\n{junk}\n{b}");
        let without = format!("{a}\n{b}");
        assert_eq!(pairs(&parse_settings(&with)), pairs(&parse_settings(&without)));
    }
}
