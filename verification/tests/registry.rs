use geode_cli_installer::registry::{
    add_dll_entry_to_section, add_dll_overrides_section, ensure_dll_override, ensure_dll_override_at,
    hex_timestamp, registry_file,
};

const SECTION: &str = "[Software\\\\Wine\\\\DllOverrides]";
const ENTRY: &str = "\"xinput1_4\"=\"native,builtin\"";

fn chars(s: &str) -> Vec<char> {
    s.chars().collect()
}

fn text(v: &[char]) -> String {
    v.iter().collect()
}

#[test]
fn section_is_added_where_missing() {
    let mut content = String::from("WINE REGISTRY Version 2\n[Software\\\\Wine] 1\n\"a\"=\"b\"\n");
    ensure_dll_override_at(&mut content, 1700000000);
    assert_eq!(
        content,
        "WINE REGISTRY Version 2\n[Software\\\\Wine] 1\n\"a\"=\"b\"\n\n\n[Software\\\\Wine\\\\DllOverrides] 1700000000\n#time=6553f100\n\"xinput1_4\"=\"native,builtin\"\n"
    );
}

#[test]
fn section_is_added_to_empty_file() {
    let mut content = String::new();
    ensure_dll_override_at(&mut content, 0);
    assert_eq!(content, format!("\n\n{} 0\n#time=0\n{}\n", SECTION, ENTRY));
}

#[test]
fn entry_goes_before_next_section() {
    let before = format!("[A] 1\n\"x\"=\"y\"\n\n{} 5\n#time=5\n\"d3d9\"=\"native\"\n", SECTION);
    let after = "\n[Z] 2\n\"k\"=\"v\"\n";
    let mut content = format!("{}{}", before, after);
    ensure_dll_override_at(&mut content, 99);
    assert_eq!(content, format!("{}{}\n{}", before, ENTRY, after));
}

#[test]
fn entry_goes_to_end_where_section_is_last() {
    let untouched = format!("[A] 1\n\n{} 5\n\"d3d9\"=\"native\"", SECTION);
    let mut content = untouched.clone();
    ensure_dll_override_at(&mut content, 99);
    assert_eq!(content, format!("{}\n{}\n", untouched, ENTRY));
}

#[test]
fn entry_gets_its_own_line_right_after_the_header() {
    let mut content = format!("{}\n[Z]\n", SECTION);
    ensure_dll_override_at(&mut content, 1);
    assert_eq!(content, format!("{}\n{}\n[Z]\n", SECTION, ENTRY));
}

#[test]
fn entry_gets_its_own_line_without_a_blank_line_before_the_next_section() {
    let mut content = format!("{} 1\n\"A\"=\"0\"\n[Z] 2\n\"k\"=\"v\"\n", SECTION);
    ensure_dll_override_at(&mut content, 1);
    assert_eq!(
        content,
        format!("{} 1\n\"A\"=\"0\"\n{}\n[Z] 2\n\"k\"=\"v\"\n", SECTION, ENTRY)
    );
}

#[test]
fn no_line_is_altered_by_the_insertion() {
    let texts = [
        format!("{} 1\n\"A\"=\"0\"\n[Z] 2\n", SECTION),
        format!("{} 1\n\"A\"=\"0\"\n\n[Z] 2\n", SECTION),
        format!("[Y]\nq\n{}\n[Z]", SECTION),
        format!("{} 1\n\"A\"=\"0\"", SECTION),
        format!("{} 1\n\"A\"=\"0\"\n", SECTION),
        format!("{}", SECTION),
    ];
    for text in texts {
        let mut content = text.clone();
        ensure_dll_override_at(&mut content, 1);
        let kept: Vec<&str> = content.lines().filter(|line| *line != ENTRY).collect();
        let before: Vec<&str> = text.lines().collect();
        let without_added_blank: Vec<&str> = if kept.len() > before.len() {
            let mut lines = kept.clone();
            let at = lines.iter().rposition(|line| line.is_empty()).unwrap();
            lines.remove(at);
            lines
        } else {
            kept.clone()
        };
        assert_eq!(without_added_blank, before, "{:?}", text);
        assert_eq!(content.lines().filter(|line| *line == ENTRY).count(), 1, "{:?}", text);
        assert!(content.len() <= text.len() + ENTRY.len() + 2);
    }
}

#[test]
fn first_section_header_counts() {
    let mut content = format!("{} 1\n\n[M]\n{} 2\n", SECTION, SECTION);
    ensure_dll_override_at(&mut content, 1);
    assert_eq!(content, format!("{} 1\n{}\n\n[M]\n{} 2\n", SECTION, ENTRY, SECTION));
}

#[test]
fn present_marker_changes_nothing() {
    let untouched = format!("{} 5\n\"xinput1_4\"=\"builtin\"\n\n[Z]\n", SECTION);
    let mut content = untouched.clone();
    ensure_dll_override_at(&mut content, 7);
    assert_eq!(content, untouched);
    let mut elsewhere = String::from("[Other]\n\"xinput1_4\"=\"x\"\n");
    ensure_dll_override_at(&mut elsewhere, 7);
    assert_eq!(elsewhere, "[Other]\n\"xinput1_4\"=\"x\"\n");
}

#[test]
fn second_run_is_byte_identical() {
    let starts = [
        String::new(),
        String::from("[A]\n"),
        format!("{} 5\n\"d3d9\"=\"native\"\n\n[Z] 2\n", SECTION),
        format!("{}", SECTION),
    ];
    for start in starts {
        let mut once = start.clone();
        ensure_dll_override_at(&mut once, 1700000000);
        let mut twice = once.clone();
        ensure_dll_override_at(&mut twice, 1800000000);
        assert_eq!(once, twice);
        assert!(once.contains("\"xinput1_4\"="));
    }
}

#[test]
fn clock_version_is_idempotent_too() {
    let mut content = String::from("[A]\n");
    ensure_dll_override(&mut content);
    assert!(content.starts_with("[A]\n\n\n[Software\\\\Wine\\\\DllOverrides] "));
    assert!(content.ends_with("\n\"xinput1_4\"=\"native,builtin\"\n"));
    assert!(content.contains("\n#time="));
    let once = content.clone();
    ensure_dll_override(&mut content);
    assert_eq!(content, once);
}

#[test]
fn clock_version_inserts_into_section() {
    let mut content = format!("{} 5\n\n[Z]\n", SECTION);
    ensure_dll_override(&mut content);
    assert_eq!(content, format!("{} 5\n{}\n\n[Z]\n", SECTION, ENTRY));
}

#[test]
fn unicode_content_is_kept() {
    let mut content = format!("[Ä] 1\n\"ключ\"=\"値\"\n\n{} 5\n\n[Ö]\n\"é\"=\"ü\"\n", SECTION);
    ensure_dll_override_at(&mut content, 1);
    assert_eq!(
        content,
        format!("[Ä] 1\n\"ключ\"=\"値\"\n\n{} 5\n{}\n\n[Ö]\n\"é\"=\"ü\"\n", SECTION, ENTRY)
    );
}

#[test]
fn building_blocks() {
    assert_eq!(
        text(&add_dll_overrides_section(&chars("x"), 255)),
        format!("x\n\n{} 255\n#time=ff\n{}\n", SECTION, ENTRY)
    );
    let content = chars(&format!("ab{}cd\n[N]", SECTION));
    assert_eq!(
        text(&add_dll_entry_to_section(&content)),
        format!("ab{}cd\n{}\n[N]", SECTION, ENTRY)
    );
    assert_eq!(text(&add_dll_entry_to_section(&chars("no section\n[N]"))), "no section\n[N]");
    assert_eq!(hex_timestamp(1700000000), "6553f100");
    assert_eq!(hex_timestamp(0), "0");
    assert_eq!(registry_file("/pfx"), "/pfx/user.reg");
}
