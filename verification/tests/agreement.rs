use vx::source::plan::{parse_template_version_revision_str, unquote};
use vx::xbps::parse::{parse_xbps_sun_plan, strip_ansi};
use vx::xbps::query::{load_installed_pkgver_map, pkgname_from_pkgver, InstalledIndex};

/// A small generator of repeatable inputs.
struct Gen(u64);

impl Gen {
    fn next(&mut self) -> u64 {
        self.0 = self.0.wrapping_mul(6364136223846793005).wrapping_add(1442695040888963407);
        self.0 >> 33
    }

    fn text(&mut self, alphabet: &[&str], max: u64) -> String {
        let n = self.next() % (max + 1);
        let mut s = String::new();
        for _ in 0..n {
            s.push_str(alphabet[(self.next() % alphabet.len() as u64) as usize]);
        }
        s
    }
}

fn std_strip_ansi(s: &str) -> String {
    let cs: Vec<char> = s.chars().collect();
    let mut out = String::new();
    let mut i = 0;
    while i < cs.len() {
        if cs[i] == '\x1b' && i + 1 < cs.len() && cs[i + 1] == '[' {
            i += 2;
            while i < cs.len() {
                i += 1;
                if cs[i - 1].is_ascii_alphabetic() {
                    break;
                }
            }
        } else {
            out.push(cs[i]);
            i += 1;
        }
    }
    out
}

#[test]
fn strip_ansi_agrees_on_generated_texts() {
    let mut g = Gen(1);
    let alphabet = ["\x1b", "[", "m", "1", ";", "a", " ", "\n", "\x1b[", "\x1b[0m", "Z", "é"];
    for _ in 0..2000 {
        let s = g.text(&alphabet, 12);
        assert_eq!(strip_ansi(&s), std_strip_ansi(&s), "input {s:?}");
    }
}

fn std_pkgname(pkgver: &str) -> Option<String> {
    let (name, version) = pkgver.rsplit_once('-')?;
    if version.starts_with(|c: char| c.is_ascii_digit()) {
        Some(name.to_string())
    } else {
        None
    }
}

#[test]
fn pkgname_agrees_on_generated_tokens() {
    let mut g = Gen(2);
    let alphabet = ["-", "a", "1", "_", ".", "foo", "-2", "٣", "bar-"];
    for _ in 0..2000 {
        let s = g.text(&alphabet, 8);
        assert_eq!(pkgname_from_pkgver(&s), std_pkgname(&s), "input {s:?}");
    }
}

fn std_unquote(s: &str) -> String {
    let t = s.trim();
    for q in ['"', '\''] {
        if t.len() >= 2 && t.starts_with(q) && t.ends_with(q) {
            return t[1..t.len() - 1].to_string();
        }
    }
    t.to_string()
}

#[test]
fn unquote_agrees_on_generated_values() {
    let mut g = Gen(3);
    let alphabet = ["\"", "'", " ", "a", "1.2", "\t", "é"];
    for _ in 0..2000 {
        let s = g.text(&alphabet, 7);
        assert_eq!(unquote(&s), std_unquote(&s), "input {s:?}");
    }
}

fn std_template(text: &str) -> Option<(String, String)> {
    let mut version = None;
    let mut revision = None;
    for line in text.lines().map(str::trim) {
        if version.is_some() && revision.is_some() {
            break;
        }
        if line.is_empty() || line.starts_with('#') {
            continue;
        }
        if let Some(v) = line.strip_prefix("version=") {
            version = Some(std_unquote(v));
        } else if let Some(r) = line.strip_prefix("revision=") {
            revision = Some(std_unquote(r));
        }
    }
    version.map(|v| (v, revision.unwrap_or_else(|| "1".to_string())))
}

#[test]
fn template_agrees_on_generated_definitions() {
    let mut g = Gen(4);
    let alphabet = [
        "version=", "revision=", "\n", "#", " ", "\"", "1.0", "2", "pkgname=foo", "'", "\r\n", "=",
    ];
    for _ in 0..3000 {
        let s = g.text(&alphabet, 14);
        assert_eq!(parse_template_version_revision_str(&s).ok(), std_template(&s), "input {s:?}");
    }
}

fn std_index(list: &str) -> Vec<(String, String)> {
    let mut map = std::collections::BTreeMap::new();
    for line in list.lines() {
        let mut it = line.split_whitespace();
        if it.next() != Some("ii") {
            continue;
        }
        if let Some(pkgver) = it.next() {
            if let Some(name) = std_pkgname(pkgver) {
                map.insert(name, pkgver.to_string());
            }
        }
    }
    map.into_iter().collect()
}

#[test]
fn index_agrees_on_generated_lists() {
    let mut g = Gen(5);
    let alphabet = ["ii", " ", "\n", "foo-1_1", "foo-2_1", "bar-0.1_3", "uu", "x", "-", "\t", "a-b-3_1"];
    for _ in 0..2000 {
        let s = g.text(&alphabet, 14);
        let index = load_installed_pkgver_map(&s);
        let expected = std_index(&s);
        for (name, pkgver) in &expected {
            assert_eq!(index.get(name), Some(pkgver.clone()), "input {s:?}");
        }
        for name in ["foo", "bar", "a-b", "x", ""] {
            if !expected.iter().any(|(n, _)| n == name) {
                assert_eq!(index.get(name), None, "input {s:?}");
            }
        }
    }
}

/// The rows of a preview, read in the plainest way: in order, before merging.
fn std_rows(text: &str, installed: &[(&str, &str)]) -> Vec<(String, String, String)> {
    let is_action = |a: &str| matches!(a, "update" | "install" | "reinstall" | "downgrade");
    let chatter = [
        "[*]", "=>", "xbps-install:", "Size to download:", "Size required on disk:",
        "Space available on disk:", "Do you want to continue?", "Aborting!",
    ];
    let mut rows = Vec::new();
    let (mut in_table, mut saw_row) = (false, false);
    for line in text.lines().map(str::trim) {
        if line.is_empty() {
            if !(in_table && !saw_row) {
                in_table = false;
                saw_row = false;
            }
        } else if chatter.iter().any(|c| line.starts_with(c)) {
        } else if line.starts_with("Name")
            && line.contains("Action")
            && (line.contains("Version") || line.contains("Current"))
            && line.contains("New")
        {
            in_table = true;
            saw_row = false;
        } else {
            let cols: Vec<&str> = line.split_whitespace().collect();
            if in_table {
                if cols.len() >= 4 && is_action(cols[1]) {
                    let name = cols[0];
                    rows.push((name.to_string(), format!("{name}-{}", cols[2]), format!("{name}-{}", cols[3])));
                    saw_row = true;
                }
            } else if cols.len() >= 2 && is_action(cols[1]) {
                if let Some(name) = std_pkgname(cols[0]) {
                    let from = installed
                        .iter()
                        .rev()
                        .find(|(n, _)| *n == name)
                        .map(|(_, v)| v.to_string())
                        .unwrap_or_else(|| "<not installed>".to_string());
                    rows.push((name, from, cols[0].to_string()));
                }
            }
        }
    }
    rows
}

fn std_plan(text: &str, installed: &[(&str, &str)]) -> Option<Vec<(String, String, String)>> {
    let clean = std_strip_ansi(text);
    let rows = std_rows(&clean, installed);
    let tabular = clean.contains("Name")
        && clean.contains("Action")
        && (clean.contains("Version") || clean.contains("Current"))
        && clean.contains("New");
    if rows.is_empty() && tabular {
        return None;
    }
    let mut by_name = std::collections::BTreeMap::new();
    for (name, from, to) in rows {
        by_name.insert(name, (from, to));
    }
    Some(by_name.into_iter().map(|(n, (f, t))| (n, f, t)).collect())
}

#[test]
fn plan_agrees_on_generated_previews() {
    let mut g = Gen(6);
    let alphabet = [
        "Name Action Version New version\n", "Name Action Current New\n", "\n", "\n", " ", "foo ",
        "bar ", "update ", "install ", "hold ", "1_1 ", "2_1 ", "foo-1_1 ", "bar-baz-2_1 ",
        "[*] sync\n", "=> x\n", "Aborting!\n", "\x1b[1m", "\x1b[0m", "Size to download: 3KB\n",
        "Name ", "Action Version New ", "x86_64\n", "foo update 1_1 2_1\n", "zsh install 0 5.9_1 1MB\n",
        "foo-3_1 update x86_64 repo\n", "bar-baz-2_1 install\n",
    ];
    let installed = [("foo", "foo-0_1"), ("bar-baz", "bar-baz-1_1"), ("foo", "foo-0_2")];
    let mut index = InstalledIndex::new();
    for (n, v) in installed {
        index.insert(n.to_string(), v.to_string());
    }
    let mut seen_ok = 0;
    let mut seen_err = 0;
    for _ in 0..4000 {
        let s = g.text(&alphabet, 16);
        let got = parse_xbps_sun_plan(&s, &index)
            .ok()
            .map(|p| p.into_iter().map(|u| (u.name, u.from, u.to)).collect::<Vec<_>>());
        let expected = std_plan(&s, &installed);
        if expected.as_ref().map(|p| !p.is_empty()).unwrap_or(false) {
            seen_ok += 1;
        }
        if expected.is_none() {
            seen_err += 1;
        }
        assert_eq!(got, expected, "input {s:?}");
    }
    assert!(seen_ok > 100, "only {seen_ok} previews gave a plan");
    assert!(seen_err > 100, "only {seen_err} previews were refused");
}
