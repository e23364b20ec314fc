//! The library's text functions against the standard library's, on many
//! generated inputs.

use releasor2000::paths::join_path;
use releasor2000::platform::{needs_cross_linker, parse_host_target, parse_installed_targets};
use releasor2000::publish::{checksum_of, to_pascal_case, upload_target};
use releasor2000::template::substitute;
use releasor2000::text::{replace, split_words, string_of, to_chars, trimmed};
use releasor2000::version::normalize_version;

/// A small deterministic generator.
struct Gen(u64);

impl Gen {
    fn next(&mut self) -> u64 {
        self.0 = self.0.wrapping_mul(6364136223846793005).wrapping_add(1442695040888963407);
        self.0 >> 33
    }

    fn below(&mut self, n: usize) -> usize {
        (self.next() % n as u64) as usize
    }

    fn text(&mut self, alphabet: &[char], max_len: usize) -> String {
        let len = self.below(max_len + 1);
        (0..len).map(|_| alphabet[self.below(alphabet.len())]).collect()
    }
}

const TEXT: [char; 12] = ['a', 'b', 'v', ' ', '\n', '\t', '\r', '-', '_', '{', '}', '\u{a0}'];

#[test]
fn trimmed_agrees_with_trim_on_generated_texts() {
    let mut g = Gen(1);
    for _ in 0..3000 {
        let s = g.text(&TEXT, 12);
        assert_eq!(string_of(&trimmed(&to_chars(&s))), s.trim(), "{s:?}");
    }
}

#[test]
fn split_words_agrees_with_split_whitespace_on_generated_texts() {
    let mut g = Gen(2);
    for _ in 0..3000 {
        let s = g.text(&TEXT, 16);
        let words: Vec<String> =
            split_words(&to_chars(&s)).iter().map(|w| w.iter().collect()).collect();
        let expected: Vec<&str> = s.split_whitespace().collect();
        assert_eq!(words, expected, "{s:?}");
        assert_eq!(checksum_of(&s).as_deref(), expected.first().copied(), "{s:?}");
    }
}

#[test]
fn replace_agrees_with_replace_on_generated_texts() {
    let mut g = Gen(3);
    let alphabet = ['a', 'b', '{', '}'];
    for _ in 0..5000 {
        let s = g.text(&alphabet, 14);
        let mut pat = g.text(&alphabet, 3);
        if pat.is_empty() {
            pat.push('a');
        }
        let to = g.text(&alphabet, 3);
        assert_eq!(
            string_of(&replace(&to_chars(&s), &to_chars(&pat), &to_chars(&to))),
            s.replace(&pat, &to),
            "{s:?} {pat:?} {to:?}"
        );
    }
}

#[test]
fn substitute_agrees_with_replacing_each_placeholder_in_turn() {
    let mut g = Gen(4);
    let alphabet = ['a', 'b', '{', '}', ' '];
    for _ in 0..5000 {
        let template = g.text(&alphabet, 16);
        let count = g.below(4);
        let owned: Vec<(String, String)> =
            (0..count).map(|_| (g.text(&alphabet, 2), g.text(&alphabet, 4))).collect();
        let vars: Vec<(&str, &str)> =
            owned.iter().map(|(k, v)| (k.as_str(), v.as_str())).collect();
        let mut expected = template.clone();
        for (key, value) in &vars {
            expected = expected.replace(&format!("{{{key}}}"), value);
        }
        assert_eq!(substitute(&template, &vars), expected, "{template:?} {vars:?}");
    }
}

#[test]
fn substitute_ignores_the_order_of_plain_bindings_on_flat_templates() {
    // Keys without braces, values without `{`, and templates whose braces do
    // not nest.
    let mut g = Gen(5);
    let plain = ['a', 'b', ' '];
    let closing = ['a', 'b', ' ', '}'];
    let keys = ["a", "b", "ab", ""];
    for _ in 0..3000 {
        let mut template = String::new();
        for _ in 0..g.below(6) {
            template.push_str(&g.text(&plain, 3));
            match g.below(4) {
                0 => template.push('}'),
                1 => {
                    template.push('{');
                    template.push_str(&g.text(&plain, 2));
                    template.push('}');
                }
                2 => {
                    template.push('{');
                    template.push_str(keys[g.below(keys.len())]);
                    template.push('}');
                }
                _ => {}
            }
        }
        if g.below(5) == 0 {
            template.push('{');
        }
        let values: Vec<String> = keys.iter().map(|_| g.text(&closing, 3)).collect();
        let vars: Vec<(&str, &str)> =
            keys.iter().zip(values.iter()).map(|(k, v)| (*k, v.as_str())).collect();
        let forward = substitute(&template, &vars);
        let mut reversed = vars.clone();
        reversed.reverse();
        assert_eq!(substitute(&template, &reversed), forward, "{template:?} {vars:?}");
        let mut rotated = vars.clone();
        rotated.rotate_left(1 + g.below(3));
        assert_eq!(substitute(&template, &rotated), forward, "{template:?} {vars:?}");
        for (key, _) in &vars {
            assert!(!forward.contains(&format!("{{{key}}}")), "{template:?} {vars:?}");
        }
    }
}

#[test]
fn needs_cross_linker_agrees_with_splitting_at_the_first_hyphen() {
    let mut g = Gen(6);
    let alphabet = ['a', 'b', '-'];
    for _ in 0..5000 {
        let host = g.text(&alphabet, 6);
        let target = g.text(&alphabet, 6);
        let host_suffix = host.splitn(2, '-').nth(1).unwrap_or(&host);
        let target_suffix = target.splitn(2, '-').nth(1).unwrap_or(&target);
        assert_eq!(
            needs_cross_linker(&host, &target),
            host_suffix != target_suffix,
            "{host:?} {target:?}"
        );
    }
}

#[test]
fn parse_host_target_agrees_with_the_first_host_line() {
    let mut g = Gen(7);
    let alphabet = ['h', 'o', 's', 't', ':', ' ', 'x', '\n', '\r', '\t'];
    for round in 0..5000 {
        let mut report = g.text(&alphabet, 10);
        if round % 3 == 0 {
            report.push_str("\nhost: ");
            report.push_str(&g.text(&alphabet, 8));
        }
        let expected = report
            .lines()
            .find_map(|line| line.strip_prefix("host: "))
            .map(|s| s.trim().to_string());
        assert_eq!(parse_host_target(&report), expected, "{report:?}");
    }
}

#[test]
fn parse_installed_targets_agrees_with_the_trimmed_lines() {
    let mut g = Gen(8);
    let alphabet = ['a', 'b', '-', ' ', '\n', '\r', '\t'];
    for _ in 0..3000 {
        let listing = g.text(&alphabet, 16);
        let expected: std::collections::HashSet<String> = listing
            .lines()
            .map(|l| l.trim().to_string())
            .filter(|l| !l.is_empty())
            .collect();
        let set = parse_installed_targets(&listing);
        assert_eq!(set.len(), expected.len(), "{listing:?}");
        assert_eq!(set.is_empty(), expected.is_empty(), "{listing:?}");
        for name in &expected {
            assert!(set.contains(name), "{listing:?} {name:?}");
        }
        for probe in ["a", "b", "a-b", "ab", ""] {
            assert_eq!(set.contains(probe), expected.contains(probe), "{listing:?} {probe:?}");
        }
    }
}

#[test]
fn to_pascal_case_agrees_with_capitalizing_the_words() {
    let mut g = Gen(9);
    let alphabet = ['a', 'b', 'Z', '-', '_', '1', 'ß', 'é', ' '];
    for _ in 0..3000 {
        let name = g.text(&alphabet, 10);
        let expected: String = name
            .split(|c| c == '-' || c == '_')
            .map(|word| {
                let mut chars = word.chars();
                match chars.next() {
                    None => String::new(),
                    Some(first) => {
                        let mut result = first.to_uppercase().to_string();
                        result.extend(chars);
                        result
                    }
                }
            })
            .collect();
        assert_eq!(to_pascal_case(&name), expected, "{name:?}");
    }
}

#[test]
fn join_path_agrees_with_path_join_on_generated_paths() {
    let mut g = Gen(10);
    let alphabet = ['a', 'b', '/', '.'];
    for _ in 0..3000 {
        let dir = g.text(&alphabet, 6);
        let name = g.text(&alphabet, 6);
        assert_eq!(
            join_path(&dir, &name),
            std::path::Path::new(&dir).join(&name).to_string_lossy(),
            "{dir:?} {name:?}"
        );
    }
}

#[test]
fn small_cuts_agree_with_their_standard_counterparts() {
    let mut g = Gen(11);
    let alphabet = ['v', '1', '.', '{', 'a'];
    for _ in 0..3000 {
        let s = g.text(&alphabet, 6);
        assert_eq!(normalize_version(&s), s.strip_prefix('v').unwrap_or(&s), "{s:?}");
        assert_eq!(upload_target(&s), s.split('{').next().unwrap_or(&s), "{s:?}");
    }
}
