use dotstrap::text::{chars_of, join_path, replace_all, split, starts_at, text_of};

fn pieces(parts: &[&str]) -> Vec<String> {
    parts.iter().map(|part| part.to_string()).collect()
}

#[test]
fn a_text_and_its_characters_go_both_ways() {
    assert_eq!(chars_of("héllo"), vec!['h', 'é', 'l', 'l', 'o']);
    assert_eq!(chars_of(""), Vec::<char>::new());
    assert_eq!(text_of(&vec!['a', 'ß', 'c']), "aßc");
    assert_eq!(text_of(&vec![]), "");
    assert_eq!(text_of(&chars_of("paru -S <package>")), "paru -S <package>");
}

#[test]
fn every_occurrence_is_replaced() {
    let name = "vim git".to_string();
    assert_eq!(replace_all(&"paru -S <package>".to_string(), "<package>", &name), "paru -S vim git");
    assert_eq!(
        replace_all(&"<package> and <package>".to_string(), "<package>", &name),
        "vim git and vim git"
    );
    assert_eq!(replace_all(&"no token".to_string(), "<package>", &name), "no token");
    assert_eq!(replace_all(&"<package".to_string(), "<package>", &name), "<package");
    assert_eq!(replace_all(&"".to_string(), "<package>", &name), "");
    assert_eq!(replace_all(&"aaa".to_string(), "aa", &"b".to_string()), "ba");
    assert_eq!(replace_all(&"abc".to_string(), "", &"x".to_string()), "abc");
    assert_eq!(replace_all(&"a<package>b".to_string(), "<package>", &"".to_string()), "ab");
}

#[test]
fn a_pattern_is_found_where_it_stands() {
    let text = chars_of("abcabc");
    let pattern = chars_of("bc");
    assert!(!starts_at(&text, 0, &pattern));
    assert!(starts_at(&text, 1, &pattern));
    assert!(starts_at(&text, 4, &pattern));
    assert!(!starts_at(&text, 5, &pattern));
    assert!(!starts_at(&text, 6, &pattern));
    assert!(starts_at(&text, 6, &vec![]));
}

#[test]
fn paths_are_joined_as_the_file_system_reads_them() {
    let join = |base: &str, path: &str| join_path(&base.to_string(), &path.to_string());
    assert_eq!(join("packages/zsh", "zshrc"), "packages/zsh/zshrc");
    assert_eq!(join("packages/zsh/", "zshrc"), "packages/zsh/zshrc");
    assert_eq!(join("packages/zsh", "/etc/zshrc"), "/etc/zshrc");
    assert_eq!(join("", "zshrc"), "zshrc");
    assert_eq!(join("packages/zsh", ""), "packages/zsh/");
    assert_eq!(join("", ""), "");
    for (base, path) in [("packages/zsh", "zshrc"), ("a/", "b"), ("a", "/b"), ("", "b"), ("a", "")] {
        let mut expected = std::path::PathBuf::new();
        expected.push(base);
        expected.push(path);
        assert_eq!(join(base, path), expected.to_str().unwrap());
    }
}

#[test]
fn a_text_is_cut_at_each_separator() {
    assert_eq!(split("os:vim", ':'), pieces(&["os", "vim"]));
    assert_eq!(split("vim", ':'), pieces(&["vim"]));
    assert_eq!(split("", ':'), pieces(&[""]));
    assert_eq!(split(":", ':'), pieces(&["", ""]));
    assert_eq!(split("a::b:", ':'), pieces(&["a", "", "b", ""]));
    for text in ["a b  c", " lead", "trail ", "", " "] {
        let expected: Vec<String> = text.split(' ').map(|part| part.to_string()).collect();
        assert_eq!(split(text, ' '), expected);
    }
}
