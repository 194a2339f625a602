use std::path::Path;
use wg_toggle::configs::{available_configs, config_path, identifier};
use wg_toggle::text::{chars_equal, chars_of, chars_precede, same_text};

fn owned(items: &[&str]) -> Vec<String> {
    items.iter().map(|item| item.to_string()).collect()
}

fn by_path(name: &str) -> Option<String> {
    let path = Path::new("/etc/amnezia/amneziawg").join(name);
    if path.extension().and_then(|s| s.to_str()) == Some("conf") {
        path.file_stem().and_then(|s| s.to_str()).map(|s| s.to_string())
    } else {
        None
    }
}

#[test]
fn identifier_is_the_name_without_extension() {
    assert_eq!(identifier("wg0.conf"), Some("wg0".to_string()));
    assert_eq!(identifier("a.conf"), Some("a".to_string()));
    assert_eq!(identifier("home.office.conf"), Some("home.office".to_string()));
    assert_eq!(identifier("a.conf.conf"), Some("a.conf".to_string()));
    assert_eq!(identifier("..conf"), Some(".".to_string()));
    assert_eq!(identifier("\u{432}\u{43f}\u{43d}.conf"), Some("\u{432}\u{43f}\u{43d}".to_string()));
}

#[test]
fn other_entries_are_no_configuration() {
    assert_eq!(identifier(".conf"), None);
    assert_eq!(identifier("conf"), None);
    assert_eq!(identifier(""), None);
    assert_eq!(identifier("wg0"), None);
    assert_eq!(identifier("wg0.conf.bak"), None);
    assert_eq!(identifier("wg0.CONF"), None);
    assert_eq!(identifier("wg0.conf "), None);
    assert_eq!(identifier("wg0conf"), None);
    assert_eq!(identifier("wg0.con"), None);
    assert_eq!(identifier("wg0.xonf"), None);
    assert_eq!(identifier("wg0.cont"), None);
}

#[test]
fn identifier_agrees_with_path_rules() {
    let names = [
        "wg0.conf", "a.conf", ".conf", "..conf", "...conf", "conf", "x", "x.", "x.conf.", "x.txt",
        "x.y.conf", ".hidden.conf", "a b.conf", "x.conf.conf", "x.confx", "xconf", ".c.conf",
        "\u{e9}.conf", "\u{1f600}.conf", "x.c\u{f6}nf", "README", "x.con", "x.onf",
    ];
    for name in names {
        assert_eq!(identifier(name), by_path(name), "{}", name);
    }
}

#[test]
fn listing_is_sorted_and_filtered() {
    let names = owned(&["b.conf", "a.conf", "c.conf"]);
    assert_eq!(available_configs(&names), owned(&["a", "b", "c"]));
    let mixed = owned(&["work.conf", "notes.txt", ".conf", "home.conf", "work.conf.bak", "z"]);
    assert_eq!(available_configs(&mixed), owned(&["home", "work"]));
}

#[test]
fn empty_listing_gives_empty_working_set() {
    assert_eq!(available_configs(&Vec::new()), Vec::<String>::new());
    assert_eq!(available_configs(&owned(&["a.txt", "b"])), Vec::<String>::new());
}

#[test]
fn listing_agrees_with_the_standard_sort() {
    let names = owned(&[
        "b.conf", "B.conf", "a.conf", "ab.conf", "a.b.conf", "10.conf", "9.conf", "Z.conf",
        "\u{e9}.conf", "e.conf", "\u{1f600}.conf", "\u{ffff}.conf", "aa.conf", "a-.conf", "a_.conf",
        "z.txt", "~.conf", " .conf", "a.conf ", "x",
    ]);
    let mut expected: Vec<String> = names.iter().filter_map(|name| by_path(name)).collect();
    expected.sort();
    assert_eq!(available_configs(&names), expected);
    let mut reversed = names;
    reversed.reverse();
    assert_eq!(available_configs(&reversed), expected);
}

#[test]
fn working_set_is_strictly_ascending() {
    let names = owned(&["d.conf", "b.conf", "a.conf", "c.conf", "ab.conf", "skip.me"]);
    let configs = available_configs(&names);
    assert_eq!(configs.len(), 5);
    for pair in configs.windows(2) {
        assert!(pair[0] < pair[1]);
        assert!(chars_precede(&chars_of(&pair[0]), &chars_of(&pair[1])));
        assert!(!chars_precede(&chars_of(&pair[1]), &chars_of(&pair[0])));
    }
}

#[test]
fn repeated_names_are_kept() {
    let names = owned(&["b.conf", "a.conf", "b.conf"]);
    assert_eq!(available_configs(&names), owned(&["a", "b", "b"]));
}

#[test]
fn order_is_that_of_strings() {
    let samples = [
        "", "a", "b", "ab", "abc", "abd", "B", "a\u{e9}", "a\u{1f600}", "\u{ffff}", "\u{10000}",
        "z", "za", "\u{7f}", "\u{80}",
    ];
    for left in samples {
        for right in samples {
            let expected = left < right;
            assert_eq!(
                chars_precede(&chars_of(left), &chars_of(right)),
                expected,
                "{:?} {:?}",
                left,
                right
            );
            assert_eq!(same_text(left, right), left == right);
            assert_eq!(chars_equal(&chars_of(left), &chars_of(right)), left == right);
        }
    }
}

#[test]
fn characters_come_out_in_order() {
    assert_eq!(chars_of(""), Vec::<char>::new());
    assert_eq!(chars_of("wg0"), vec!['w', 'g', '0']);
    assert_eq!(chars_of("\u{e9}\u{1f600}x"), vec!['\u{e9}', '\u{1f600}', 'x']);
}

#[test]
fn config_path_addresses_the_file() {
    assert_eq!(config_path("/etc/amnezia/amneziawg", "work"), "/etc/amnezia/amneziawg/work.conf");
    assert_eq!(config_path("", "wg0"), "/wg0.conf");
    assert_eq!(config_path("/d/", ""), "/d//.conf");
    assert_eq!(identifier("work.conf").map(|id| config_path("/d", &id)), Some("/d/work.conf".to_string()));
}
