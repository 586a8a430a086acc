//! The text functions, held against those of the standard library.
use ygit::order::stable_order;
use ygit::text::{
    chars_of, contains, ends, join, last_piece, lines, number, parse_u16, replace, split,
    split_up_to, text_of, trim, trim_end, trim_end_matches, trim_start, trim_start_matches,
    white_space,
};

const SAMPLES: [&str; 14] = [
    "",
    " ",
    "a",
    " a b ",
    "\t\u{a0}x\u{2003}\n",
    "a\nb\n",
    "a\r\nb\r",
    "\n\n",
    "a\tb\t\tc",
    "/x//y/",
    ".git.git",
    "it's",
    "\u{e9}\u{3000}",
    "\r",
];

#[test]
fn white_space_is_that_of_unicode() {
    for code in 0..=0x10ffffu32 {
        if let Some(c) = char::from_u32(code) {
            assert_eq!(white_space(c), c.is_whitespace(), "{code:x}");
        }
    }
}

#[test]
fn trimming_agrees() {
    for s in SAMPLES {
        let cs = chars_of(s);
        assert_eq!(text_of(trim(&cs)), s.trim());
        assert_eq!(text_of(trim_start(&cs)), s.trim_start());
        assert_eq!(text_of(trim_end(&cs)), s.trim_end());
        assert_eq!(text_of(trim_end_matches(&cs, &['/'])), s.trim_end_matches('/'));
        assert_eq!(text_of(trim_end_matches(&cs, &chars_of(".git"))), s.trim_end_matches(".git"));
        assert_eq!(text_of(trim_start_matches(&cs, &['/'])), s.trim_start_matches('/'));
    }
}

#[test]
fn splitting_agrees() {
    for s in SAMPLES {
        let cs = chars_of(s);
        let ours: Vec<String> = lines(&cs).iter().map(|l| text_of(l)).collect();
        let theirs: Vec<&str> = s.lines().collect();
        assert_eq!(ours, theirs, "{s:?}");
        let ours: Vec<String> = split(&cs, '\t').iter().map(|l| text_of(l)).collect();
        let theirs: Vec<&str> = s.split('\t').collect();
        assert_eq!(ours, theirs);
        let ours: Vec<String> = split_up_to(&cs, '\t', 3).iter().map(|l| text_of(l)).collect();
        let theirs: Vec<&str> = s.splitn(3, '\t').collect();
        assert_eq!(ours, theirs);
        assert_eq!(text_of(last_piece(&cs, '/')), s.rsplit('/').next().unwrap());
    }
}

#[test]
fn searching_agrees() {
    for s in SAMPLES {
        for part in SAMPLES {
            let (a, b) = (chars_of(s), chars_of(part));
            assert_eq!(contains(&a, &b), s.contains(part));
            assert_eq!(ends(&a, &b), s.ends_with(part));
        }
        assert_eq!(replace(&chars_of(s), '\'', &chars_of("'\\''")), s.replace('\'', "'\\''"));
    }
    let parts = vec!["a".to_string(), String::new(), "b".to_string()];
    assert_eq!(join(&parts, ", "), parts.join(", "));
    assert_eq!(join(&[], ", "), "");
}

#[test]
fn numbers_agree() {
    for n in [0u64, 7, 10, 99, 100, 65535, 65536, u64::MAX] {
        assert_eq!(number(n), n.to_string());
    }
    for s in [
        "", "+", "-", "0", "00", "22", "+22", "-0", "65535", "65536", "99999", "000065535", " 22",
        "2a", "++1", "\u{661}",
    ] {
        assert_eq!(parse_u16(&chars_of(s)), s.parse::<u16>().ok(), "{s:?}");
    }
}

#[test]
fn the_order_is_that_of_a_stable_sort() {
    let keys: Vec<String> = ["b", "a", "", "b", "\u{e9}", "ab", "a", "\u{10348}", "\u{ff5e}"]
        .iter()
        .map(|s| s.to_string())
        .collect();
    let mut theirs: Vec<usize> = (0..keys.len()).collect();
    theirs.sort_by_key(|i| keys[*i].clone());
    assert_eq!(stable_order(&keys), theirs);
}
