use wordgames::models::{Group, Ranking, Word};
use wordgames::provider::{
    address_from, arrange, chars_of, clamp_offset, entries, find, keep_basic, key_of, order_of,
    page_address, parse_page, section_of, split, squeeze, text_of, trim, words_from,
};

fn chars(text: &str) -> Vec<char> {
    text.chars().collect()
}

fn page() -> String {
    let mut page = String::new();
    page.push_str("<html><ul><li><font>not, these</font></li></ul>");
    page.push_str("<h2 id=what-is-the-answer-to-connections-today>Answer</h2>\n<p>intro</p>");
    page.push_str("<ul>\n<li><b>Yellow</b>: <font color=\"#f9df6d\">CAKE, Pie ,pudding, cookie</font></li>\n");
    page.push_str("<li><font>pen, notebook, stapler, pandora&rsquo;s box</font></li>\n");
    page.push_str("<li><font size=2>holmes, poirot \u{1F600}, marple, spade</font></li>\n");
    page.push_str("<li><font>centaur, mermaid, minotaur, sphinx</font></li>\n</ul>");
    page.push_str("<ul><li><font>after, the, list</font></li></ul>");
    page.push_str("<h2 id=what-is-the-answer-to-connections-today>again</h2><ul><font>x</font></ul>");
    page
}

#[test]
fn characters_and_text_go_both_ways() {
    assert_eq!(chars_of("a\u{e9}\u{1F600}z"), vec!['a', '\u{e9}', '\u{1F600}', 'z']);
    assert_eq!(chars_of(""), Vec::<char>::new());
    assert_eq!(text_of(&['a', '\u{e9}', 'z']), "a\u{e9}z");
    assert_eq!(text_of(&chars_of("pandora\u{2019}s box")), "pandora\u{2019}s box");
}

#[test]
fn find_gives_the_first_place() {
    assert_eq!(find(&chars("abcabc"), &chars("bc")), Some(1));
    assert_eq!(find(&chars("abcabc"), &chars("abcabc")), Some(0));
    assert_eq!(find(&chars("abcabc"), &chars("cb")), None);
    assert_eq!(find(&chars("abc"), &chars("abcd")), None);
    assert_eq!(find(&chars("abc"), &chars("")), Some(0));
    assert_eq!(find(&chars(""), &chars("")), Some(0));
    assert_eq!(find(&chars("aab"), &chars("ab")), Some(1));
}

#[test]
fn section_is_the_list_after_the_heading() {
    let list = section_of(&chars(&page())).unwrap();
    let text: String = list.iter().collect();
    assert!(text.starts_with("<ul>\n<li><b>Yellow</b>"));
    assert!(text.ends_with("sphinx</font></li>\n"));
    assert!(!text.contains("not, these"));
    assert!(!text.contains("after"));
}

#[test]
fn page_without_heading_or_list_has_no_section() {
    assert!(section_of(&chars("<ul><font>a</font></ul>")).is_none());
    let heading = "<h2 id=what-is-the-answer-to-connections-today>";
    assert!(section_of(&chars(&format!("{}<ul>no end", heading))).is_none());
    assert!(section_of(&chars(&format!("{}no start</ul>", heading))).is_none());
    assert!(section_of(&chars(&format!("{}</ul><ul>", heading))).is_none());
    assert!(section_of(&chars(&format!("{}{}<ul></ul>", heading, heading))).is_none());
    assert_eq!(section_of(&chars(&format!("{}x<ul>ab</ul>", heading))), Some(chars("<ul>ab")));
    assert!(parse_page("nothing here").is_none());
}

#[test]
fn cutting_and_trimming() {
    assert_eq!(split(&chars("a,b"), ','), vec![chars("a"), chars("b")]);
    assert_eq!(split(&chars(""), ','), vec![chars("")]);
    assert_eq!(split(&chars("a,"), ','), vec![chars("a"), chars("")]);
    assert_eq!(split(&chars(",a,,b"), ','), vec![chars(""), chars("a"), chars(""), chars("b")]);
    assert_eq!(trim(&chars("  a b \t\n")), chars("a b"));
    assert_eq!(trim(&chars("\u{a0}x\u{2003}")), chars("x"));
    assert_eq!(trim(&chars("   ")), chars(""));
    assert_eq!(trim(&chars("")), chars(""));
    assert_eq!(trim(&chars("word")), chars("word"));
    assert_eq!(keep_basic(&chars("a\u{1F600}b\u{ffff}\u{10000}")), chars("ab\u{ffff}"));
    assert_eq!(squeeze(&chars("march- 5-2024")), chars("march-5-2024"));
    assert_eq!(squeeze(&chars("-  - a-")), chars("- -a-"));
    assert_eq!(squeeze(&chars("")), chars(""));
}

#[test]
fn words_of_one_group() {
    let words = words_from(" CAKE, Pie ,pandora&rsquo;s box,\u{1F600}a&amp;b ", 2);
    let texts: Vec<&str> = words.iter().map(|w| w.text.as_str()).collect();
    assert_eq!(texts, vec!["cake", "pie", "pandora\u{2019}s box", "a&b"]);
    for word in words.iter() {
        assert_eq!(word.group, Group { name: "Unknown".to_string(), ranking: Ranking::Hard });
    }
    assert_eq!(words_from("", 0).len(), 1);
    assert_eq!(words_from("", 0)[0].text, "");
    assert_eq!(words_from("x", 7)[0].group.ranking, Ranking::Easy);
}

#[test]
fn entries_follow_the_page() {
    let caught = vec![Some("a, b".to_string()), None, Some("C".to_string())];
    let (groups, words) = entries(&caught);
    assert_eq!(
        groups,
        vec![
            Group { name: "Unknown".to_string(), ranking: Ranking::Easy },
            Group { name: "Unknown".to_string(), ranking: Ranking::Hard },
        ]
    );
    let found: Vec<(&str, Ranking)> =
        words.iter().map(|w| (w.text.as_str(), w.group.ranking)).collect();
    assert_eq!(found, vec![("a", Ranking::Easy), ("b", Ranking::Easy), ("c", Ranking::Hard)]);
    let (no_groups, no_words) = entries(&Vec::new());
    assert!(no_groups.is_empty() && no_words.is_empty());
}

#[test]
fn order_follows_the_keys_and_keeps_ties() {
    assert_eq!(order_of(&vec![30, 10, 20, 10, 30, 0]), vec![5, 1, 3, 2, 0, 4]);
    assert_eq!(order_of(&vec![]), Vec::<usize>::new());
    assert_eq!(order_of(&vec![7]), vec![0]);
    assert_eq!(order_of(&vec![1, 2, 3]), vec![0, 1, 2]);
    assert_eq!(order_of(&vec![3, 2, 1]), vec![2, 1, 0]);
    assert_eq!(order_of(&vec![u64::MAX, 0, u64::MAX]), vec![1, 0, 2]);
}

#[test]
fn page_gives_groups_and_words() {
    let (groups, words) = parse_page(&page()).unwrap();
    assert_eq!(groups.len(), 4);
    for (i, group) in groups.iter().enumerate() {
        assert_eq!(group.name, "Unknown");
        assert_eq!(group.ranking, Ranking::from_index(i));
    }
    assert_eq!(words.len(), 16);
    let mut found: Vec<(String, &str)> =
        words.iter().map(|w| (w.text.clone(), w.group.ranking.to_str())).collect();
    found.sort();
    let mut expected: Vec<(String, &str)> = Vec::new();
    let lists = [
        ["cake", "pie", "pudding", "cookie"],
        ["pen", "notebook", "stapler", "pandora\u{2019}s box"],
        ["holmes", "poirot", "marple", "spade"],
        ["centaur", "mermaid", "minotaur", "sphinx"],
    ];
    for (i, list) in lists.iter().enumerate() {
        for text in list.iter() {
            expected.push((text.to_string(), Ranking::from_index(i).to_str()));
        }
    }
    expected.sort();
    assert_eq!(found, expected);
    // the words come in the order of their keys
    let keys: Vec<u64> = words.iter().map(key_of).collect();
    assert!(keys.windows(2).all(|pair| pair[0] <= pair[1]));
    // and the same page gives the same order
    assert_eq!(parse_page(&page()).unwrap().1, words);
}

#[test]
fn arrange_moves_words_and_loses_none() {
    let words: Vec<Word> = ["d", "a", "c", "b", "a"]
        .iter()
        .map(|t| Word {
            text: t.to_string(),
            group: Group { name: "g".to_string(), ranking: Ranking::Medium },
        })
        .collect();
    let out = arrange(&words);
    let keys: Vec<u64> = out.iter().map(key_of).collect();
    assert!(keys.windows(2).all(|pair| pair[0] <= pair[1]));
    let mut texts: Vec<&str> = out.iter().map(|w| w.text.as_str()).collect();
    texts.sort();
    assert_eq!(texts, vec!["a", "a", "b", "c", "d"]);
    assert_eq!(key_of(&words[1]), key_of(&words[4]));
    assert_ne!(key_of(&words[0]), key_of(&words[1]));
}

#[test]
fn offset_is_at_most_a_year() {
    assert_eq!(clamp_offset(0), 0);
    assert_eq!(clamp_offset(1), 1);
    assert_eq!(clamp_offset(365), 365);
    assert_eq!(clamp_offset(366), 365);
    assert_eq!(clamp_offset(usize::MAX), 365);
}

#[test]
fn address_of_a_page() {
    let head = "https://www.connections-answer.com/posts/nyt-connections-answer-hint-";
    assert_eq!(page_address(2024, 3, 5), Some(format!("{}march-5-2024", head)));
    assert_eq!(page_address(2023, 12, 25), Some(format!("{}december-25-2023", head)));
    assert_eq!(page_address(2024, 2, 29), Some(format!("{}february-29-2024", head)));
    assert_eq!(page_address(2023, 2, 29), None);
    assert_eq!(page_address(2024, 13, 1), None);
    assert_eq!(page_address(2024, 0, 1), None);
    assert_eq!(address_from("March- 5-2024"), format!("{}march-5-2024", head));
    assert_eq!(address_from(" July-14-2021 "), format!("{}july-14-2021", head));
}
