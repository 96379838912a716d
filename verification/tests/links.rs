use link_fixer::fix_existing_message::{collect_fixable_urls, fix_existing_message, join_fixed};
use link_fixer::fix_link::{
    is_contiguous_starting_at_zero, make_megapattern, parse_insertion_points,
    process_replacement_rules, ConfigError, EmbedHandling, LinkFix, LinkFixer, ReplacementRule,
};
use link_fixer::slash_command::fix_links;
use link_fixer::util::{
    get_embed_urls, has_spoilers, has_suppressed_embeds, twitter_link_of, x_to_twitter,
};

const CONFIG: &str = r"https://www\.amazon\.(\w+)/(?:[^/\s]+/)?dp/(\w+)\S*
https://www.amazon.{0}/dp/{1}
do nothing

https://(?:www\.)?instagram\.com/((?:p|reel)/[^/?\s<>]+)\S*
https://www.instagramez.com/{0}/
replace

https://(?:www\.)?reddit\.com/r/(\w+)/comments/(\w+)\S*
https://www.rxddit.com/r/{0}/comments/{1}/_/
replace

https://x\.com/(\w+/status/\d+)\S*
https://fixupx.com/{0}
replace

https://(?:www\.)?youtube\.com/shorts/([\w-]+)\S*
https://www.youtube.com/watch?v={0}
do nothing
";

fn fixer() -> LinkFixer {
    match LinkFixer::from_config(CONFIG) {
        Ok(fixer) => fixer,
        Err(error) => panic!("{:?}", error),
    }
}

fn first_fixed(text: &str) -> Option<String> {
    fixer().find_and_fix(text).into_iter().next().map(|fix| fix.fixed)
}

fn strings(list: &[&str]) -> Vec<String> {
    list.iter().map(|s| s.to_string()).collect()
}

fn groups(list: &[Option<&str>]) -> Vec<Option<String>> {
    list.iter().map(|group| group.map(String::from)).collect()
}

fn rule(count: usize, pieces: &[&str], points: &[usize], handling: EmbedHandling) -> ReplacementRule {
    match ReplacementRule::new("(unused)", count, strings(pieces), points.to_vec(), handling) {
        Ok(rule) => rule,
        Err(error) => panic!("{:?}", error),
    }
}

#[test]
fn find_instagram() {
    let string = "blahblah https://www.instagram.com/reel/abc blahblah";
    assert_eq!(first_fixed(string), Some(String::from("https://www.instagramez.com/reel/abc/")));
}

#[test]
fn find_reddit() {
    let string = "blahblah https://www.reddit.com/r/fictitious/comments/abc/dëf blahblah";
    assert_eq!(
        first_fixed(string),
        Some(String::from("https://www.rxddit.com/r/fictitious/comments/abc/_/"))
    );
}

#[test]
fn find_twitter() {
    let string = "blahblah https://x.com/fictitious/status/0123 blahblah";
    assert_eq!(first_fixed(string), Some(String::from("https://fixupx.com/fictitious/status/0123")));
}

#[test]
fn find_youtube() {
    let string = "blahblah https://www.youtube.com/shorts/GX5wEDmbpQA blahblah";
    assert_eq!(
        first_fixed(string),
        Some(String::from("<https://www.youtube.com/watch?v=GX5wEDmbpQA>"))
    );
}

#[test]
fn find_amazon() {
    let string = "https://www.amazon.ca/Some-Item-With-Code-ABC012/dp/ABC012?all_sorts_of=tracking.data&other_random=bs&believability_of_the_volume=false";
    assert_eq!(first_fixed(string), Some(String::from("<https://www.amazon.ca/dp/ABC012>")));
}

#[test]
fn find_each() {
    let link_fixer = fixer();
    let string = r"hey <https://www.amazon.ca/Some-Item-With-Code-ABC012/dp/ABC012?all_sorts_of=tracking.data&other_random=bs&believability_of_the_volume=false> and https://www.instagram.com/reel/abc blahblah https://www.reddit.com/r/fictitious/comments/abc/def https://x.com/fictitious/status/0123 and https://www.youtube.com/shorts/GX5wEDmbpQA";
    let mut links = link_fixer.find_and_fix(string).into_iter();
    assert_eq!(
        links.next().map(|fix| fix.fixed),
        Some(String::from("<https://www.amazon.ca/dp/ABC012>"))
    );
    assert_eq!(
        links.next().map(|fix| fix.fixed),
        Some(String::from("https://www.instagramez.com/reel/abc/"))
    );
    assert_eq!(
        links.next().map(|fix| fix.fixed),
        Some(String::from("https://www.rxddit.com/r/fictitious/comments/abc/_/"))
    );
    assert_eq!(
        links.next().map(|fix| fix.fixed),
        Some(String::from("https://fixupx.com/fictitious/status/0123"))
    );
    assert_eq!(
        links.next().map(|fix| fix.fixed),
        Some(String::from("<https://www.youtube.com/watch?v=GX5wEDmbpQA>"))
    );
    assert!(links.next().is_none());
}

#[test]
fn fix_names_the_link_and_the_embed() {
    let fixes = fixer().find_and_fix(
        "see HTTPS://X.com/Someone/status/42?s=20 and https://www.youtube.com/shorts/abc",
    );
    assert_eq!(fixes.len(), 2);
    assert_eq!(fixes[0].link, "HTTPS://X.com/Someone/status/42?s=20");
    assert_eq!(fixes[0].fixed, "https://fixupx.com/Someone/status/42");
    assert!(fixes[0].remove_embed);
    assert_eq!(fixes[1].link, "https://www.youtube.com/shorts/abc");
    assert!(!fixes[1].remove_embed);
}

#[test]
fn suppressed_link_of_a_message_is_left_alone_where_embeds_are_replaced() {
    assert!(fixer().find_and_fix("<https://x.com/fictitious/status/0123>").is_empty());
    assert!(fixer().find_and_fix("nothing to see here").is_empty());
    assert!(fixer().find_and_fix("").is_empty());
}

#[test]
fn command_follows_the_link_that_was_handed_in() {
    let link_fixer = fixer();
    let bare = link_fixer.find_and_fix_slash("https://x.com/fictitious/status/0123");
    assert_eq!(bare.len(), 1);
    assert_eq!(bare[0].fixed, "https://fixupx.com/fictitious/status/0123");
    assert!(bare[0].remove_embed);
    let suppressed = link_fixer.find_and_fix_slash("<https://x.com/fictitious/status/0123>");
    assert_eq!(suppressed.len(), 1);
    assert_eq!(suppressed[0].link, "<https://x.com/fictitious/status/0123>");
    assert_eq!(suppressed[0].fixed, "<https://fixupx.com/fictitious/status/0123>");
    assert!(!suppressed[0].remove_embed);
    let youtube = link_fixer.find_and_fix_slash("https://www.youtube.com/shorts/abc");
    assert_eq!(youtube[0].fixed, "https://www.youtube.com/watch?v=abc");
}

#[test]
fn command_answers_with_one_link_to_a_line() {
    let link_fixer = fixer();
    assert_eq!(
        fix_links("https://x.com/a/status/1 https://www.youtube.com/shorts/abc", &link_fixer),
        Some(String::from("https://fixupx.com/a/status/1\nhttps://www.youtube.com/watch?v=abc"))
    );
    assert_eq!(fix_links("no links", &link_fixer), None);
}

#[test]
fn message_is_fixed() {
    let link_fixer = fixer();
    let fixed = fix_existing_message(
        "a https://x.com/a/status/1 b https://www.instagram.com/p/xyz c https://www.youtube.com/shorts/abc",
        &link_fixer,
    );
    assert_eq!(
        fixed,
        Some((
            String::from(
                "https://fixupx.com/a/status/1\nhttps://www.instagramez.com/p/xyz/\n<https://www.youtube.com/watch?v=abc>"
            ),
            strings(&["https://twitter.com/a/status/1", "https://www.instagram.com/p/xyz"]),
        ))
    );
}

#[test]
fn message_without_links_or_with_spoilers_is_not_fixed() {
    let link_fixer = fixer();
    assert_eq!(fix_existing_message("hello there", &link_fixer), None);
    assert_eq!(fix_existing_message("||https://x.com/a/status/1|| really", &link_fixer), None);
    assert!(fix_existing_message("|| https://x.com/a/status/1", &link_fixer).is_some());
}

#[test]
fn fixes_are_joined_and_collected() {
    let fixes = vec![
        LinkFix { link: String::from("l1"), fixed: String::from("f1"), remove_embed: true },
        LinkFix { link: String::from("l2"), fixed: String::from("f2"), remove_embed: false },
        LinkFix {
            link: String::from("https://x.com/u/status/7"),
            fixed: String::from("f3"),
            remove_embed: true,
        },
    ];
    assert_eq!(join_fixed(&fixes), "f1\nf2\nf3");
    assert_eq!(collect_fixable_urls(&fixes), strings(&["l1", "https://twitter.com/u/status/7"]));
    assert_eq!(join_fixed(&Vec::new()), "");
}

#[test]
fn spoilers_need_two_tags() {
    assert!(has_spoilers("a ||b|| c"));
    assert!(has_spoilers("||||"));
    assert!(!has_spoilers("a || b"));
    assert!(!has_spoilers("a | b | c | d"));
    assert!(!has_spoilers("|||"));
    assert!(!has_spoilers(""));
}

#[test]
fn x_becomes_twitter() {
    assert_eq!(
        x_to_twitter("https://x.com/fictitious/status/0123"),
        Some(String::from("https://twitter.com/fictitious/status/0123"))
    );
    assert_eq!(
        x_to_twitter("HTTPS://X.COM/Some_One/status/5?s=20"),
        Some(String::from("https://twitter.com/Some_One/status/5?s=20"))
    );
    assert_eq!(x_to_twitter("https://example.com/fictitious/status/0123"), None);
    assert_eq!(x_to_twitter("see https://x.com/fictitious/status/0123"), None);
    assert_eq!(x_to_twitter("https://x.com/fictitious"), None);
}

#[test]
fn twitter_link_is_made_of_the_first_match() {
    assert_eq!(twitter_link_of(&Vec::new()), None);
    assert_eq!(twitter_link_of(&vec![groups(&[Some("whole")])]), None);
    assert_eq!(twitter_link_of(&vec![groups(&[Some("whole"), None])]), None);
    assert_eq!(
        twitter_link_of(&vec![groups(&[Some("whole"), Some("a/b")]), groups(&[Some("x"), Some("y")])]),
        Some(String::from("https://twitter.com/a/b"))
    );
}

#[test]
fn embeds_without_url_give_none() {
    let embeds = groups(&[Some("a"), None, Some("b"), None]);
    assert_eq!(get_embed_urls(&embeds), strings(&["a", "b"]));
    assert!(get_embed_urls(&Vec::new()).is_empty());
}

#[test]
fn embed_handling_is_read() {
    assert_eq!(EmbedHandling::from_string("replace"), Some(EmbedHandling::Replace));
    assert_eq!(EmbedHandling::from_string("do nothing"), Some(EmbedHandling::DoNothing));
    assert_eq!(EmbedHandling::from_string("Replace"), None);
    assert_eq!(EmbedHandling::from_string("replace "), None);
    assert_eq!(EmbedHandling::from_string(""), None);
}

#[test]
fn contiguous_lists() {
    assert!(is_contiguous_starting_at_zero(&[]));
    assert!(is_contiguous_starting_at_zero(&[0]));
    assert!(is_contiguous_starting_at_zero(&[1, 0, 2]));
    assert!(!is_contiguous_starting_at_zero(&[1]));
    assert!(!is_contiguous_starting_at_zero(&[0, 2]));
    assert!(!is_contiguous_starting_at_zero(&[0, 0]));
    assert!(!is_contiguous_starting_at_zero(&[1, 2, 3]));
    assert!(!is_contiguous_starting_at_zero(&[0, usize::MAX]));
}

#[test]
fn insertion_points_are_read_in_order() {
    assert_eq!(parse_insertion_points(&strings(&["{1}", "{0}", "{2}"])), Some(vec![1, 0, 2]));
    assert_eq!(parse_insertion_points(&strings(&[])), Some(Vec::new()));
    assert_eq!(parse_insertion_points(&strings(&["{1}", "{x}"])), None);
}

#[test]
fn rule_is_checked() {
    let made = |count, pieces: &[&str], points: &[usize]| {
        ReplacementRule::new("(a)", count, strings(pieces), points.to_vec(), EmbedHandling::Replace)
            .err()
    };
    assert_eq!(made(1, &["a", "b"], &[0]), None);
    assert_eq!(made(2, &["a", "b", "c"], &[1, 0]), None);
    assert_eq!(made(2, &["a", "b"], &[0]), Some(ConfigError::InsertionPointCount));
    assert_eq!(made(1, &["a", "b", "c"], &[0, 1]), Some(ConfigError::InsertionPointCount));
    assert_eq!(made(1, &["a", "b"], &[0, 0]), Some(ConfigError::InsertionPointCount));
    assert_eq!(made(0, &[], &[]), Some(ConfigError::InsertionPointCount));
    assert_eq!(made(2, &["a", "b", "c"], &[0, 2]), Some(ConfigError::InsertionPointsNotContiguous));
    assert_eq!(made(2, &["a", "b", "c"], &[1, 1]), Some(ConfigError::InsertionPointsNotContiguous));
}

#[test]
fn groups_are_filled_in() {
    let rule = rule(2, &["a", "-", "z"], &[1, 0], EmbedHandling::Replace);
    let captures = groups(&[Some("whole"), Some("x"), Some("y"), Some("v"), None]);
    assert_eq!(rule.apply(&captures, 0), Some(String::from("ay-xz")));
    assert_eq!(rule.apply(&captures, 1), Some(String::from("av-yz")));
    assert_eq!(rule.apply(&captures, 2), None);
    assert_eq!(rule.apply(&captures, 3), None);
    assert_eq!(rule.apply(&captures, usize::MAX), None);
    assert_eq!(rule.apply(&Vec::new(), 0), None);
}

#[test]
fn fix_is_made_of_a_match() {
    let rules = vec![
        rule(1, &["never:", ""], &[0], EmbedHandling::Replace),
        rule(2, &["a", "-", "z"], &[1, 0], EmbedHandling::Replace),
        rule(1, &["q", ""], &[0], EmbedHandling::DoNothing),
    ];
    let bare = groups(&[Some("link"), None, None, None, None, Some("x"), Some("y"), None, None]);
    let fix = LinkFix::new(&bare, &rules, true).unwrap();
    assert_eq!((fix.link.as_str(), fix.fixed.as_str(), fix.remove_embed), ("link", "ay-xz", true));
    let suppressed =
        groups(&[Some("<link>"), None, None, Some("x"), Some("y"), None, None, None, None]);
    assert!(LinkFix::new(&suppressed, &rules, true).is_none());
    let fix = LinkFix::new(&suppressed, &rules, false).unwrap();
    assert_eq!((fix.link.as_str(), fix.fixed.as_str(), fix.remove_embed), ("<link>", "<ay-xz>", false));
    let nothing = groups(&[Some("other"), None, None, None, None, None, None, None, Some("g")]);
    let fix = LinkFix::new(&nothing, &rules, true).unwrap();
    assert_eq!((fix.link.as_str(), fix.fixed.as_str(), fix.remove_embed), ("other", "<qg>", false));
    let fix = LinkFix::new(&nothing, &rules, false).unwrap();
    assert_eq!((fix.link.as_str(), fix.fixed.as_str(), fix.remove_embed), ("other", "qg", false));
}

#[test]
fn match_that_fits_no_rule_gives_no_fix() {
    let rules = vec![rule(2, &["a", "-", "z"], &[1, 0], EmbedHandling::Replace)];
    assert!(LinkFix::new(&Vec::new(), &rules, false).is_none());
    assert!(LinkFix::new(&groups(&[Some("whole")]), &rules, false).is_none());
    assert!(LinkFix::new(&groups(&[Some("whole"), None, None, None, None]), &rules, false).is_none());
    assert!(LinkFix::new(
        &groups(&[Some("whole"), None, None, None, None, Some("late")]),
        &rules,
        false
    )
    .is_none());
    assert!(LinkFix::new(&groups(&[Some("whole"), Some("x"), None, None, None]), &rules, false)
        .is_none());
    assert!(
        LinkFix::new(&groups(&[None, Some("x"), Some("y"), None, None]), &rules, false).is_none()
    );
    assert!(LinkFix::new(&groups(&[Some("whole"), Some("x")]), &[], false).is_none());
}

#[test]
fn configuration_is_read() {
    let rules = process_replacement_rules("(a)(b)\nx{1}y{0}z\nreplace\n\n(c)\n{0}\ndo nothing");
    let rules = match rules {
        Ok(rules) => rules,
        Err(error) => panic!("{:?}", error),
    };
    assert_eq!(rules.len(), 2);
    let captures = groups(&[Some("ab"), Some("a"), Some("b")]);
    assert_eq!(rules[0].apply(&captures, 0), Some(String::from("xbyaz")));
    assert_eq!(rules[1].apply(&captures, 0), Some(String::from("a")));
    assert!(make_megapattern(&rules).is_ok());
    assert_eq!(process_replacement_rules("").map(|rules| rules.len()), Ok(0));
    assert_eq!(process_replacement_rules("(a)\n{0}\nreplace\n").map(|rules| rules.len()), Ok(1));
    assert_eq!(process_replacement_rules("(a)\n{0}\nreplace\n\n").map(|rules| rules.len()), Ok(1));
}

#[test]
fn configuration_without_rules_fixes_nothing() {
    let link_fixer = match LinkFixer::from_config("") {
        Ok(fixer) => fixer,
        Err(error) => panic!("{:?}", error),
    };
    assert!(link_fixer.find_and_fix("https://x.com/a/status/1").is_empty());
}

#[test]
fn configuration_errors() {
    let refused = |config: &str| LinkFixer::from_config(config).err();
    assert_eq!(refused("(a)\nb{0}"), Some(ConfigError::MissingLine));
    assert_eq!(refused("(a)"), Some(ConfigError::MissingLine));
    assert_eq!(refused("(a)\nb{0}\nreplace\n\n(b)"), Some(ConfigError::MissingLine));
    assert_eq!(refused("(a\nb{0}\nreplace"), Some(ConfigError::InvalidPattern));
    assert_eq!(refused("abc\nb\nreplace"), Some(ConfigError::NoCaptureGroup));
    assert_eq!(refused("(?:abc)\nb\nreplace"), Some(ConfigError::NoCaptureGroup));
    assert_eq!(refused("(a)\nb{0}\nkeep"), Some(ConfigError::InvalidEmbedHandling));
    assert_eq!(
        refused("(a)\nb{99999999999999999999999999}\nreplace"),
        Some(ConfigError::InvalidInsertionPoint)
    );
    assert_eq!(refused("(a)\nb{\u{663}}\nreplace"), Some(ConfigError::InvalidInsertionPoint));
    assert_eq!(refused("(a)(b)\nx{0}\nreplace"), Some(ConfigError::InsertionPointCount));
    assert_eq!(refused("(a)\nx{0}{1}\nreplace"), Some(ConfigError::InsertionPointCount));
    assert_eq!(refused("(a)(b)\nx{0}y{2}\nreplace"), Some(ConfigError::InsertionPointsNotContiguous));
    assert_eq!(refused("(a)(b)\nx{0}y{0}\nreplace"), Some(ConfigError::InsertionPointsNotContiguous));
    assert_eq!(refused("(a)\nx{0}\nreplace\nnot empty"), Some(ConfigError::ExpectedEmptyLine));
    assert_eq!(
        refused("(?x)(a)\n{0}\nreplace\n\n(b)#\n{0}\nreplace"),
        Some(ConfigError::InvalidMegapattern)
    );
    assert_eq!(refused("(a)\nx{0}\nreplace\n\n"), None);
}

#[test]
fn first_error_of_a_configuration_is_reported() {
    let refused = |config: &str| LinkFixer::from_config(config).err();
    assert_eq!(refused("(a\nb{x}\nkeep\nnot empty"), Some(ConfigError::InvalidPattern));
    assert_eq!(refused("a\nb{0}{0}\nkeep\nnot empty"), Some(ConfigError::NoCaptureGroup));
    assert_eq!(
        refused("(a)\nb{99999999999999999999999999}\nkeep\nnot empty"),
        Some(ConfigError::InvalidEmbedHandling)
    );
    assert_eq!(
        refused("(a)\nb{0}\nreplace\n\n(b)\nb{0}\nreplace\nnot empty\n(c"),
        Some(ConfigError::ExpectedEmptyLine)
    );
}

#[test]
fn hidden_embeds_are_flagged() {
    assert!(has_suppressed_embeds(Some(4)));
    assert!(has_suppressed_embeds(Some(4 | 1 | 64)));
    assert!(!has_suppressed_embeds(Some(0)));
    assert!(!has_suppressed_embeds(Some(1 | 2 | 8)));
    assert!(!has_suppressed_embeds(None));
}
