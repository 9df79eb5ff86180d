use bast3st::evaluation::initial_ids::assign_ids;
use bast3st::spec::text::Text;

fn t(s: &str) -> Text {
    Text(s.to_string())
}

fn names(v: &[&str]) -> Vec<Text> {
    v.iter().map(|s| t(s)).collect()
}

fn shown(v: &[Text]) -> Vec<String> {
    v.iter().map(|x| x.0.clone()).collect()
}

#[test]
fn known_names_keep_their_ids_and_new_ones_skip_taken_ids() {
    let project = vec![(t("score"), t("abc")), (t("x"), t("id1"))];
    let mut counter = 0u64;
    let ids = assign_ids(&names(&["n", "score", "m"]), &project, &mut counter);
    assert_eq!(shown(&ids), vec!["id2", "abc", "id3"]);
    assert_eq!(counter, 3);
}

#[test]
fn counter_goes_on_between_calls() {
    let project = vec![(t("a"), t("id5"))];
    let mut counter = 3u64;
    let first = assign_ids(&names(&["v"]), &project, &mut counter);
    assert_eq!(shown(&first), vec!["id4"]);
    let second = assign_ids(&names(&["w"]), &project, &mut counter);
    assert_eq!(shown(&second), vec!["id6"]);
    assert_eq!(counter, 6);
}

#[test]
fn no_names_no_ids() {
    let mut counter = 7u64;
    assert!(assign_ids(&names(&[]), &vec![], &mut counter).is_empty());
    assert_eq!(counter, 7);
}
