use deskutils::shared::command_candidates;

#[test]
fn command_candidates_follow_path_order() {
    assert_eq!(
        command_candidates("/usr/bin:/bin/", "sh"),
        vec!["/usr/bin/sh", "/bin/sh"]
    );
    assert_eq!(command_candidates("", "sh"), vec!["sh"]);
    assert_eq!(command_candidates("/a::/b", "x"), vec!["/a/x", "x", "/b/x"]);
    assert_eq!(command_candidates("/a", "/abs/x"), vec!["/abs/x"]);
}
