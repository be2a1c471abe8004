use std::path::PathBuf;

use rollcall::paths::sort_paths;

#[test]
fn paths_are_ordered_part_by_part() {
    let paths: Vec<String> = [
        "/etc/ssh/b.conf",
        "/etc/ssh-extra/a.conf",
        "/etc/ssh/a/z.conf",
        "/etc/ssh/a.conf",
        "relative",
        "./here",
        "../above",
        "/etc/./ssh//a.conf",
        "/",
        "",
        "/etc/ssh/-first",
        "/etc/ssh/../up",
    ]
    .into_iter()
    .map(str::to_owned)
    .collect();
    let mut expected: Vec<PathBuf> = paths.iter().map(PathBuf::from).collect();
    expected.sort();
    let expected: Vec<String> = expected
        .iter()
        .map(|path| path.to_string_lossy().into_owned())
        .collect();
    assert_eq!(sort_paths(&paths), expected);
    let position = |path: &str| expected.iter().position(|other| other == path);
    assert!(position("/etc/ssh/b.conf") < position("/etc/ssh-extra/a.conf"));
}
