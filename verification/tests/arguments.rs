use gpxjoin::{parse_args, Invocation};

fn parse(args: &[&str]) -> Invocation {
    parse_args(&args.iter().map(|arg| arg.as_bytes().to_vec()).collect())
}

#[test]
fn no_arguments_name_no_documents() {
    assert_eq!(parse(&[]), Invocation::Paths(vec![]));
}

#[test]
fn plain_arguments_are_paths_in_order() {
    assert_eq!(parse(&["a.gpx", "b.gpx", "c.gpx"]), Invocation::Paths(vec![0, 1, 2]));
}

#[test]
fn each_usage_flag_asks_for_usage() {
    assert_eq!(parse(&["-h"]), Invocation::Usage);
    assert_eq!(parse(&["--help"]), Invocation::Usage);
    assert_eq!(parse(&["-V"]), Invocation::Usage);
    assert_eq!(parse(&["--version"]), Invocation::Usage);
}

#[test]
fn usage_flag_after_paths_still_asks_for_usage() {
    assert_eq!(parse(&["a.gpx", "b.gpx", "--help"]), Invocation::Usage);
}

#[test]
fn separator_is_left_out_and_ends_the_flags() {
    assert_eq!(parse(&["a.gpx", "--", "-h", "--version"]), Invocation::Paths(vec![0, 2, 3]));
    assert_eq!(parse(&["--", "--help"]), Invocation::Paths(vec![1]));
    assert_eq!(parse(&["--"]), Invocation::Paths(vec![]));
}

#[test]
fn second_separator_is_a_path() {
    assert_eq!(parse(&["--", "--", "a.gpx"]), Invocation::Paths(vec![1, 2]));
}

#[test]
fn usage_flag_before_the_separator_wins() {
    assert_eq!(parse(&["-V", "--", "a.gpx"]), Invocation::Usage);
}

#[test]
fn look_alikes_are_paths() {
    assert_eq!(
        parse(&["-v", "-H", "--Help", "-help", "--versio", "--version=1", "-", "", "---"]),
        Invocation::Paths(vec![0, 1, 2, 3, 4, 5, 6, 7, 8])
    );
}

#[test]
fn arguments_that_are_not_text_are_paths() {
    let args = vec![vec![0xffu8, 0xfeu8], b"--".to_vec(), vec![0x2du8, 0x68u8, 0xffu8]];
    assert_eq!(parse_args(&args), Invocation::Paths(vec![0, 2]));
}
