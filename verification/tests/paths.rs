use srt_translate::paths::{checkpoint_path, join_stem, output_path, parse_filename_ext};

#[test]
fn file_name_with_directory() {
    assert_eq!(
        parse_filename_ext("videos/season1/episode.srt"),
        (String::from("videos/season1/episode"), String::from("srt"))
    );
}

#[test]
fn file_name_without_directory() {
    assert_eq!(parse_filename_ext("episode.srt"), (String::from("episode"), String::from("srt")));
}

#[test]
fn file_name_without_extension() {
    assert_eq!(parse_filename_ext("dir/episode"), (String::from("dir/episode"), String::new()));
    assert_eq!(parse_filename_ext("episode"), (String::from("episode"), String::new()));
}

#[test]
fn file_name_with_two_dots() {
    assert_eq!(
        parse_filename_ext("a/movie.en.srt"),
        (String::from("a/movie.en"), String::from("srt"))
    );
}

#[test]
fn empty_file_name() {
    assert_eq!(parse_filename_ext(""), (String::new(), String::new()));
}

#[test]
fn join_stem_leaves_out_an_empty_directory() {
    assert_eq!(join_stem(String::new(), String::from("name")), "name");
    assert_eq!(join_stem(String::from("dir"), String::from("name")), "dir/name");
    assert_eq!(join_stem(String::from("dir"), String::new()), "dir/");
}

#[test]
fn checkpoint_path_is_derived_from_the_output() {
    assert_eq!(checkpoint_path("videos/episode", "srt"), "videos/episode.srt.temp");
    assert_eq!(checkpoint_path("episode", ""), "episode..temp");
    assert_eq!(checkpoint_path("videos/episode", "srt"), checkpoint_path("videos/episode", "srt"));
}

#[test]
fn output_path_is_marked_as_translated() {
    assert_eq!(output_path("videos/episode", "srt"), "videos/episode-translate.srt");
    assert_eq!(output_path("", ""), "-translate.");
}
