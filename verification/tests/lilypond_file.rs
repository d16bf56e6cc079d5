use copland::container::Container;
use copland::duration::Duration;
use copland::lilypond_file::{absolute_source_path, version_token, File};
use copland::rest::Rest;

#[test]
fn file_new() {
    let rest = Rest::new(Duration::new(1, 4)).unwrap();

    let container = Container::new(vec![rest.into()]);

    let file = File::new(container.into());

    assert_eq!(file.source_path, None);
    assert_eq!(file.output_path, None);
}

#[test]
fn file_text() {
    let rest = Rest::new(Duration::new(1, 4)).unwrap();
    let container = Container::new(vec![rest.into()]);
    let file = File::new(container.into());

    assert_eq!(
        file.file_text("2.24.0"),
        "\\version \"2.24.0\"\n\\language \"english\"\n\n{\n  r4\n}"
    );
}

#[test]
fn version_token_from_banner() {
    assert_eq!(
        version_token("GNU LilyPond 2.24.0 (running Guile 2.2)"),
        Some("2.24.0".to_string())
    );
    assert_eq!(version_token("no digits in sight"), None);
}

#[test]
fn absolute_source_paths_are_cleaned() {
    assert_eq!(absolute_source_path("/home/someone", "test.ly"), "/home/someone/test.ly");
    assert_eq!(absolute_source_path("/home/someone", "a/./b/../test.ly"), "/home/someone/a/test.ly");
    assert_eq!(absolute_source_path("/home/someone", "/scores//test.ly"), "/scores/test.ly");
}
