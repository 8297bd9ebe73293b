use energy::config::{
    parse_color_space, parse_component_convert_lab_to_rgb, parse_function, parse_mode, ColorSpace,
    Config, Error, Function, Mode,
};
use energy::process::{has_file_name, last_index, new_path, process, PathKind};
use std::path::PathBuf;

fn words(list: &[&str]) -> Vec<String> {
    list.iter().map(|w| w.to_string()).collect()
}

fn some(word: &str) -> Option<String> {
    Some(word.to_string())
}

#[test]
fn function_argument() {
    assert_eq!(parse_function(some("alpha")), Function::EnergyAsAlpha);
    assert_eq!(parse_function(some("fillavg")), Function::FillAvgColor);
    assert_eq!(parse_function(some("energy")), Function::Energy);
    assert_eq!(parse_function(some("Alpha")), Function::Energy);
    assert_eq!(parse_function(some("")), Function::Energy);
    assert_eq!(parse_function(None), Function::Energy);
}

#[test]
fn mode_argument() {
    assert_eq!(parse_mode(some("component")), Mode::Component);
    assert_eq!(parse_mode(some("combined")), Mode::Combined);
    assert_eq!(parse_mode(some("components")), Mode::Combined);
    assert_eq!(parse_mode(None), Mode::Combined);
}

#[test]
fn color_space_argument() {
    assert_eq!(parse_color_space(some("rgb")), ColorSpace::RGB);
    assert_eq!(parse_color_space(some("lab")), ColorSpace::LAB);
    assert_eq!(parse_color_space(some("RGB")), ColorSpace::LAB);
    assert_eq!(parse_color_space(None), ColorSpace::LAB);
}

#[test]
fn convert_argument() {
    assert!(parse_component_convert_lab_to_rgb(some("yes")));
    assert!(!parse_component_convert_lab_to_rgb(some("no")));
    assert!(!parse_component_convert_lab_to_rgb(some("y")));
    assert!(!parse_component_convert_lab_to_rgb(None));
}

#[test]
fn channels_of_each_mode() {
    assert_eq!(Mode::Component.channels(), 3);
    assert_eq!(Mode::Combined.channels(), 1);
}

#[test]
fn settings_need_a_path() {
    assert_eq!(Config::new(&words(&[])).err(), Some(Error::MissingPath));
    assert_eq!(Config::new(&words(&["energy"])).err(), Some(Error::MissingPath));
}

#[test]
fn settings_fall_back_to_defaults() {
    let config = Config::new(&words(&["energy", "pictures/cat.jpg"])).unwrap();
    assert_eq!(config.path, "pictures/cat.jpg");
    assert_eq!(config.gamma, None);
    assert_eq!(config.function, Function::Energy);
    assert_eq!(config.mode, Mode::Combined);
    assert_eq!(config.color_space, ColorSpace::LAB);
    assert!(!config.convert_lab_to_rgb);
}

#[test]
fn settings_are_read_in_order() {
    let config = Config::new(
        &words(&["energy", "cat.jpg", "2.2", "alpha", "component", "rgb", "yes", "more"]),
    ).unwrap();
    assert_eq!(config.path, "cat.jpg");
    assert_eq!(config.gamma, some("2.2"));
    assert_eq!(config.function, Function::EnergyAsAlpha);
    assert_eq!(config.mode, Mode::Component);
    assert_eq!(config.color_space, ColorSpace::RGB);
    assert!(config.convert_lab_to_rgb);
}

#[test]
fn settings_ignore_what_they_do_not_understand() {
    let config = Config::new(&words(&["energy", "cat.jpg", "much", "?", "?", "?", "?"])).unwrap();
    assert_eq!(config.gamma, some("much"));
    assert_eq!(config.function, Function::Energy);
    assert_eq!(config.mode, Mode::Combined);
    assert_eq!(config.color_space, ColorSpace::LAB);
    assert!(!config.convert_lab_to_rgb);
}

#[test]
fn error_texts() {
    assert_eq!(Error::MissingPath.message(), "Path not found");
    assert_eq!(Error::NotFileOrDirectory.message(), "path is not a directory or a file");
    assert_eq!(Error::DirectoryNotSupported.message(), "directories are not supported");
    assert_eq!(Error::FunctionNotSupported.message(), "function is not supported");
    assert_eq!(Error::NoFileName.message(), "path has no file name");
}

#[test]
fn last_position_of_a_character() {
    assert_eq!(last_index("a/b/c", '/'), Some(3));
    assert_eq!(last_index("/abc", '/'), Some(0));
    assert_eq!(last_index("abc", '/'), None);
    assert_eq!(last_index("", '/'), None);
    assert_eq!(last_index("é.ü.x", '.'), Some(3));
}

#[test]
fn paths_that_name_a_file() {
    assert!(has_file_name("cat.jpg"));
    assert!(has_file_name("a/b/cat"));
    assert!(has_file_name("/cat.jpg"));
    assert!(has_file_name("a/.hidden"));
    assert!(has_file_name("a/..."));
    assert!(!has_file_name(""));
    assert!(!has_file_name("a/"));
    assert!(!has_file_name("/"));
    assert!(!has_file_name("."));
    assert!(!has_file_name(".."));
    assert!(!has_file_name("a/."));
    assert!(!has_file_name("a/.."));
}

#[test]
fn picture_is_named_after_the_image() {
    assert_eq!(new_path("pictures/cat.jpg"), "pictures/cat energy.png");
    assert_eq!(new_path("cat.jpg"), "cat energy.png");
    assert_eq!(new_path("/cat.jpg"), "/cat energy.png");
    assert_eq!(new_path("a.b/cat"), "a.b/cat energy.png");
    assert_eq!(new_path("a/cat.tar.gz"), "a/cat.tar energy.png");
    assert_eq!(new_path("a/.hidden"), "a/.hidden energy.png");
    assert_eq!(new_path("a/cat."), "a/cat energy.png");
    assert_eq!(new_path("a/..cat"), "a/. energy.png");
    assert_eq!(new_path("bilder/grün.jpeg"), "bilder/grün energy.png");
}

#[test]
fn picture_name_agrees_with_the_standard_library() {
    for path in ["pictures/cat.jpg", "cat.jpg", "/cat.jpg", "a.b/cat", "a/cat.tar.gz", "a/.hidden", "a/cat.", "a/..cat", "x/y/z.png"] {
        let given = PathBuf::from(path);
        let mut expected = given.clone();
        expected.set_file_name(format!("{} energy.png", given.file_stem().unwrap().to_str().unwrap()));
        assert_eq!(PathBuf::from(new_path(path)), expected);
    }
}

fn settings(path: &str, function: &str) -> Config {
    Config::new(&words(&["energy", path, "3", function, "component", "rgb", "yes"])).unwrap()
}

#[test]
fn task_for_a_file() {
    let task = process(&settings("in/cat.jpg", "energy"), PathKind::File).unwrap();
    assert_eq!(task.source, "in/cat.jpg");
    assert_eq!(task.target, "in/cat energy.png");
    assert_eq!(task.mode, Mode::Component);
    assert_eq!(task.color_space, ColorSpace::RGB);
    assert!(task.convert_lab_to_rgb);
}

#[test]
fn directories_are_refused() {
    assert_eq!(process(&settings("in", "energy"), PathKind::Directory).err(), Some(Error::DirectoryNotSupported));
    assert_eq!(process(&settings("in", "alpha"), PathKind::Directory).err(), Some(Error::DirectoryNotSupported));
}

#[test]
fn other_paths_are_refused() {
    assert_eq!(process(&settings("nowhere", "energy"), PathKind::Other).err(), Some(Error::NotFileOrDirectory));
}

#[test]
fn other_functions_are_refused() {
    assert_eq!(process(&settings("cat.jpg", "alpha"), PathKind::File).err(), Some(Error::FunctionNotSupported));
    assert_eq!(process(&settings("cat.jpg", "fillavg"), PathKind::File).err(), Some(Error::FunctionNotSupported));
}

#[test]
fn file_without_a_name_is_refused() {
    assert_eq!(process(&settings("in/..", "energy"), PathKind::File).err(), Some(Error::NoFileName));
    assert_eq!(process(&settings("", "energy"), PathKind::File).err(), Some(Error::NoFileName));
}
