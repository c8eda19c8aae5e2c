use ofl::paths::dec_string;
use ofl::paths::file_stem;
use ofl::paths::render_dir_path;
use ofl::paths::render_file_path;
use ofl::paths::OutFileName;

#[test]
fn dec_string_renders_decimal() {
    assert_eq!(dec_string(0), "0");
    assert_eq!(dec_string(7), "7");
    assert_eq!(dec_string(10), "10");
    assert_eq!(dec_string(123456), "123456");
    assert_eq!(dec_string(usize::MAX), format!("{}", usize::MAX));
}

#[test]
fn render_dir_path_joins_segments() {
    assert_eq!(render_dir_path(&vec![]), "");
    assert_eq!(render_dir_path(&vec![3]), "3");
    assert_eq!(render_dir_path(&vec![3, 0]), "3/0");
    assert_eq!(render_dir_path(&vec![10, 2, 0]), "10/2/0");
}

#[test]
fn render_file_path_appends_fixed_names() {
    assert_eq!(render_file_path(&vec![], OutFileName::HeaderJson), "header.json");
    assert_eq!(render_file_path(&vec![0], OutFileName::TagJson), "0/tag.json");
    assert_eq!(render_file_path(&vec![0, 0], OutFileName::TagJson), "0/0/tag.json");
    assert_eq!(render_file_path(&vec![0, 0], OutFileName::MainAvm1), "0/0/main.avm1");
    assert_eq!(render_file_path(&vec![0, 0], OutFileName::MainCfgJson), "0/0/main.cfg.json");
    assert_eq!(render_file_path(&vec![12], OutFileName::MainAvm1), "12/main.avm1");
}

#[test]
fn file_stem_cuts_the_last_suffix() {
    assert_eq!(file_stem(&b"squares.swf".to_vec()), b"squares".to_vec());
    assert_eq!(file_stem(&b"a.b.c".to_vec()), b"a.b".to_vec());
    assert_eq!(file_stem(&b"plain".to_vec()), b"plain".to_vec());
    assert_eq!(file_stem(&b"trailing.".to_vec()), b"trailing".to_vec());
}

#[test]
fn file_stem_keeps_a_lone_leading_dot() {
    assert_eq!(file_stem(&b".swf".to_vec()), b".swf".to_vec());
    assert_eq!(file_stem(&b".config.old".to_vec()), b".config".to_vec());
    assert_eq!(file_stem(&b"".to_vec()), b"".to_vec());
}
