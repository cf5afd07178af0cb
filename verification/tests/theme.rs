use irongen::config::config_file_path;
use irongen::config::parse_config;
use irongen::config::render_selector_args;
use irongen::search::get_app_dirs;

#[test]
fn empty_config_renders_defaults() {
    let cfg = parse_config(&Vec::new());
    let (margin, padding, border, color) = render_selector_args(&cfg);
    assert_eq!(margin, b"--margin=10,20".to_vec());
    assert_eq!(padding, b"--padding=1".to_vec());
    assert_eq!(border, b"--border=rounded".to_vec());
    assert_eq!(
        color,
        b"--color=fg:#636363,bg+:-1,hl:#cccccc,hl+:#ff0055,gutter:-1,query:#00ff6e,prompt:#00ff6e,pointer:#ff0055"
            .to_vec()
    );
}

#[test]
fn config_values_are_trimmed_and_used() {
    let raw = b"# a comment\n  margin : 2,4 \nborder:none\nunknown: zzz\ncolor_fg: #ffffff\n"
        .to_vec();
    let cfg = parse_config(&raw);
    assert_eq!(cfg.margin, Some(b"2,4".to_vec()));
    assert_eq!(cfg.border, Some(b"none".to_vec()));
    assert_eq!(cfg.color_fg, Some(b"#ffffff".to_vec()));
    assert_eq!(cfg.padding, None);
    let (margin, _padding, border, color) = render_selector_args(&cfg);
    assert_eq!(margin, b"--margin=2,4".to_vec());
    assert_eq!(border, b"--border=none".to_vec());
    assert!(color.starts_with(b"--color=fg:#ffffff,"));
}

#[test]
fn later_config_line_overrides_earlier() {
    let cfg = parse_config(&b"padding:1\npadding:7\n".to_vec());
    assert_eq!(cfg.padding, Some(b"7".to_vec()));
}

#[test]
fn comment_lines_are_ignored() {
    let cfg = parse_config(&b"  # padding:9\npadding:3\n".to_vec());
    assert_eq!(cfg.padding, Some(b"3".to_vec()));
}

#[test]
fn config_path_default_under_home() {
    let p = config_file_path(&b"/home/u".to_vec(), &None);
    assert_eq!(p, b"/home/u/.config/irongen/config".to_vec());
}

#[test]
fn config_path_uses_setting_and_trims_slash() {
    let p = config_file_path(&b"/home/u".to_vec(), &Some(b"/cfg/".to_vec()));
    assert_eq!(p, b"/cfg/irongen/config".to_vec());
}

#[test]
fn default_search_path() {
    let dirs = get_app_dirs(&b"/home/u".to_vec(), &None, &None);
    assert_eq!(
        dirs,
        vec![
            b"/usr/local/share/applications".to_vec(),
            b"/usr/share/applications".to_vec(),
            b"/home/u/.local/share/applications".to_vec(),
        ]
    );
}

#[test]
fn search_path_strips_trailing_slashes() {
    let dirs = get_app_dirs(
        &b"/home/u".to_vec(),
        &Some(b"/a/:/b".to_vec()),
        &Some(b"/c//".to_vec()),
    );
    assert_eq!(
        dirs,
        vec![
            b"/a/applications".to_vec(),
            b"/b/applications".to_vec(),
            b"/c/applications".to_vec(),
        ]
    );
}
