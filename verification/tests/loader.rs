use irongen::collect::collect_apps;
use irongen::collect::is_desktop_file;
use irongen::parse::parse_data;

fn files(xs: &[&str]) -> Vec<Vec<u8>> {
    xs.iter().map(|x| x.as_bytes().to_vec()).collect()
}

#[test]
fn single_descriptor_yields_default_desc() {
    let apps = collect_apps(&files(&["Name=Foo\nExec=foo %f\n"]));
    assert_eq!(apps.len(), 1);
    assert_eq!(apps[0].name(), &b"Foo".to_vec());
    assert_eq!(apps[0].desc(), &b"No description available".to_vec());
    assert_eq!(apps[0].cmd(), &b"foo %f".to_vec());
}

#[test]
fn missing_name_or_exec_discarded() {
    let apps = collect_apps(&files(&[
        "Name=OnlyName\n",
        "Exec=only-exec\n",
        "Comment=nothing else\n",
        "Name=Whole\nComment=c\nExec=e\n",
    ]));
    assert_eq!(apps.len(), 1);
    assert_eq!(apps[0].name(), &b"Whole".to_vec());
    assert_eq!(apps[0].desc(), &b"c".to_vec());
    assert_eq!(apps[0].cmd(), &b"e".to_vec());
}

#[test]
fn duplicate_names_keep_one_record() {
    let apps = collect_apps(&files(&[
        "Name=Bar\nExec=bar-one\n",
        "Name=Bar\nExec=bar-two\n",
    ]));
    assert_eq!(apps.len(), 1);
    assert_eq!(apps[0].name(), &b"Bar".to_vec());
}

#[test]
fn output_sorted_ascending_and_unique() {
    let apps = collect_apps(&files(&[
        "Name=zeta\nExec=z\n",
        "Name=Alpha\nExec=a\n",
        "Name=beta\nExec=b\n",
        "Name=Alpha\nExec=a2\n",
        "Name=Beta\nExec=bb\n",
    ]));
    let names: Vec<Vec<u8>> = apps.iter().map(|a| a.name().clone()).collect();
    assert_eq!(
        names,
        vec![
            b"Alpha".to_vec(),
            b"Beta".to_vec(),
            b"beta".to_vec(),
            b"zeta".to_vec(),
        ]
    );
}

#[test]
fn first_match_wins() {
    let app = parse_data(&b"Name=First\nName=Second\nExec=x\n".to_vec()).unwrap();
    assert_eq!(app.name(), &b"First".to_vec());
}

#[test]
fn first_match_wins_across_sections() {
    let raw = b"[Desktop Entry]\nName=A\nExec=e\n[Desktop Action new]\nName=B\nExec=f\n".to_vec();
    let app = parse_data(&raw).unwrap();
    assert_eq!(app.name(), &b"A".to_vec());
    assert_eq!(app.cmd(), &b"e".to_vec());
}

#[test]
fn parse_data_missing_exec_is_err() {
    assert!(parse_data(&b"Name=NoCommand\nComment=c\n".to_vec()).is_err());
}

#[test]
fn parse_data_missing_name_is_err() {
    assert!(parse_data(&b"Exec=run\nComment=c\n".to_vec()).is_err());
}

#[test]
fn crlf_lines_are_handled() {
    let app = parse_data(&b"Name=Win\r\nExec=run\r\n".to_vec()).unwrap();
    assert_eq!(app.name(), &b"Win".to_vec());
    assert_eq!(app.cmd(), &b"run".to_vec());
}

#[test]
fn desktop_file_filter() {
    assert!(is_desktop_file(&b"/usr/share/applications/a.desktop".to_vec()));
    assert!(!is_desktop_file(&b"/usr/share/applications/a.png".to_vec()));
    assert!(!is_desktop_file(&b"short".to_vec()));
}
