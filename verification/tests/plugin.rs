use maono::plugin::{config_dir, install_dir, join};

fn v(s: &str) -> Option<Vec<u8>> {
    Some(s.as_bytes().to_vec())
}

fn text(p: Option<Vec<u8>>) -> Option<String> {
    p.map(|b| String::from_utf8(b).unwrap())
}

#[test]
fn xdg_config_home_wins() {
    assert_eq!(text(config_dir(&v("/x/cfg"), &v("/home/me"))), Some("/x/cfg".into()));
    assert_eq!(
        text(install_dir(&v("/x/cfg"), &v("/home/me"))),
        Some("/x/cfg/omarchy/plugins/maono".into())
    );
}

#[test]
fn empty_xdg_falls_back_to_home() {
    assert_eq!(text(config_dir(&v(""), &v("/home/me"))), Some("/home/me/.config".into()));
    assert_eq!(
        text(install_dir(&None, &v("/home/me/"))),
        Some("/home/me/.config/omarchy/plugins/maono".into())
    );
}

#[test]
fn neither_variable_set() {
    assert_eq!(config_dir(&None, &None), None);
    assert_eq!(install_dir(&v(""), &v("")), None);
}

#[test]
fn joining_matches_pathbuf() {
    for base in ["/a/b", "/a/b/", "", "rel", "/"] {
        let want = std::path::PathBuf::from(base).join("omarchy");
        let got = String::from_utf8(join(base.as_bytes(), "omarchy")).unwrap();
        assert_eq!(std::path::PathBuf::from(got), want, "{base}");
        assert_eq!(
            String::from_utf8(join(base.as_bytes(), "omarchy")).unwrap(),
            want.to_str().unwrap(),
            "{base}"
        );
    }
}

#[test]
fn non_utf8_paths_pass_through() {
    let odd = Some(vec![0x2F, 0xFF, 0xFE]);
    assert_eq!(config_dir(&odd, &None), odd);
    let mut want = vec![0x2F, 0xFF, 0xFE];
    want.extend_from_slice(b"/omarchy/plugins/maono");
    assert_eq!(install_dir(&odd, &None), Some(want));
}
