use cc_switch::droid::{clear_factory_api_key_env, get_droid_api_key_path, set_factory_api_key_env};

const BLOCK: &str = "# CC-Switch Droid Config Start\nexport Factory_API_Key=\"k1\"\n# CC-Switch Droid Config End";

#[test]
fn set_appends_block_after_trimmed_text() {
    let out = set_factory_api_key_env("alias ll=ls\n\n  ", "k1");
    assert_eq!(out, format!("alias ll=ls\n\n{}\n", BLOCK));
}

#[test]
fn set_replaces_existing_block() {
    let text = format!("a\n\n{}\nb\n", BLOCK);
    let out = set_factory_api_key_env(&text, "k$2");
    assert_eq!(
        out,
        "a\n\n# CC-Switch Droid Config Start\nexport Factory_API_Key=\"k$2\"\n# CC-Switch Droid Config End\nb\n"
    );
    assert_eq!(set_factory_api_key_env(&out, "k$2"), out);
}

#[test]
fn clear_removes_block_and_surrounding_breaks() {
    let text = format!("a\n\n{}\nb\n", BLOCK);
    assert_eq!(clear_factory_api_key_env(&text), "ab\n");
    assert_eq!(clear_factory_api_key_env("plain\n"), "plain\n");
}

#[test]
fn api_key_path_joins_directory() {
    assert_eq!(get_droid_api_key_path("/home/u/.droid"), "/home/u/.droid/api_key.txt");
    assert_eq!(get_droid_api_key_path("/home/u/.droid/"), "/home/u/.droid/api_key.txt");
    assert_eq!(get_droid_api_key_path(""), "api_key.txt");
}

#[test]
fn block_without_closing_marker_is_left_alone() {
    let text = "x\n# CC-Switch Droid Config Start\ny\n";
    assert_eq!(set_factory_api_key_env(text, "k"), text);
    assert_eq!(clear_factory_api_key_env(text), text);
}

#[test]
fn set_then_clear_restores_trimmed_text() {
    let set = set_factory_api_key_env("export A=1\n", "k1");
    assert_eq!(clear_factory_api_key_env(&set), "export A=1");
}
