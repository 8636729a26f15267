use hidebox::config::{cache_dir, conf_path, config, db_path, init, save, Config};

#[test]
fn config_paths_are_joined_under_the_platform_dirs() {
    let conf = init("/home/u/.config/hidebox", "/home/u/.local/share/hidebox");
    assert_eq!(conf_path(&conf), "/home/u/.config/hidebox/hidebox.conf");
    assert_eq!(db_path(&conf), "/home/u/.local/share/hidebox/hidebox.db");
    assert_eq!(cache_dir(&conf), "/home/u/.local/share/hidebox/cache");
}

#[test]
fn config_paths_keep_a_single_separator() {
    let conf = init("/etc/hidebox/", "C:\\data\\");
    assert_eq!(conf_path(&conf), "/etc/hidebox/hidebox.conf");
    assert_eq!(db_path(&conf), "C:\\data\\hidebox.db");
    let bare = init("", "");
    assert_eq!(conf_path(&bare), "hidebox.conf");
    assert_eq!(cache_dir(&bare), "cache");
}

#[test]
fn config_copy_and_save() {
    let mut store = init("a", "b");
    let copy = config(&store);
    assert_eq!(copy.config_path, store.config_path);
    let other = Config {
        config_path: "x.conf".to_string(),
        db_path: "x.db".to_string(),
        cache_dir: "x-cache".to_string(),
    };
    save(&mut store, other);
    assert_eq!(conf_path(&store), "x.conf");
    assert_eq!(db_path(&store), "x.db");
    assert_eq!(cache_dir(&store), "x-cache");
}
