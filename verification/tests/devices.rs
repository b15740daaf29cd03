use config_manager::config::{Config, ConfigFile};
use config_manager::dependency::Dependency;
use config_manager::device::{list_devices, remove_device, use_device};

fn text(s: &str) -> String {
    s.to_string()
}

fn entry(name: &str, deps: &[&str]) -> Config {
    Config {
        name: text(name),
        dependencies: deps.iter().map(|d| Dependency(text(d))).collect(),
        symlink: format!("/home/u/.config/{}", name),
        conf_location: format!("/store/dark/{}", name),
        active: true,
    }
}

fn ledger(devices: &[&str]) -> ConfigFile {
    ConfigFile {
        globals: vec![entry("vim", &["fzf"])],
        device_bounds: devices
            .iter()
            .enumerate()
            .map(|(i, d)| (text(d), entry(&format!("c{}", i), &[])))
            .collect(),
    }
}

#[test]
fn list_devices_names_each_device_once() {
    assert_eq!(
        list_devices(&ledger(&["laptop", "laptop", "desk", "desk", "desk", "phone"])),
        vec![text("laptop"), text("desk"), text("phone")]
    );
}

#[test]
fn list_devices_names_a_device_that_comes_back_once() {
    assert_eq!(
        list_devices(&ledger(&["laptop", "desk", "laptop", "laptop"])),
        vec![text("laptop"), text("desk")]
    );
    assert_eq!(list_devices(&ledger(&["a", "b", "a"])), vec![text("a"), text("b")]);
    assert_eq!(
        list_devices(&ledger(&["c", "a", "b", "a", "c", "b", "d"])),
        vec![text("c"), text("a"), text("b"), text("d")]
    );
}

#[test]
fn list_devices_knows_only_devices_with_a_config() {
    let configs = ledger(&["laptop", "desk", "laptop"]);
    let devices = list_devices(&configs);
    for (device, _) in &configs.device_bounds {
        assert_eq!(devices.iter().filter(|d| *d == device).count(), 1);
    }
    assert!(!devices.contains(&text("phone")));
    assert!(!devices.contains(&text("vim")));
}

#[test]
fn list_devices_of_few_bindings() {
    assert_eq!(list_devices(&ledger(&[])), Vec::<String>::new());
    assert_eq!(list_devices(&ledger(&["desk"])), vec![text("desk")]);
    assert_eq!(list_devices(&ledger(&["desk", "desk"])), vec![text("desk")]);
}

#[test]
fn remove_device_drops_its_configs_only() {
    let before = ledger(&["laptop", "desk", "laptop", "phone"]);
    let after = remove_device(before.clone(), &text("laptop"));
    assert_eq!(after.globals, before.globals);
    assert_eq!(
        after.device_bounds,
        vec![before.device_bounds[1].clone(), before.device_bounds[3].clone()]
    );
    assert_eq!(list_devices(&after), vec![text("desk"), text("phone")]);
}

#[test]
fn remove_unknown_device_changes_nothing() {
    let before = ledger(&["laptop", "desk"]);
    assert_eq!(remove_device(before.clone(), &text("phone")), before);
    assert_eq!(remove_device(ConfigFile::default(), &text("phone")), ConfigFile::default());
}

#[test]
fn use_device_lists_what_its_configs_need() {
    let configs = ConfigFile {
        globals: vec![entry("vim", &["fzf"])],
        device_bounds: vec![
            (text("laptop"), entry("sway", &["wl-clipboard", "grim"])),
            (text("desk"), entry("i3", &["xclip"])),
            (text("laptop"), entry("waybar", &[])),
            (text("laptop"), entry("mako", &["libnotify"])),
        ],
    };
    assert_eq!(
        use_device(&configs, &text("laptop")),
        vec![
            Dependency(text("wl-clipboard")),
            Dependency(text("grim")),
            Dependency(text("libnotify")),
        ]
    );
    assert_eq!(use_device(&configs, &text("desk")), vec![Dependency(text("xclip"))]);
    assert_eq!(use_device(&configs, &text("phone")), Vec::<Dependency>::new());
}
