use config_manager::config::{Config, ConfigFile};
use config_manager::dependency::DependencyFile;
use config_manager::error::ConfigCliError;
use config_manager::plan::FsAction;
use config_manager::theme::apply::{
    apply_config, change_current_theme, use_theme, Activation, ActivationProgress, ActivationStep,
    SlotState,
};
use config_manager::theme::create::create_theme;
use config_manager::theme::delete::{is_referenced, remove_theme};
use config_manager::theme::list::{list_themes, other_themes, RootEntry};
use config_manager::utils::CurrentTheme;

fn text(s: &str) -> String {
    s.to_string()
}

fn entry(name: &str, active: bool) -> Config {
    Config {
        name: text(name),
        dependencies: vec![],
        symlink: format!("/home/u/.config/{}", name),
        conf_location: format!("/store/dark/{}", name),
        active,
    }
}

fn dark() -> ConfigFile {
    ConfigFile {
        globals: vec![entry("vim", true), entry("zsh", false)],
        device_bounds: vec![
            (text("laptop"), entry("sway", true)),
            (text("desk"), entry("i3", false)),
            (text("laptop"), entry("waybar", false)),
        ],
    }
}

fn root(entries: &[(&str, bool)]) -> Vec<RootEntry> {
    entries.iter().map(|(n, d)| RootEntry { name: text(n), is_dir: *d }).collect()
}

#[test]
fn create_theme_refuses_an_existing_name() {
    for base in [None, Some(text("light"))] {
        let result = create_theme(text("dark"), base, &text("/store/"), true);
        assert_eq!(result, Err(ConfigCliError::ThemeAlreadyExists(text("dark"))));
    }
}

#[test]
fn create_empty_theme_starts_both_ledgers() {
    let plan = create_theme(text("dark"), None, &text("/store/"), false).unwrap();
    assert_eq!(
        plan,
        vec![
            FsAction::CreateDir { path: text("/store/dark") },
            FsAction::CreateFile { path: text("/store/dark/dependencies.toml") },
            FsAction::WriteDependencies {
                path: text("/store/dark/dependencies.toml"),
                ledger: DependencyFile::default(),
            },
            FsAction::CreateFile { path: text("/store/dark/configs.toml") },
            FsAction::WriteConfigs {
                path: text("/store/dark/configs.toml"),
                ledger: ConfigFile::default(),
            },
        ]
    );
}

#[test]
fn create_theme_from_a_base_copies_it() {
    let plan = create_theme(text("dark"), Some(text("light")), &text("/store/"), false).unwrap();
    assert_eq!(
        plan,
        vec![
            FsAction::CreateDir { path: text("/store/dark") },
            FsAction::CopyRecursive { from: text("/store/light"), to: text("/store/dark") },
        ]
    );
}

#[test]
fn list_themes_names_the_directories() {
    let entries = root(&[("dark", true), ("current_theme.toml", false), ("light", true)]);
    assert_eq!(list_themes(entries), vec![text("dark"), text("light")]);
}

#[test]
fn list_themes_of_a_root_without_themes() {
    assert_eq!(list_themes(root(&[])), Vec::<String>::new());
    assert_eq!(list_themes(root(&[("current_theme.toml", false)])), Vec::<String>::new());
}

#[test]
fn other_themes_leaves_one_out() {
    let entries = root(&[("dark", true), ("current_theme.toml", false), ("light", true), ("x", true)]);
    assert_eq!(other_themes(entries.clone(), &text("light")), vec![text("dark"), text("x")]);
    assert_eq!(
        other_themes(entries, &text("none")),
        vec![text("dark"), text("light"), text("x")]
    );
}

#[test]
fn use_theme_needs_the_theme() {
    let result = use_theme(text("dark"), false, None, None);
    assert_eq!(result, Err(ConfigCliError::InvalidThemeName(text("dark"))));
}

#[test]
fn use_theme_applies_the_global_configs() {
    let activation = use_theme(text("dark"), false, None, Some(dark())).unwrap();
    assert_eq!(
        activation,
        Activation {
            theme: text("dark"),
            force: false,
            entries: vec![entry("vim", true), entry("zsh", false)],
        }
    );
}

#[test]
fn use_theme_on_a_device_adds_its_configs() {
    let activation = use_theme(text("dark"), true, Some(text("laptop")), Some(dark())).unwrap();
    assert_eq!(
        activation,
        Activation {
            theme: text("dark"),
            force: true,
            entries: vec![
                entry("vim", true),
                entry("zsh", false),
                entry("sway", true),
                entry("waybar", false),
            ],
        }
    );
    let unknown = use_theme(text("dark"), true, Some(text("phone")), Some(dark())).unwrap();
    assert_eq!(unknown.entries, vec![entry("vim", true), entry("zsh", false)]);
}

#[test]
fn apply_config_copies_to_a_free_place() {
    for force in [false, true] {
        assert_eq!(
            apply_config(&entry("vim", false), force, SlotState::Free),
            Ok(FsAction::CopyRecursive {
                from: text("/store/dark/vim"),
                to: text("/home/u/.config/vim"),
            })
        );
    }
}

#[test]
fn apply_config_refuses_a_taken_place() {
    assert_eq!(
        apply_config(&entry("vim", false), false, SlotState::File),
        Err(ConfigCliError::InvalidConfigLocation(text("/home/u/.config/vim")))
    );
    assert_eq!(
        apply_config(&entry("vim", false), false, SlotState::Directory),
        Err(ConfigCliError::ConfigLocationUsed(text("/home/u/.config/vim")))
    );
}

#[test]
fn apply_config_with_force_overwrites() {
    for slot in [SlotState::File, SlotState::Directory] {
        assert_eq!(
            apply_config(&entry("vim", false), true, slot),
            Ok(FsAction::CopyRecursive {
                from: text("/store/dark/vim"),
                to: text("/home/u/.config/vim"),
            })
        );
    }
}

fn copy_of(name: &str) -> FsAction {
    FsAction::CopyRecursive {
        from: format!("/store/dark/{}", name),
        to: format!("/home/u/.config/{}", name),
    }
}

fn pointer_steps() -> Vec<FsAction> {
    vec![FsAction::WriteCurrentTheme {
        path: text("/store/current_theme.toml"),
        pointer: CurrentTheme { current_theme: text("dark") },
    }]
}

#[test]
fn place_to_look_is_the_place_outside_of_the_next_config() {
    let activation = use_theme(text("dark"), false, None, Some(dark())).unwrap();
    assert_eq!(
        activation.place_to_look(&ActivationProgress::Applied(0)),
        Some(&text("/home/u/.config/vim"))
    );
    assert_eq!(
        activation.place_to_look(&ActivationProgress::Applied(1)),
        Some(&text("/home/u/.config/zsh"))
    );
    assert_eq!(activation.place_to_look(&ActivationProgress::Applied(2)), None);
    assert_eq!(
        activation.place_to_look(&ActivationProgress::Failed(ConfigCliError::CopyError(text("no")))),
        None
    );
}

#[test]
fn steps_apply_the_configs_in_order_and_then_select_the_theme() {
    let activation = use_theme(text("dark"), false, Some(text("laptop")), Some(dark())).unwrap();
    let mut progress = ActivationProgress::Applied(0);
    let mut taken = vec![];
    let last = loop {
        match activation.next_step(&progress, SlotState::Free, &text("/store/"), true) {
            ActivationStep::Apply(step) => {
                progress = activation.after_apply(progress, &step, None);
                taken.push(step);
            }
            other => break other,
        }
    };
    assert_eq!(taken, vec![copy_of("vim"), copy_of("zsh"), copy_of("sway"), copy_of("waybar")]);
    assert_eq!(progress, ActivationProgress::Applied(4));
    assert_eq!(last, ActivationStep::Finish(pointer_steps()));
}

#[test]
fn steps_stop_at_the_first_refusal() {
    let activation = use_theme(text("dark"), false, Some(text("laptop")), Some(dark())).unwrap();
    let slots = [SlotState::Free, SlotState::Directory, SlotState::Free, SlotState::File];
    let mut progress = ActivationProgress::Applied(0);
    let mut taken = vec![];
    let last = loop {
        let found = slots[taken.len()];
        match activation.next_step(&progress, found, &text("/store/"), true) {
            ActivationStep::Apply(step) => {
                progress = activation.after_apply(progress, &step, None);
                taken.push(step);
            }
            other => break other,
        }
    };
    assert_eq!(taken, vec![copy_of("vim")]);
    assert_eq!(
        last,
        ActivationStep::Stop(ConfigCliError::ConfigLocationUsed(text("/home/u/.config/zsh")))
    );
}

#[test]
fn no_step_is_taken_when_the_first_place_is_taken() {
    let activation = use_theme(text("dark"), false, None, Some(dark())).unwrap();
    let first =
        activation.next_step(&ActivationProgress::Applied(0), SlotState::File, &text("/store/"), true);
    assert_eq!(
        first,
        ActivationStep::Stop(ConfigCliError::InvalidConfigLocation(text("/home/u/.config/vim")))
    );
}

#[test]
fn with_force_every_config_is_applied() {
    let activation = use_theme(text("dark"), true, None, Some(dark())).unwrap();
    let first =
        activation.next_step(&ActivationProgress::Applied(0), SlotState::File, &text("/store/"), true);
    assert_eq!(first, ActivationStep::Apply(copy_of("vim")));
    let second = activation.next_step(
        &ActivationProgress::Applied(1),
        SlotState::Directory,
        &text("/store/"),
        true,
    );
    assert_eq!(second, ActivationStep::Apply(copy_of("zsh")));
}

#[test]
fn a_failed_step_ends_the_work() {
    let activation = use_theme(text("dark"), true, None, Some(dark())).unwrap();
    let progress = ActivationProgress::Applied(0);
    let step = match activation.next_step(&progress, SlotState::Free, &text("/store/"), true) {
        ActivationStep::Apply(step) => step,
        other => panic!("expected a step, got {:?}", other),
    };
    let progress = activation.after_apply(progress, &step, Some(text("disk full")));
    assert_eq!(progress, ActivationProgress::Failed(ConfigCliError::CopyError(text("disk full"))));
    assert_eq!(activation.place_to_look(&progress), None);
    for found in [SlotState::Free, SlotState::File, SlotState::Directory] {
        for pointer_exists in [false, true] {
            assert_eq!(
                activation.next_step(&progress, found, &text("/store/"), pointer_exists),
                ActivationStep::Stop(ConfigCliError::CopyError(text("disk full")))
            );
        }
    }
    let still = activation.after_apply(progress.clone(), &step, None);
    assert_eq!(still, progress);
}

#[test]
fn a_theme_without_configs_is_selected_at_once() {
    let activation =
        use_theme(text("dark"), false, None, Some(ConfigFile::default())).unwrap();
    assert_eq!(
        activation.next_step(&ActivationProgress::Applied(0), SlotState::File, &text("/store/"), false),
        ActivationStep::Finish(vec![
            FsAction::CreateFile { path: text("/store/current_theme.toml") },
            FsAction::WriteCurrentTheme {
                path: text("/store/current_theme.toml"),
                pointer: CurrentTheme { current_theme: text("dark") },
            },
        ])
    );
    let past = activation.after_apply(ActivationProgress::Applied(0), &copy_of("vim"), None);
    assert_eq!(past, ActivationProgress::Applied(0));
}

#[test]
fn change_current_theme_writes_the_pointer() {
    assert_eq!(
        change_current_theme(text("dark"), &text("/store/"), true),
        vec![FsAction::WriteCurrentTheme {
            path: text("/store/current_theme.toml"),
            pointer: CurrentTheme { current_theme: text("dark") },
        }]
    );
}

#[test]
fn change_current_theme_creates_a_missing_pointer_file() {
    assert_eq!(
        change_current_theme(text("dark"), &text("/store/"), false),
        vec![
            FsAction::CreateFile { path: text("/store/current_theme.toml") },
            FsAction::WriteCurrentTheme {
                path: text("/store/current_theme.toml"),
                pointer: CurrentTheme { current_theme: text("dark") },
            },
        ]
    );
}

#[test]
fn remove_theme_gives_every_orphan_back() {
    let plan = remove_theme(text("dark"), &text("/store/"), dark(), vec![]);
    assert_eq!(
        plan,
        vec![
            FsAction::Delete { path: text("/home/u/.config/vim") },
            FsAction::CopyRecursive {
                from: text("/store/dark/vim"),
                to: text("/home/u/.config/vim"),
            },
            FsAction::CopyRecursive {
                from: text("/store/dark/zsh"),
                to: text("/home/u/.config/zsh"),
            },
            FsAction::Delete { path: text("/home/u/.config/sway") },
            FsAction::CopyRecursive {
                from: text("/store/dark/sway"),
                to: text("/home/u/.config/sway"),
            },
            FsAction::CopyRecursive { from: text("/store/dark/i3"), to: text("/home/u/.config/i3") },
            FsAction::CopyRecursive {
                from: text("/store/dark/waybar"),
                to: text("/home/u/.config/waybar"),
            },
            FsAction::DeleteRecursive { path: text("/store/dark") },
        ]
    );
}

#[test]
fn remove_theme_leaves_shared_configs_alone() {
    let mut shared = entry("shared", true);
    shared.conf_location = text("/managed/shared");
    let a = ConfigFile { globals: vec![shared.clone()], device_bounds: vec![] };
    let mut in_b = shared.clone();
    in_b.name = text("also");
    in_b.symlink = text("/elsewhere");
    let b = ConfigFile { globals: vec![in_b], device_bounds: vec![] };
    let plan = remove_theme(text("a"), &text("/store/"), a, vec![b]);
    assert_eq!(plan, vec![FsAction::DeleteRecursive { path: text("/store/a") }]);
}

#[test]
fn remove_theme_counts_bound_configs_of_other_themes() {
    let other = ConfigFile {
        globals: vec![],
        device_bounds: vec![(text("desk"), entry("zsh", false))],
    };
    let empty = ConfigFile::default();
    let plan = remove_theme(
        text("dark"),
        &text("/store/"),
        ConfigFile { globals: vec![entry("vim", false), entry("zsh", true)], device_bounds: vec![] },
        vec![empty, other],
    );
    assert_eq!(
        plan,
        vec![
            FsAction::CopyRecursive {
                from: text("/store/dark/vim"),
                to: text("/home/u/.config/vim"),
            },
            FsAction::DeleteRecursive { path: text("/store/dark") },
        ]
    );
}

#[test]
fn remove_empty_theme_deletes_its_directory() {
    let plan = remove_theme(text("dark"), &text("/store/"), ConfigFile::default(), vec![dark()]);
    assert_eq!(plan, vec![FsAction::DeleteRecursive { path: text("/store/dark") }]);
}

#[test]
fn is_referenced_looks_into_every_ledger() {
    let others = vec![ConfigFile::default(), dark()];
    assert!(is_referenced(&others, &text("/store/dark/waybar")));
    assert!(is_referenced(&others, &text("/store/dark/vim")));
    assert!(!is_referenced(&others, &text("/store/dark/emacs")));
    assert!(!is_referenced(&vec![], &text("/store/dark/vim")));
}
