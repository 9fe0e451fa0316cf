use launcher::details::{
    action_label, details_content, display_label, icon_choice, id_at, ActionInfo, IconChoice,
    LauncherError,
};

fn b(s: &str) -> Vec<u8> {
    s.as_bytes().to_vec()
}

#[test]
fn label_is_the_display_name() {
    assert_eq!(display_label(Some(b("Files"))), Ok(b("Files")));
}

#[test]
fn missing_display_name_is_an_error() {
    assert_eq!(display_label(None), Err(LauncherError::MissingDisplayName));
}

#[test]
fn icon_falls_back_to_generic_executable() {
    assert_eq!(icon_choice(true), IconChoice::Provided);
    assert_eq!(icon_choice(false), IconChoice::DefaultExecutable);
}

#[test]
fn action_caption_prefers_the_name() {
    let a = ActionInfo {
        id: b("new-window"),
        display: Some(b("New Window")),
    };
    assert_eq!(action_label(&a), b("New Window"));
}

#[test]
fn action_caption_falls_back_to_the_identifier() {
    let a = ActionInfo {
        id: b("new-window"),
        display: None,
    };
    assert_eq!(action_label(&a), b("new-window"));
}

#[test]
fn details_pane_content() {
    let actions = vec![
        ActionInfo {
            id: b("new-window"),
            display: Some(b("New Window")),
        },
        ActionInfo {
            id: b("incognito"),
            display: None,
        },
    ];
    let c = details_content(Some(b("Browser")), false, &actions).unwrap();
    assert_eq!(c.label, b("Browser"));
    assert_eq!(c.icon, IconChoice::DefaultExecutable);
    assert_eq!(c.action_labels, vec![b("New Window"), b("incognito")]);
}

#[test]
fn details_pane_needs_a_name() {
    let actions: Vec<ActionInfo> = Vec::new();
    assert_eq!(
        details_content(None, true, &actions).unwrap_err(),
        LauncherError::MissingDisplayName
    );
}

#[test]
fn id_lookup_checks_bounds() {
    let filtered: Vec<u64> = vec![7, 8, 9];
    assert_eq!(id_at(&filtered, 0), Some(7));
    assert_eq!(id_at(&filtered, 2), Some(9));
    assert_eq!(id_at(&filtered, 3), None);
}
