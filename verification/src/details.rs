//! What the launcher shows for one application: tile and details pane.
//!
//! A tile and the details pane show a label and an icon; the details
//! pane also lists the desktop entry's quick actions.  The decisions —
//! which label, which icon fallback, which action caption — are made
//! here on plain values; the widgets that carry them are built outside.

use vstd::prelude::*;

verus! {

/// Why content for an application could not be made.
#[derive(Clone, Copy, Debug, PartialEq, Eq, Structural)]
pub enum LauncherError {
    /// The desktop entry carries no display name.
    MissingDisplayName,
}

/// Which icon a tile or the details pane shows.
#[derive(Clone, Copy, Debug, PartialEq, Eq, Structural)]
pub enum IconChoice {
    /// The application's own icon.
    Provided,
    /// The generic executable icon, used when the application has none.
    DefaultExecutable,
}

/// The icon to show, given whether the application has one of its own.
pub open spec fn icon_choice_spec(has_icon: bool) -> IconChoice {
    if has_icon {
        IconChoice::Provided
    } else {
        IconChoice::DefaultExecutable
    }
}

/// Decide which icon to show.
pub fn icon_choice(has_icon: bool) -> (r: IconChoice)
    ensures
        r == icon_choice_spec(has_icon),
{
    if has_icon {
        IconChoice::Provided
    } else {
        IconChoice::DefaultExecutable
    }
}

/// The label of a launcher tile: the display name, which every listed
/// application must have.
pub fn display_label(name: Option<Vec<u8>>) -> (r: Result<Vec<u8>, LauncherError>)
    ensures
        match name {
            Some(n) => r matches Ok(l) && l@ == n@,
            None => r matches Err(e) && e == LauncherError::MissingDisplayName,
        },
{
    match name {
        Some(n) => Ok(n),
        None => Err(LauncherError::MissingDisplayName),
    }
}

/// One quick action of a desktop entry.
pub struct ActionInfo {
    /// The action's identifier in the desktop entry.
    pub id: Vec<u8>,
    /// The action's human-readable name, if the entry gives one.
    pub display: Option<Vec<u8>>,
}

/// The caption of an action button: the action's name, or its
/// identifier when it has no name.
pub open spec fn action_label_spec(a: ActionInfo) -> Seq<u8> {
    match a.display {
        Some(n) => n@,
        None => a.id@,
    }
}

fn copy_bytes(v: &Vec<u8>) -> (r: Vec<u8>)
    ensures
        r@ == v@,
{
    let mut r: Vec<u8> = Vec::new();
    let mut i: usize = 0;
    while i < v.len()
        invariant
            i <= v@.len(),
            r@ == v@.take(i as int),
        decreases v@.len() - i,
    {
        r.push(v[i]);
        i = i + 1;
        proof {
            assert(r@ =~= v@.take(i as int));
        }
    }
    proof {
        assert(v@.take(v@.len() as int) =~= v@);
    }
    r
}

/// Decide the caption of one action button.
pub fn action_label(a: &ActionInfo) -> (r: Vec<u8>)
    ensures
        r@ == action_label_spec(*a),
{
    match &a.display {
        Some(n) => copy_bytes(n),
        None => copy_bytes(&a.id),
    }
}

/// Everything the details pane shows for one application.
#[derive(Debug)]
pub struct DetailsContent {
    /// The display name, shown under the icon.
    pub label: Vec<u8>,
    /// The icon, or the generic fallback.
    pub icon: IconChoice,
    /// One caption per quick action, in the desktop entry's order.
    pub action_labels: Vec<Vec<u8>>,
}

/// Build the details pane's content for one application.
///
/// Fails exactly when the application has no display name; then the
/// pane is left as it stands and the failure is reported.
pub fn details_content(name: Option<Vec<u8>>, has_icon: bool, actions: &Vec<ActionInfo>) -> (r:
    Result<DetailsContent, LauncherError>)
    ensures
        match name {
            Some(n) => r matches Ok(c) && c.label@ == n@ && c.icon == icon_choice_spec(has_icon)
                && c.action_labels@.len() == actions@.len() && forall|k: int|
                0 <= k < actions@.len() ==> c.action_labels@[k]@ == action_label_spec(actions@[k]),
            None => r matches Err(e) && e == LauncherError::MissingDisplayName,
        },
{
    let label = match display_label(name) {
        Ok(l) => l,
        Err(e) => {
            return Err(e);
        },
    };
    let mut action_labels: Vec<Vec<u8>> = Vec::new();
    let mut i: usize = 0;
    while i < actions.len()
        invariant
            i <= actions@.len(),
            action_labels@.len() == i,
            forall|k: int| 0 <= k < i ==> action_labels@[k]@ == action_label_spec(actions@[k]),
        decreases actions@.len() - i,
    {
        let l = action_label(&actions[i]);
        action_labels.push(l);
        i = i + 1;
    }
    Ok(DetailsContent { label, icon: icon_choice(has_icon), action_labels })
}

/// The identifier at `index` in the filtered list, if the index is in
/// bounds — as when a grid child's position is read back from the
/// widget tree.
pub fn id_at(filtered: &Vec<u64>, index: usize) -> (r: Option<u64>)
    ensures
        match r {
            Some(id) => index < filtered@.len() && id == filtered@[index as int],
            None => index >= filtered@.len(),
        },
{
    if index < filtered.len() {
        Some(filtered[index])
    } else {
        None
    }
}

} // verus!
