//! Asking the user under which name an image is to be saved.
use vstd::prelude::*;
use crate::status::DriveStatus;

verus! {

/// What becomes of the settings of a drive when the screen is refreshed. `Text` is `String` in
/// programs and `Seq<char>` in contracts.
#[derive(Debug, PartialEq)]
pub struct NameRefresh<Text = String> {
    /// What the drive is doing from then on, if that changes.
    pub status: Option<DriveStatus<Text>>,
    /// Whether the user is asked if the file that exists is to be overwritten.
    pub confirm: bool,
    /// Whether the name can be edited.
    pub editable: bool,
}

/// What `status` is, where it changes.
pub open spec fn status_view(status: Option<DriveStatus>) -> Option<DriveStatus<Seq<char>>> {
    match status {
        Some(status) => Some(status@),
        None => None,
    }
}

impl View for NameRefresh<String> {
    type V = NameRefresh<Seq<char>>;

    open spec fn view(&self) -> NameRefresh<Seq<char>> {
        NameRefresh {
            status: status_view(self.status),
            confirm: self.confirm,
            editable: self.editable,
        }
    }
}

/// What becomes of the settings of a drive when the screen is refreshed: `ready` is whether the box
/// for finished settings is checked, `path` the name in the text box, and `exists` whether there is
/// a file of that name.
pub open spec fn name_refreshed(
    status: DriveStatus<Seq<char>>,
    ready: bool,
    path: Seq<char>,
    exists: bool,
) -> NameRefresh<Seq<char>> {
    let asked = status is WaitingForName && ready;
    NameRefresh {
        status: if !asked {
            None
        } else if exists {
            Some(DriveStatus::ConfirmingName)
        } else {
            Some(DriveStatus::Saving(path))
        },
        confirm: asked && exists,
        editable: !ready,
    }
}

/// `status`, or what it changes to.
pub open spec fn status_after(
    status: DriveStatus<Seq<char>>,
    change: Option<DriveStatus<Seq<char>>>,
) -> DriveStatus<Seq<char>> {
    match change {
        Some(next) => next,
        None => status,
    }
}

/// What becomes of the settings when the user answers whether to overwrite a file: what the drive
/// is doing from then on, and whether the box for finished settings is unchecked.
pub open spec fn overwrite_answered(yes: bool, path: Seq<char>) -> (DriveStatus<Seq<char>>, bool) {
    if yes {
        (DriveStatus::Saving(path), false)
    } else {
        (DriveStatus::WaitingForName, true)
    }
}

/// Whether a name is to be settled on: the drive waits for one, and the settings are ready.
pub open spec fn settles_name(status: DriveStatus<Seq<char>>, ready: bool) -> bool {
    status is WaitingForName && ready
}

/// Tells whether it matters to `refresh_name` if there is a file of the given name.
pub fn name_is_asked(status: &DriveStatus, ready: bool) -> (r: bool)
    ensures
        r == settles_name(status@, ready),
        r == (status@ is WaitingForName && ready),
{
    match status {
        DriveStatus::WaitingForName => ready,
        _ => false,
    }
}

/// Decides what becomes of the settings of a drive when the screen is refreshed. Where
/// `name_is_asked` does not hold, `path` and `exists` do not matter.
pub fn refresh_name(status: &DriveStatus, ready: bool, path: String, exists: bool) -> (r:
    NameRefresh)
    ensures
        r@ == name_refreshed(status@, ready, path@, exists),
{
    if !name_is_asked(status, ready) {
        NameRefresh { status: None, confirm: false, editable: !ready }
    } else if exists {
        NameRefresh {
            status: Some(DriveStatus::ConfirmingName),
            confirm: true,
            editable: !ready,
        }
    } else {
        NameRefresh { status: Some(DriveStatus::Saving(path)), confirm: false, editable: !ready }
    }
}

/// Decides what becomes of the settings when the user answers whether to overwrite the file `path`:
/// what the drive is doing from then on, and whether the box for finished settings is unchecked.
pub fn answer_overwrite(yes: bool, path: String) -> (r: (DriveStatus, bool))
    ensures
        (r.0@, r.1) == overwrite_answered(yes, path@),
{
    if yes {
        (DriveStatus::Saving(path), false)
    } else {
        (DriveStatus::WaitingForName, true)
    }
}

/// Whether `statuses` are what a drive is doing as the screen is refreshed, over and over, and the
/// user gives no answer. Each refresh finds whether the settings are ready, the name, and whether
/// there is a file of that name.
pub open spec fn is_refreshing(
    found: Seq<(bool, Seq<char>, bool)>,
    statuses: Seq<DriveStatus<Seq<char>>>,
) -> bool {
    &&& statuses.len() == found.len() + 1
    &&& forall|i: int|
        #![trigger found[i]]
        0 <= i < found.len() ==> statuses[i + 1] == status_after(
            statuses[i],
            name_refreshed(statuses[i], found[i].0, found[i].1, found[i].2).status,
        )
}

/// Whether the refresh at `i` asks the user whether to overwrite a file.
pub open spec fn asks_at(
    found: Seq<(bool, Seq<char>, bool)>,
    statuses: Seq<DriveStatus<Seq<char>>>,
    i: int,
) -> bool {
    name_refreshed(statuses[i], found[i].0, found[i].1, found[i].2).confirm
}

/// However often the screen is refreshed, the user is asked at most once whether to overwrite a
/// file; from then on, until there is an answer, the name stays to be confirmed.
pub proof fn law_overwrite_is_asked_once(
    found: Seq<(bool, Seq<char>, bool)>,
    statuses: Seq<DriveStatus<Seq<char>>>,
    i: int,
    k: int,
)
    requires
        is_refreshing(found, statuses),
        0 <= i < k <= found.len(),
        asks_at(found, statuses, i),
    ensures
        statuses[k] == DriveStatus::<Seq<char>>::ConfirmingName,
        k < found.len() ==> !asks_at(found, statuses, k),
    decreases k,
{
    let before = k - 1;
    assert(statuses[before + 1] == status_after(
        statuses[before],
        name_refreshed(
            statuses[before],
            found[before].0,
            found[before].1,
            found[before].2,
        ).status,
    ));
    if before > i {
        law_overwrite_is_asked_once(found, statuses, i, before);
    }
}

/// A refresh changes nothing but a drive that waits for a name, and that only when the settings are
/// ready; and it lets a name be saved only if there is no file of that name.
pub proof fn law_refresh_never_overwrites(
    status: DriveStatus<Seq<char>>,
    ready: bool,
    path: Seq<char>,
    exists: bool,
)
    ensures
        !(status is WaitingForName && ready) ==> status_after(
            status,
            name_refreshed(status, ready, path, exists).status,
        ) == status,
        name_refreshed(status, ready, path, exists).status is Some && exists ==> name_refreshed(
            status,
            ready,
            path,
            exists,
        ).confirm && !(name_refreshed(status, ready, path, exists).status->0 is Saving),
{
}

/// Refusing to overwrite takes the drive back to waiting for a name, with the box unchecked: the
/// next refresh lets the name be edited and saves nothing.
pub proof fn law_refusal_goes_back(path: Seq<char>, path_later: Seq<char>, exists_later: bool)
    ensures
        ({
            let (status, unchecked) = overwrite_answered(false, path);
            let next = name_refreshed(status, !unchecked, path_later, exists_later);
            &&& status == DriveStatus::<Seq<char>>::WaitingForName
            &&& next.status is None
            &&& !next.confirm
            &&& next.editable
        }),
{
}

/// A refresh settles on a name exactly where the drive waits for one and the settings are ready: a
/// name that no file has is to be saved as it stands in the text box, and for one that a file has
/// the user is asked, and the drive then waits for the answer. Else it changes nothing and asks
/// nothing. The name can be edited exactly while the settings are not ready.
pub proof fn law_refresh_settles_on_the_name(
    status: DriveStatus<Seq<char>>,
    ready: bool,
    path: Seq<char>,
    exists: bool,
    name: Seq<char>,
)
    ensures
        ({
            let next = name_refreshed(status, ready, path, exists);
            let settles = status == DriveStatus::<Seq<char>>::WaitingForName && ready;
            &&& next.status == Some(DriveStatus::Saving(name)) <==> settles && !exists && name
                == path
            &&& next.status == Some(DriveStatus::<Seq<char>>::ConfirmingName) <==> settles && exists
            &&& next.status is None <==> !settles
            &&& next.confirm <==> settles && exists
            &&& next.editable <==> !ready
        }),
{
}

/// The name in the text box and the files that there are matter exactly where a name is to be settled
/// on.
pub proof fn law_name_matters_only_when_asked(
    status: DriveStatus<Seq<char>>,
    ready: bool,
    path: Seq<char>,
    exists: bool,
    other_path: Seq<char>,
    other_exists: bool,
)
    ensures
        !settles_name(status, ready) ==> name_refreshed(status, ready, path, exists)
            == name_refreshed(status, ready, other_path, other_exists),
        settles_name(status, ready) ==> name_refreshed(status, ready, path, true)
            != name_refreshed(status, ready, path, false),
{
}

/// The answer of the user is followed: a file that is to be overwritten is saved under its name, and
/// the box stays checked; one that is not to be overwritten sends the drive back to waiting for a
/// name, and the box is unchecked.
pub proof fn law_answer_is_followed(yes: bool, path: Seq<char>, name: Seq<char>)
    ensures
        ({
            let (status, unchecked) = overwrite_answered(yes, path);
            &&& status == DriveStatus::Saving(name) <==> yes && name == path
            &&& status == DriveStatus::<Seq<char>>::WaitingForName <==> !yes
            &&& unchecked <==> !yes
        }),
{
}

/// Contracts see a refresh as it is.
pub proof fn law_refresh_is_seen_as_it_is(refresh: NameRefresh)
    ensures
        refresh@.confirm == refresh.confirm,
        refresh@.editable == refresh.editable,
        match refresh.status {
            Some(status) => refresh@.status == Some(status@),
            None => refresh@.status is None,
        },
{
}

} // verus!
