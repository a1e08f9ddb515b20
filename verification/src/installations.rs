//! The launcher's list of game installations: lookup, registration, removal and edits.
//! Reading and writing the list file is left to the caller.
use vstd::prelude::*;

use crate::search::{first_where, lemma_first_where, lemma_first_where_is};
use crate::text::same_text;

verus! {

/// One game installation known to the launcher.
pub struct Installation {
    pub id: String,
    pub name: String,
    pub version: String,
    pub directory: String,
    pub width: u32,
    pub height: u32,
}

/// The editable fields of an installation.
pub struct InstallationDraft {
    pub name: String,
    pub version: String,
    pub directory: String,
    pub width: u32,
    pub height: u32,
}

/// Why an operation on the installation list was refused.
pub enum InstallationError {
    /// No installation has the given id.
    InstallNotFound(String),
    /// Another installation already uses the directory.
    DirectoryAlreadyExists,
}

impl Clone for Installation {
    fn clone(&self) -> (r: Self)
        ensures
            r == *self,
    {
        Installation {
            id: self.id.clone(),
            name: self.name.clone(),
            version: self.version.clone(),
            directory: self.directory.clone(),
            width: self.width,
            height: self.height,
        }
    }
}

/// An installation with the given id.
pub open spec fn has_id(id: Seq<char>) -> spec_fn(Installation) -> bool {
    |x: Installation| x.id@ == id
}

/// Index of the first installation with the given id, if any.
pub open spec fn first_with_id(list: Seq<Installation>, id: Seq<char>) -> Option<int> {
    first_where(list, has_id(id))
}

/// Whether some installation uses the directory.
pub open spec fn uses_directory(list: Seq<Installation>, dir: Seq<char>) -> bool {
    exists|i: int| 0 <= i < list.len() && list[i].directory@ == dir
}

/// No two installations share a directory.
pub open spec fn directories_distinct(list: Seq<Installation>) -> bool {
    forall|i: int, j: int| 0 <= i < j < list.len() ==> list[i].directory@ != list[j].directory@
}

/// The list without the installations that have the given id, in order.
pub open spec fn without_id(list: Seq<Installation>, id: Seq<char>) -> Seq<Installation> {
    list.filter(|x: Installation| x.id@ != id)
}

/// An installation with the fields of a draft applied.
pub open spec fn applied(old_entry: Installation, data: InstallationDraft) -> Installation {
    Installation {
        id: old_entry.id,
        name: data.name,
        version: data.version,
        directory: data.directory,
        width: data.width,
        height: data.height,
    }
}

fn position_of_id(list: &Vec<Installation>, id: &str) -> (r: Option<usize>)
    ensures
        r matches Some(k) ==> k < list.len() && first_with_id(list@, id@) == Some(k as int),
        r is None ==> first_with_id(list@, id@) is None,
{
    let mut i: usize = 0;
    while i < list.len()
        invariant
            i <= list.len(),
            forall|j: int| 0 <= j < i ==> list@[j].id@ != id@,
        decreases list.len() - i,
    {
        if same_text(list[i].id.as_str(), id) {
            proof {
                lemma_first_where_is(list@, has_id(id@), i as int);
            }
            return Some(i);
        }
        i = i + 1;
    }
    proof {
        lemma_first_where(list@, has_id(id@));
    }
    None
}

/// The first installation with the given id.
pub fn find_by_id(list: Vec<Installation>, id: &str) -> (r: Result<Installation, InstallationError>)
    ensures
        first_with_id(list@, id@) matches Some(k) ==> r == Ok::<Installation, InstallationError>(list@[k]),
        first_with_id(list@, id@) is None ==> (r matches Err(InstallationError::InstallNotFound(s)) && s@ == id@),
{
    match position_of_id(&list, id) {
        Some(k) => Ok(list[k].clone()),
        None => Err(InstallationError::InstallNotFound(String::from_str(id))),
    }
}

/// Appends an installation unless another one already uses its directory.
pub fn register(list: &mut Vec<Installation>, install: Installation) -> (r: Result<(), InstallationError>)
    ensures
        uses_directory(old(list)@, install.directory@) ==> (r matches Err(InstallationError::DirectoryAlreadyExists))
            && final(list)@ == old(list)@,
        !uses_directory(old(list)@, install.directory@) ==> r is Ok && final(list)@ == old(list)@.push(install),
{
    let mut i: usize = 0;
    while i < list.len()
        invariant
            i <= list.len(),
            list@ == old(list)@,
            forall|j: int| 0 <= j < i ==> list@[j].directory@ != install.directory@,
        decreases list.len() - i,
    {
        if same_text(list[i].directory.as_str(), install.directory.as_str()) {
            return Err(InstallationError::DirectoryAlreadyExists);
        }
        i = i + 1;
    }
    list.push(install);
    Ok(())
}

/// Removes every installation with the given id, keeping the others in order.
pub fn unregister(list: &mut Vec<Installation>, install_id: &str)
    ensures
        final(list)@ == without_id(old(list)@, install_id@),
{
    let mut kept: Vec<Installation> = Vec::new();
    let ghost orig = list@;
    let mut i: usize = 0;
    while i < list.len()
        invariant
            list@ == orig,
            i <= list.len(),
            kept@ == without_id(orig.take(i as int), install_id@),
        decreases list.len() - i,
    {
        proof {
            reveal_with_fuel(Seq::filter, 1);
            assert(orig.take(i + 1).drop_last() =~= orig.take(i as int));
        }
        if !same_text(list[i].id.as_str(), install_id) {
            kept.push(list[i].clone());
        }
        i = i + 1;
    }
    assert(orig.take(orig.len() as int) =~= orig);
    *list = kept;
}

/// Applies a draft to the first installation with the given id and returns
/// the edited installation.
pub fn update(list: &mut Vec<Installation>, install_id: &str, data: InstallationDraft) -> (r: Result<Installation, InstallationError>)
    ensures
        first_with_id(old(list)@, install_id@) matches Some(k) ==> {
            &&& final(list)@ == old(list)@.update(k, applied(old(list)@[k], data))
            &&& r == Ok::<Installation, InstallationError>(applied(old(list)@[k], data))
        },
        first_with_id(old(list)@, install_id@) is None ==> final(list)@ == old(list)@
            && (r matches Err(InstallationError::InstallNotFound(s)) && s@ == install_id@),
{
    match position_of_id(list, install_id) {
        None => Err(InstallationError::InstallNotFound(String::from_str(install_id))),
        Some(k) => {
            let id = list[k].id.clone();
            let edited = Installation {
                id,
                name: data.name,
                version: data.version,
                directory: data.directory,
                width: data.width,
                height: data.height,
            };
            let updated = edited.clone();
            list.set(k, edited);
            Ok(updated)
        },
    }
}

/// A registered installation is found again by its id, provided no earlier
/// installation had that id.
pub proof fn law_register_then_find(list: Seq<Installation>, install: Installation)
    requires
        !uses_directory(list, install.directory@),
        first_with_id(list, install.id@) is None,
    ensures
        first_with_id(list.push(install), install.id@) == Some(list.len() as int),
{
    let l2 = list.push(install);
    assert forall|j: int| 0 <= j < list.len() implies l2[j].id@ != install.id@ by {
        assert(l2[j] == list[j]);
    }
    lemma_first_where_is(l2, has_id(install.id@), list.len() as int);
}

/// After an id is unregistered no installation with that id remains.
pub proof fn law_unregister_removes(list: Seq<Installation>, id: Seq<char>)
    ensures
        first_with_id(without_id(list, id), id) is None,
{
    let l2 = without_id(list, id);
    assert forall|i: int| 0 <= i < l2.len() implies l2[i].id@ != id by {
        assert(l2.contains(l2[i]));
    }
}

/// Registration never lets two installations share a directory.
pub proof fn law_register_keeps_directories_distinct(list: Seq<Installation>, install: Installation)
    requires
        directories_distinct(list),
        !uses_directory(list, install.directory@),
    ensures
        directories_distinct(list.push(install)),
{
    let l2 = list.push(install);
    assert forall|i: int, j: int| 0 <= i < j < l2.len() implies l2[i].directory@ != l2[j].directory@ by {
        if j == list.len() {
            assert(l2[i] == list[i]);
        } else {
            assert(l2[i] == list[i] && l2[j] == list[j]);
        }
    }
}

/// An edited installation keeps its id, so it is still the one found by that id,
/// and no other installation changes.
pub proof fn law_update_then_find(list: Seq<Installation>, id: Seq<char>, data: InstallationDraft)
    requires
        first_with_id(list, id) is Some,
    ensures
        ({
            let k = first_with_id(list, id)->0;
            let l2 = list.update(k, applied(list[k], data));
            &&& first_with_id(l2, id) == Some(k)
            &&& l2[k] == applied(list[k], data)
            &&& l2.len() == list.len()
            &&& forall|j: int| 0 <= j < list.len() && j != k ==> l2[j] == list[j]
        }),
{
    lemma_first_where(list, has_id(id));
    let k = first_with_id(list, id)->0;
    let l2 = list.update(k, applied(list[k], data));
    assert forall|j: int| 0 <= j < k implies l2[j].id@ != id by {
        assert(l2[j] == list[j]);
    }
    lemma_first_where_is(l2, has_id(id), k);
}

} // verus!
