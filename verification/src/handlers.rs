use vstd::prelude::*;

use crate::names::{create_new_file, generated_name};
use crate::outcome::ResponseOutcome;
use crate::store::FileStore;

verus! {

/// Remove the named entry. Success is an empty OK; an absent name (the
/// store's only failure) is the not-found outcome, and the store is then
/// unchanged.
pub fn delete_file(store: &mut FileStore, filename: &String) -> (r: ResponseOutcome)
    requires
        old(store).wf(),
    ensures
        final(store).wf(),
        old(store)@.dom().contains(filename@) ==> r == ResponseOutcome::OkEmpty && final(store)@
            == old(store)@.remove(filename@),
        !old(store)@.dom().contains(filename@) ==> r == ResponseOutcome::NotFound && final(store)@
            == old(store)@,
{
    if store.delete(filename) {
        ResponseOutcome::OkEmpty
    } else {
        ResponseOutcome::NotFound
    }
}

/// Read the named entry whole. Success carries exactly the stored bytes;
/// an absent name yields the not-found outcome. The store never changes.
pub fn download_file(store: &FileStore, filename: &String) -> (r: ResponseOutcome)
    requires
        store.wf(),
    ensures
        store@.dom().contains(filename@) ==> (r matches ResponseOutcome::OkBytes(contents)
            && contents@ == store@[filename@]),
        !store@.dom().contains(filename@) ==> r == ResponseOutcome::NotFound,
{
    match store.read_file_contents(filename) {
        Some(contents) => ResponseOutcome::OkBytes(contents),
        None => ResponseOutcome::NotFound,
    }
}

/// Store the aggregated body whole under the client-supplied name,
/// creating the entry or overwriting whatever it held: afterwards the name
/// maps to exactly these bytes and no other entry has changed. The body is
/// aggregated in full before this is called; a transport failure while
/// reading it never reaches the store.
pub fn upload_specified_file(store: &mut FileStore, filename: &String, contents: &Vec<u8>) -> (r:
    ResponseOutcome)
    requires
        old(store).wf(),
    ensures
        final(store).wf(),
        r == ResponseOutcome::OkEmpty,
        final(store)@ == old(store)@.insert(filename@, contents@),
{
    store.write(filename, contents);
    ResponseOutcome::OkEmpty
}

/// Store the aggregated body under a fresh server-generated name: the given
/// prefix, three random digits, and `.txt`. The name is claimed by an
/// atomic exclusive create, so at the moment of creation it did not exist;
/// success returns the name as the response text. If every one of the
/// bounded attempts collides, the outcome is not-found and the store is
/// unchanged - in particular, once all thousand suffixes are occupied,
/// failure is certain. Success is owed when no generated name with this
/// prefix is occupied: then no draw can collide.
pub fn upload_new_file(store: &mut FileStore, filename_prefix: &String, contents: &Vec<u8>) -> (r:
    ResponseOutcome)
    requires
        old(store).wf(),
    ensures
        final(store).wf(),
        r matches ResponseOutcome::OkText(filename) ==> !old(store)@.dom().contains(filename@)
            && (exists|n: nat| n < 1000 && filename@ == generated_name(filename_prefix@, n))
            && final(store)@ == old(store)@.insert(filename@, contents@),
        r is NotFound ==> final(store)@ == old(store)@,
        r is OkText || r is NotFound,
        (forall|n: nat|
            n < 1000 ==> old(store)@.dom().contains(
                #[trigger] generated_name(filename_prefix@, n),
            )) ==> r is NotFound,
        (forall|n: nat|
            n < 1000 ==> !old(store)@.dom().contains(
                #[trigger] generated_name(filename_prefix@, n),
            )) ==> r is OkText,
{
    match create_new_file(store, filename_prefix.as_str()) {
        Ok(filename) => {
            store.write(&filename, contents);
            proof {
                assert(store@ =~= old(store)@.insert(filename@, contents@));
            }
            ResponseOutcome::OkText(filename)
        },
        Err(_attempts) => ResponseOutcome::NotFound,
    }
}

/// The handler behind every unmatched path or method: always the not-found
/// outcome, whatever the store holds, and it cannot touch the store at all.
pub fn invalid_resource() -> (r: ResponseOutcome)
    ensures
        r == ResponseOutcome::NotFound,
{
    ResponseOutcome::NotFound
}

} // verus!
