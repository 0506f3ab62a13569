//! The directories that a run uses when none are given.
use vstd::prelude::*;
use crate::paths::{push, push_path};
use crate::scanner::views;

verus! {

/// `/media`, under which removable volumes are mounted per user.
pub open spec fn media_root() -> Seq<u8> {
    seq![47u8, 109u8, 101u8, 100u8, 105u8, 97u8]
}

/// `KOBOeReader`, the volume label of the reader's storage.
pub open spec fn reader_volume() -> Seq<u8> {
    seq![75u8, 79u8, 66u8, 79u8, 101u8, 82u8, 101u8, 97u8, 100u8, 101u8, 114u8]
}

/// `Documents`, the documents directory under a home directory.
pub open spec fn documents_name() -> Seq<u8> {
    seq![68u8, 111u8, 99u8, 117u8, 109u8, 101u8, 110u8, 116u8, 115u8]
}

/// The home directory could not be determined.
#[derive(Debug, Clone, Copy, PartialEq, Eq, Structural)]
pub enum LookupError {
    NoHomeDirectory,
}

/// The reader's storage as mounted for `username`: `/media/<username>/KOBOeReader`.
pub fn lookup_default_kobo_storage_directory(username: &Vec<u8>) -> (r: Vec<u8>)
    ensures
        r@ == push(push(media_root(), username@), reader_volume()),
{
    let media = vec![47u8, 109u8, 101u8, 100u8, 105u8, 97u8];
    let volume = vec![75u8, 79u8, 66u8, 79u8, 101u8, 82u8, 101u8, 97u8, 100u8, 101u8, 114u8];
    assert(media@ =~= media_root());
    assert(volume@ =~= reader_volume());
    let user_dir = push_path(&media, username);
    push_path(&user_dir, &volume)
}

/// The default documents directories: `Documents` under the home directory
/// `home`; an error where the home directory is unknown.
pub fn lookup_default_documents_directories(home: Option<Vec<u8>>) -> (r: Result<
    Vec<Vec<u8>>,
    LookupError,
>)
    ensures
        r is Err <==> home is None,
        r matches Err(e) ==> e == LookupError::NoHomeDirectory,
        r matches Ok(dirs) ==> views(dirs@) == seq![push(home.unwrap()@, documents_name())],
{
    match home {
        None => Err(LookupError::NoHomeDirectory),
        Some(h) => {
            let name = vec![68u8, 111u8, 99u8, 117u8, 109u8, 101u8, 110u8, 116u8, 115u8];
            assert(name@ =~= documents_name());
            let documents = push_path(&h, &name);
            let dirs = vec![documents];
            assert(views(dirs@) =~= seq![push(h@, documents_name())]);
            Ok(dirs)
        },
    }
}

} // verus!
