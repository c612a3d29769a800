//! Packing an upload for the container: one file becomes a one-entry tar
//! archive that the runtime unpacks under `/src`.

use vstd::prelude::*;

verus! {

/// The bytes of a one-entry tar archive holding `data` under `name`.
pub uninterp spec fn tar_archive_of(name: Seq<char>, data: Seq<u8>) -> Seq<u8>;

/// Relies on `tar::Builder::append_data` and `tar::Header`: with every
/// header field fixed here, the archive bytes depend on the entry name and
/// contents alone.
#[verifier::external_body]
pub fn build_upload_archive(file_name: &str, contents: &Vec<u8>) -> (r: Option<Vec<u8>>)
    ensures
        r matches Some(b) ==> b@ == tar_archive_of(file_name@, contents@),
{
    let mut header = tar::Header::new_gnu();
    header.set_size(contents.len() as u64);
    header.set_mode(0o644);
    header.set_mtime(0);
    let mut builder = tar::Builder::new(Vec::new());
    if builder.append_data(&mut header, file_name, contents.as_slice()).is_err() {
        return None;
    }
    builder.into_inner().ok()
}

} // verus!
