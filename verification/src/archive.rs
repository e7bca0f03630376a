use vstd::prelude::*;

verus! {

/// The fields of a tar header, other than the path.
#[derive(Clone, Copy, Debug)]
pub struct EntryHeader {
    pub mode: u32,
    pub size: u64,
    pub mtime: u64,
    pub uid: u64,
    pub gid: u64,
    /// The byte that says what the entry is.
    pub type_flag: u8,
    /// The eight bytes of the field for the major device number, the first one as the highest.
    pub device_major: u64,
    /// The eight bytes of the field for the minor device number, the first one as the highest.
    pub device_minor: u64,
}

/// The bytes that stand in an archive for one entry: header, data and padding. None where the
/// path cannot be written down in an archive.
pub uninterp spec fn tar_entry(header: EntryHeader, path: Seq<char>, data: Seq<u8>) -> Option<
    Seq<u8>,
>;

/// Whether a plain header has room for a path and takes it.
pub uninterp spec fn tar_header_holds(path: Seq<char>) -> bool;

/// Adds one entry to the end of an archive, by `tar::Builder::append_data` with a GNU header.
///
/// Trusted: the entry's bytes are a function of the header's fields, the path and the data, and
/// what the archive held before stays in front of them.
#[verifier::external_body]
pub(crate) fn tar_append(
    archive: Vec<u8>,
    header: EntryHeader,
    path: &str,
    data: &[u8],
) -> (longer: Result<Vec<u8>, std::io::Error>)
    ensures
        match longer {
            Ok(l) => tar_entry(header, path@, data@) matches Some(entry) && l@ == archive@ + entry,
            Err(_) => tar_entry(header, path@, data@) is None,
        },
{
    let mut raw = tar::Header::new_gnu();
    raw.set_mode(header.mode);
    raw.set_size(header.size);
    raw.set_mtime(header.mtime);
    raw.set_uid(header.uid);
    raw.set_gid(header.gid);
    let fields = raw.as_gnu_mut().expect("a GNU header has GNU fields");
    fields.typeflag = [header.type_flag];
    fields.dev_major = header.device_major.to_be_bytes();
    fields.dev_minor = header.device_minor.to_be_bytes();
    let mut builder = tar::Builder::new(archive);
    builder.append_data(&mut raw, path, data)?;
    Ok(std::mem::take(builder.get_mut()))
}

/// Tries a path in a GNU header, by `tar::Header::set_path`.
///
/// Trusted: whether the header takes the path depends on the path alone.
#[verifier::external_body]
pub(crate) fn tar_set_path(path: &str) -> (taken: Result<(), std::io::Error>)
    ensures
        taken is Ok == tar_header_holds(path@),
{
    tar::Header::new_gnu().set_path(path)
}

/// The two empty blocks that end an archive.
pub open spec fn archive_end() -> Seq<u8> {
    Seq::new(1024, |i: int| 0u8)
}

/// Ends an archive, by `tar::Builder::into_inner`.
///
/// Trusted: two empty blocks of 512 bytes follow what the archive held. Writing to memory does
/// not fail.
#[verifier::external_body]
pub(crate) fn tar_finish(archive: Vec<u8>) -> (finished: Result<Vec<u8>, std::io::Error>)
    ensures
        finished is Ok,
        finished matches Ok(f) ==> f@ == archive@ + archive_end(),
{
    tar::Builder::new(archive).into_inner()
}

} // verus!
