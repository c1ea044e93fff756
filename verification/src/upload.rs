//! The upload-side value types: the item kinds an upload endpoint accepts,
//! the payload a finished upload hands to the repository, and the file
//! attachment a multipart upload collects before it becomes an image
//! payload.

use vstd::prelude::*;
use vstd::slice::slice_index_get;

use crate::models::DBAddressParams;
use crate::models::DBDedicationParams;
use crate::models::DBImageParams;
use crate::models::DBPatrolLogParams;
use crate::models::DBResourceParams;
use crate::models::DBTestimonialParams;
use crate::models::opt_str_view;

verus! {

/// The path segment naming the debriefs item kind.
pub const DEBRIEFS: &'static str = "debriefs";

/// The path segment naming the patrol log item kind.
pub const PATROL_LOG: &'static str = "patrol_log";

/// The path segment naming the dedications item kind.
pub const DEDICATIONS: &'static str = "dedications";

/// The path segment naming the support resource item kind.
pub const SUPPORT: &'static str = "support";

/// Copies a byte slice into an owned vector.
pub fn bytes_to_owned(b: &[u8]) -> (r: Vec<u8>)
    ensures
        r@ == b@,
{
    let mut out: Vec<u8> = Vec::new();
    let mut i: usize = 0;
    while i < b.len()
        invariant
            i <= b.len(),
            out@ == b@.take(i as int),
        decreases b.len() - i,
    {
        let x = *slice_index_get(b, i);
        out.push(x);
        proof {
            assert(out@ =~= b@.take(i + 1));
        }
        i = i + 1;
    }
    proof {
        assert(b@.take(b@.len() as int) =~= b@);
    }
    out
}

/// Compares two string slices by their text.
pub fn str_eq(a: &str, b: &str) -> (r: bool)
    ensures
        r == (a@ == b@),
{
    let x = a.to_owned();
    let y = b.to_owned();
    x == y
}

/// A finished upload: one creation payload, ready for the repository.
#[derive(Debug)]
pub enum UploadItem {
    Address(DBAddressParams),
    Support(DBResourceParams),
    Debrief(DBTestimonialParams),
    PatrolLog(DBPatrolLogParams),
    Dedication(DBDedicationParams),
}

/// The item kinds a form upload accepts.
#[derive(Debug, PartialEq, Eq, Structural)]
pub enum UploadFormItemType {
    Debriefs,
}

impl UploadFormItemType {
    /// Parses an item-kind path segment; only the debriefs segment names a
    /// form item kind.
    pub fn try_from_str(s: &str) -> (r: Option<UploadFormItemType>)
        ensures
            r == (if s@ == DEBRIEFS@ {
                Some(UploadFormItemType::Debriefs)
            } else {
                None::<UploadFormItemType>
            }),
    {
        if str_eq(s, DEBRIEFS) {
            Some(UploadFormItemType::Debriefs)
        } else {
            None
        }
    }
}

/// The item kinds a multipart upload accepts.
#[derive(Debug, PartialEq, Eq, Structural)]
pub enum UploadMultipartItemType {
    PatrolLog,
    Dedications,
    Support,
}

impl UploadMultipartItemType {
    /// Parses an item-kind path segment; exactly the patrol log,
    /// dedications and support segments name multipart item kinds.
    pub fn try_from_str(s: &str) -> (r: Option<UploadMultipartItemType>)
        ensures
            r == (if s@ == PATROL_LOG@ {
                Some(UploadMultipartItemType::PatrolLog)
            } else if s@ == DEDICATIONS@ {
                Some(UploadMultipartItemType::Dedications)
            } else if s@ == SUPPORT@ {
                Some(UploadMultipartItemType::Support)
            } else {
                None::<UploadMultipartItemType>
            }),
    {
        if str_eq(s, PATROL_LOG) {
            Some(UploadMultipartItemType::PatrolLog)
        } else if str_eq(s, DEDICATIONS) {
            Some(UploadMultipartItemType::Dedications)
        } else if str_eq(s, SUPPORT) {
            Some(UploadMultipartItemType::Support)
        } else {
            None
        }
    }
}

/// One uploaded file with the caption fields collected alongside it.
#[derive(Debug)]
pub struct FileAttachment {
    name: String,
    bytes: Vec<u8>,
    pub new_name: Option<String>,
    pub alt: Option<String>,
    pub subtitle: Option<String>,
}

/// The view of one file attachment.
#[verifier::ext_equal]
pub struct AttachmentView {
    pub name: Seq<char>,
    pub bytes: Seq<u8>,
    pub new_name: Option<Seq<char>>,
    pub alt: Option<Seq<char>>,
    pub subtitle: Option<Seq<char>>,
}

impl View for FileAttachment {
    type V = AttachmentView;

    closed spec fn view(&self) -> AttachmentView {
        AttachmentView {
            name: self.name@,
            bytes: self.bytes@,
            new_name: opt_str_view(self.new_name),
            alt: opt_str_view(self.alt),
            subtitle: opt_str_view(self.subtitle),
        }
    }
}

impl FileAttachment {
    /// The uploaded file name.
    pub fn name(&self) -> (r: &str)
        ensures
            r@ == self@.name,
    {
        self.name.as_str()
    }

    /// The uploaded bytes.
    pub fn bytes(&self) -> (r: &[u8])
        ensures
            r@ == self@.bytes,
    {
        self.bytes.as_slice()
    }

    /// A fresh attachment: the uploaded name and bytes, no caption fields
    /// yet.
    pub fn new(name: &str, bytes: &[u8]) -> (r: Self)
        ensures
            r@ == (AttachmentView {
                name: name@,
                bytes: bytes@,
                new_name: None,
                alt: None,
                subtitle: None,
            }),
    {
        FileAttachment {
            name: name.to_owned(),
            bytes: bytes_to_owned(bytes),
            new_name: None,
            alt: None,
            subtitle: None,
        }
    }

    /// The image creation payload for an attachment stored at the given
    /// path: missing alt text becomes empty text, a missing subtitle stays
    /// missing.
    pub fn into_db_image_params(self, fs_path: &str) -> (r: DBImageParams)
        ensures
            r@.path == fs_path@,
            r@.alt == (match self@.alt {
                Some(a) => a,
                None => Seq::<char>::empty(),
            }),
            r@.subtitle == self@.subtitle,
    {
        DBImageParams {
            path: fs_path.to_owned(),
            alt: match self.alt {
                Some(a) => a,
                None => String::new(),
            },
            subtitle: self.subtitle,
        }
    }
}

} // verus!
