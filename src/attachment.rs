//! Classification of a message's media, the on-disk names of attachments,
//! and the retry budget of a failing transfer.

use vstd::prelude::*;
use vstd::string::*;
use crate::text::{ends_with, has_suffix, i64_decimal, join2, signed_decimal};
use crate::types::{Attachment, ContactInfo, FileInfo, GeoInfo, GeoLiveInfo};

verus! {

/// One kind of saved content: the folder under the chat directory that holds it,
/// and the extension its file names must end with, if any.
pub struct AttachmentType {
    pub folder: String,
    pub kind_name: String,
    pub path: Option<String>,
    pub extension: Option<String>,
}

/// `name`, with `ext` appended unless it already ends with it.
pub open spec fn with_extension(name: Seq<char>, ext: Option<Seq<char>>) -> Seq<char> {
    match ext {
        Some(e) => if has_suffix(name, e) {
            name
        } else {
            name + e
        },
        None => name,
    }
}

pub open spec fn ext_view(ext: Option<String>) -> Option<Seq<char>> {
    match ext {
        Some(e) => Some(e@),
        None => None,
    }
}

impl AttachmentType {
    pub open spec fn dir(&self) -> Option<Seq<char>> {
        ext_view(self.path)
    }

    pub fn init(folder: &str, kind_name: &str, extension: Option<&str>) -> (r: AttachmentType)
        ensures
            r.folder@ == folder@,
            r.kind_name@ == kind_name@,
            r.dir() is None,
            ext_view(r.extension) == (match extension {
                Some(e) => Some(e@),
                None => None::<Seq<char>>,
            }),
    {
        let extension = match extension {
            Some(e) => Some(String::from_str(e)),
            None => None,
        };
        AttachmentType {
            folder: String::from_str(folder),
            kind_name: String::from_str(kind_name),
            path: None,
            extension,
        }
    }

    /// Places this kind's folder under the chat directory `chat_path`.
    pub fn init_folder(&mut self, chat_path: &str)
        ensures
            final(self).dir() == Some(chat_path@ + seq!['/'] + old(self).folder@),
            final(self).folder == old(self).folder,
            final(self).kind_name == old(self).kind_name,
            final(self).extension == old(self).extension,
    {
        proof {
            reveal_strlit("/");
            assert("/"@ =~= seq!['/']);
        }
        let mut p = join2(chat_path, "/");
        p.append(self.folder.as_str());
        self.path = Some(p);
    }

    /// The folder's path under the chat directory.
    pub fn path(&self) -> (r: String)
        requires
            self.dir() is Some,
        ensures
            Some(r@) == self.dir(),
    {
        match &self.path {
            Some(p) => p.clone(),
            None => String::new(),
        }
    }

    /// `name` with this kind's extension, unless it already ends with it.
    pub fn format(&self, name: String) -> (r: String)
        ensures
            r@ == with_extension(name@, ext_view(self.extension)),
    {
        if let Some(ext) = &self.extension {
            if !ends_with(name.as_str(), ext.as_str()) {
                return join2(name.as_str(), ext.as_str());
            }
        }
        name
    }
}

/// The kinds of downloadable document.
#[derive(Clone, Copy, Debug, PartialEq, Eq)]
pub enum DocumentKind {
    File,
    Voice,
    Round,
}

pub open spec fn document_kind(round: bool, voice: bool) -> DocumentKind {
    if round {
        DocumentKind::Round
    } else if voice {
        DocumentKind::Voice
    } else {
        DocumentKind::File
    }
}

pub open spec fn kind_folder(k: DocumentKind) -> Seq<char> {
    match k {
        DocumentKind::File => "media/files"@,
        DocumentKind::Voice => "media/voice_messages"@,
        DocumentKind::Round => "media/rounds"@,
    }
}

pub open spec fn kind_extension(k: DocumentKind) -> Option<Seq<char>> {
    match k {
        DocumentKind::File => None,
        DocumentKind::Voice => Some(".ogg"@),
        DocumentKind::Round => Some(".mp4"@),
    }
}

pub open spec fn photo_folder() -> Seq<char> {
    "media/photos"@
}

/// The folder of each kind of content under a chat directory.
pub struct AttachmentTypes {
    pub messages: AttachmentType,
    pub photo: AttachmentType,
    pub file: AttachmentType,
    pub round: AttachmentType,
    pub voice: AttachmentType,
}

impl AttachmentTypes {
    pub open spec fn kind(&self, k: DocumentKind) -> AttachmentType {
        match k {
            DocumentKind::File => self.file,
            DocumentKind::Voice => self.voice,
            DocumentKind::Round => self.round,
        }
    }

    /// The standard folders: `messages`, `media/photos` (`.jpg`), `media/files`,
    /// `media/rounds` (`.mp4`) and `media/voice_messages` (`.ogg`).
    pub fn init_types() -> (r: AttachmentTypes)
        ensures
            r.messages.folder@ == "messages"@,
            r.messages.extension is None,
            r.photo.folder@ == photo_folder(),
            ext_view(r.photo.extension) == Some(".jpg"@),
            forall|k: DocumentKind| #[trigger] r.kind(k).folder@ == kind_folder(k) && ext_view(
                r.kind(k).extension,
            ) == kind_extension(k),
    {
        AttachmentTypes {
            messages: AttachmentType::init("messages", "messages", None),
            photo: AttachmentType::init("media/photos", "photo", Some(".jpg")),
            file: AttachmentType::init("media/files", "file", None),
            round: AttachmentType::init("media/rounds", "round", Some(".mp4")),
            voice: AttachmentType::init("media/voice_messages", "voice", Some(".ogg")),
        }
    }
}

/// A message's media as the source describes it.
#[derive(Clone, Debug, PartialEq, Eq)]
pub enum Media {
    /// `id` is absent once the service purged the photo; `size` is that of its largest version.
    Photo { id: Option<i64>, size: i64 },
    Document { id: i64, name: String, size: i64, round: bool, voice: bool },
    Geo(GeoInfo),
    GeoLive(GeoLiveInfo),
    Dice { value: i32, emoticon: String },
    Contact(ContactInfo),
}

/// What to do about a message's media.
#[derive(Clone, Debug, PartialEq, Eq)]
pub enum Classified {
    /// Nothing to transfer: the message's attachment, if any, is final.
    Ready(Option<Attachment>),
    /// Transfer the remote file `id` to `target` (relative to the chat directory);
    /// on success the message carries `attachment`.
    Transfer { id: i64, target: String, attachment: Attachment },
}

pub open spec fn too_large(limit: Option<i64>, size: i64) -> bool {
    limit matches Some(l) && l < size
}

pub open spec fn photo_file_name(id: i64) -> Seq<char> {
    signed_decimal(id as int) + "@photo.jpg"@
}

pub open spec fn document_file_name(id: i64, name: Seq<char>, k: DocumentKind) -> Seq<char> {
    with_extension(signed_decimal(id as int) + "@"@ + name, kind_extension(k))
}

/// Where a file of `folder` named `file_name` lies, seen from the chat directory.
pub open spec fn target_path(folder: Seq<char>, file_name: Seq<char>) -> Seq<char> {
    folder + "/"@ + file_name
}

/// How a batch file refers to a file of `folder` named `file_name`.
pub open spec fn reference_path(folder: Seq<char>, file_name: Seq<char>) -> Seq<char> {
    "../"@ + folder + "/"@ + file_name
}

pub open spec fn is_transfer(
    r: Classified,
    id: i64,
    folder: Seq<char>,
    file_name: Seq<char>,
    make: spec_fn(FileInfo) -> Attachment,
) -> bool {
    r matches Classified::Transfer { id: rid, target, attachment } && rid == id && target@ == target_path(
        folder,
        file_name,
    ) && exists|f: FileInfo| #[trigger] make(f) == attachment && f.id == id && f.path@ == reference_path(
        folder,
        file_name,
    )
}

pub open spec fn kind_attachment(k: DocumentKind) -> spec_fn(FileInfo) -> Attachment {
    match k {
        DocumentKind::File => |f: FileInfo| Attachment::File(f),
        DocumentKind::Voice => |f: FileInfo| Attachment::Voice(f),
        DocumentKind::Round => |f: FileInfo| Attachment::Round(f),
    }
}

fn reference_and_target(folder: &String, file_name: &String) -> (r: (String, String))
    ensures
        r.0@ == reference_path(folder@, file_name@),
        r.1@ == target_path(folder@, file_name@),
{
    let mut target = join2(folder.as_str(), "/");
    target.append(file_name.as_str());
    let reference = join2("../", target.as_str());
    (reference, target)
}

/// Decides what a message's media becomes. A photo without an id has expired; media
/// larger than `limit` bytes is skipped; photos and documents are otherwise transferred
/// under `{id}@{name}` with their kind's extension (photos as `{id}@photo.jpg`);
/// locations, dice and contacts are kept as they are.
pub fn classify(media: Option<Media>, limit: Option<i64>) -> (r: Classified)
    ensures
        match media {
            None => r == Classified::Ready(None),
            Some(Media::Photo { id: None, .. }) => r == Classified::Ready(Some(Attachment::PhotoExpired)),
            Some(Media::Photo { id: Some(id), size }) => if too_large(limit, size) {
                r == Classified::Ready(Some(Attachment::TooLarge { size }))
            } else {
                is_transfer(r, id, photo_folder(), photo_file_name(id), |f: FileInfo| Attachment::Photo(f))
            },
            Some(Media::Document { id, name, size, round, voice }) => if too_large(limit, size) {
                r == Classified::Ready(Some(Attachment::TooLarge { size }))
            } else {
                is_transfer(
                    r,
                    id,
                    kind_folder(document_kind(round, voice)),
                    document_file_name(id, name@, document_kind(round, voice)),
                    kind_attachment(document_kind(round, voice)),
                )
            },
            Some(Media::Geo(g)) => r == Classified::Ready(Some(Attachment::Geo(g))),
            Some(Media::GeoLive(g)) => r == Classified::Ready(Some(Attachment::GeoLive(g))),
            Some(Media::Dice { value, emoticon }) => r == Classified::Ready(
                Some(Attachment::Dice { value, emoticon }),
            ),
            Some(Media::Contact(c)) => r == Classified::Ready(Some(Attachment::Contact(c))),
        },
{
    let types = AttachmentTypes::init_types();
    match media {
        None => Classified::Ready(None),
        Some(Media::Photo { id: None, .. }) => Classified::Ready(Some(Attachment::PhotoExpired)),
        Some(Media::Photo { id: Some(id), size }) => {
            if let Some(l) = limit {
                if l < size {
                    return Classified::Ready(Some(Attachment::TooLarge { size }));
                }
            }
            let file_name = join2(i64_decimal(id).as_str(), "@photo.jpg");
            let (reference, target) = reference_and_target(&types.photo.folder, &file_name);
            let f = FileInfo { id, path: reference };
            let ghost g = f;
            let r = Classified::Transfer { id, target, attachment: Attachment::Photo(f) };
            assert((|f: FileInfo| Attachment::Photo(f))(g) == Attachment::Photo(g));
            r
        },
        Some(Media::Document { id, name, size, round, voice }) => {
            if let Some(l) = limit {
                if l < size {
                    return Classified::Ready(Some(Attachment::TooLarge { size }));
                }
            }
            let ghost k = document_kind(round, voice);
            let ty = if round {
                &types.round
            } else if voice {
                &types.voice
            } else {
                &types.file
            };
            assert(*ty == types.kind(k));
            let mut base = join2(i64_decimal(id).as_str(), "@");
            base.append(name.as_str());
            let file_name = ty.format(base);
            let (reference, target) = reference_and_target(&ty.folder, &file_name);
            let f = FileInfo { id, path: reference };
            let ghost g = f;
            let attachment = if round {
                Attachment::Round(f)
            } else if voice {
                Attachment::Voice(f)
            } else {
                Attachment::File(f)
            };
            assert(kind_attachment(k)(g) == attachment);
            Classified::Transfer { id, target, attachment }
        },
        Some(Media::Geo(g)) => Classified::Ready(Some(Attachment::Geo(g))),
        Some(Media::GeoLive(g)) => Classified::Ready(Some(Attachment::GeoLive(g))),
        Some(Media::Dice { value, emoticon }) => Classified::Ready(Some(Attachment::Dice { value, emoticon })),
        Some(Media::Contact(c)) => Classified::Ready(Some(Attachment::Contact(c))),
    }
}

/// The size ceiling in bytes for a ceiling given in megabytes.
pub fn max_attachment_bytes(file_limit_mb: Option<i32>) -> (r: Option<i64>)
    ensures
        r == (match file_limit_mb {
            Some(mb) => Some((mb * 1024 * 1024) as i64),
            None => None::<i64>,
        }),
{
    match file_limit_mb {
        Some(mb) => Some((mb as i64) * 1024 * 1024),
        None => None,
    }
}


/// Above this many repeated failures of one attachment, the message is kept without it.
pub const MAX_TRANSFER_RETRIES: i32 = 5;

/// The budget of a failing transfer: the id of the attachment that failed last, and how
/// many times in a row it failed after its first failure.
#[derive(Clone, Copy, Debug, PartialEq, Eq)]
pub struct RetryBudget {
    pub file_issue: i64,
    pub file_issue_count: i32,
}

/// The budget after a failure of attachment `id`: the count goes up for the same id
/// and starts again at 0 for another.
pub open spec fn after_failure(b: RetryBudget, id: i64) -> RetryBudget {
    if b.file_issue == id {
        RetryBudget {
            file_issue: id,
            file_issue_count: if b.file_issue_count < i32::MAX {
                (b.file_issue_count + 1) as i32
            } else {
                b.file_issue_count
            },
        }
    } else {
        RetryBudget { file_issue: id, file_issue_count: 0 }
    }
}

pub open spec fn exhausted(b: RetryBudget) -> bool {
    b.file_issue_count > MAX_TRANSFER_RETRIES
}

impl RetryBudget {
    /// Records a failed transfer of attachment `id`. Returns whether the budget is spent,
    /// in which case the message is recorded with an error in place of the attachment;
    /// otherwise the chat's pass stops so that a later one retries.
    pub fn register_failure(&mut self, id: i64) -> (give_up: bool)
        ensures
            *final(self) == after_failure(*old(self), id),
            give_up == exhausted(*final(self)),
    {
        if self.file_issue == id {
            if self.file_issue_count < i32::MAX {
                self.file_issue_count = self.file_issue_count + 1;
            }
        } else {
            self.file_issue = id;
            self.file_issue_count = 0;
        }
        self.file_issue_count > MAX_TRANSFER_RETRIES
    }
}

/// Whether `failures` failed transfers of attachment `id` in a row, each followed by a
/// retry while the budget lasts, end with the budget spent.
pub open spec fn gives_up_within(b: RetryBudget, id: i64, failures: nat) -> bool
    decreases failures,
{
    if failures == 0 {
        false
    } else {
        exhausted(after_failure(b, id)) || gives_up_within(after_failure(b, id), id, (failures - 1) as nat)
    }
}

proof fn lemma_gives_up_counting(c: i32, id: i64, failures: nat)
    requires
        0 <= c <= MAX_TRANSFER_RETRIES,
    ensures
        gives_up_within(RetryBudget { file_issue: id, file_issue_count: c }, id, failures) <==> (
        failures >= 1 && c + failures > MAX_TRANSFER_RETRIES),
    decreases failures,
{
    if failures > 0 {
        let next = after_failure(RetryBudget { file_issue: id, file_issue_count: c }, id);
        assert(next.file_issue_count == c + 1);
        if c + 1 <= MAX_TRANSFER_RETRIES {
            lemma_gives_up_counting((c + 1) as i32, id, (failures - 1) as nat);
        }
    }
}

/// An attachment whose transfer fails a number of times in a row and then succeeds,
/// starting from a budget that tracks another attachment: with at most six failures the
/// message ends with the transferred attachment; with seven or more, with an error.
/// (The first failure sets the count to 0 and each further one adds 1, so the count
/// passes 5 at the seventh.)
pub proof fn lemma_retry_ceiling(b: RetryBudget, id: i64, failures: nat)
    requires
        b.file_issue != id,
    ensures
        failures <= 6 ==> !gives_up_within(b, id, failures),
        failures >= 7 ==> gives_up_within(b, id, failures),
{
    if failures > 0 {
        let first = after_failure(b, id);
        assert(first == RetryBudget { file_issue: id, file_issue_count: 0 });
        lemma_gives_up_counting(0, id, (failures - 1) as nat);
    }
}

} // verus!
