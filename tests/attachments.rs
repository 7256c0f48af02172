use tg_backup::attachment::{
    classify, max_attachment_bytes, AttachmentType, AttachmentTypes, Classified, Media, RetryBudget,
};
use tg_backup::types::{Attachment, ContactInfo, FileInfo};

#[test]
fn format_adds_missing_extension_once() {
    let t = AttachmentType::init("media/rounds", "round", Some(".mp4"));
    assert_eq!(t.format(String::from("5@video")), "5@video.mp4");
    assert_eq!(t.format(String::from("5@video.mp4")), "5@video.mp4");
    let f = AttachmentType::init("media/files", "file", None);
    assert_eq!(f.format(String::from("5@doc.pdf")), "5@doc.pdf");
}

#[test]
fn folder_path_lies_under_the_chat() {
    let mut t = AttachmentType::init("media/photos", "photo", Some(".jpg"));
    t.init_folder("backup/chats/1.me");
    assert_eq!(t.path(), "backup/chats/1.me/media/photos");
    let types = AttachmentTypes::init_types();
    assert_eq!(types.voice.folder, "media/voice_messages");
    assert_eq!(types.voice.extension.as_deref(), Some(".ogg"));
}

#[test]
fn photo_is_transferred_under_its_id() {
    let c = classify(Some(Media::Photo { id: Some(42), size: 100 }), None);
    assert_eq!(
        c,
        Classified::Transfer {
            id: 42,
            target: String::from("media/photos/42@photo.jpg"),
            attachment: Attachment::Photo(FileInfo { id: 42, path: String::from("../media/photos/42@photo.jpg") }),
        }
    );
}

#[test]
fn expired_photo_and_large_media_are_not_transferred() {
    assert_eq!(
        classify(Some(Media::Photo { id: None, size: 100 }), Some(10)),
        Classified::Ready(Some(Attachment::PhotoExpired))
    );
    assert_eq!(
        classify(Some(Media::Photo { id: Some(1), size: 100 }), Some(10)),
        Classified::Ready(Some(Attachment::TooLarge { size: 100 }))
    );
    let doc = Media::Document { id: 7, name: String::from("a.pdf"), size: 11, round: false, voice: false };
    assert_eq!(classify(Some(doc), Some(10)), Classified::Ready(Some(Attachment::TooLarge { size: 11 })));
    assert_eq!(classify(None, None), Classified::Ready(None));
}

#[test]
fn documents_go_to_their_kind_folder() {
    let voice = Media::Document { id: -3, name: String::from("note"), size: 5, round: false, voice: true };
    assert_eq!(
        classify(Some(voice), Some(10)),
        Classified::Transfer {
            id: -3,
            target: String::from("media/voice_messages/-3@note.ogg"),
            attachment: Attachment::Voice(FileInfo { id: -3, path: String::from("../media/voice_messages/-3@note.ogg") }),
        }
    );
    let round = Media::Document { id: 9, name: String::from("r.mp4"), size: 5, round: true, voice: true };
    assert_eq!(
        classify(Some(round), None),
        Classified::Transfer {
            id: 9,
            target: String::from("media/rounds/9@r.mp4"),
            attachment: Attachment::Round(FileInfo { id: 9, path: String::from("../media/rounds/9@r.mp4") }),
        }
    );
    let file = Media::Document { id: 10, name: String::from("x.tar"), size: 10, round: false, voice: false };
    assert_eq!(
        classify(Some(file), Some(10)),
        Classified::Transfer {
            id: 10,
            target: String::from("media/files/10@x.tar"),
            attachment: Attachment::File(FileInfo { id: 10, path: String::from("../media/files/10@x.tar") }),
        }
    );
}

#[test]
fn plain_media_is_kept() {
    let contact = ContactInfo {
        phone_number: String::from("1"),
        first_name: String::from("A"),
        last_name: String::from("B"),
        vcard: String::new(),
    };
    assert_eq!(
        classify(Some(Media::Contact(contact.clone())), None),
        Classified::Ready(Some(Attachment::Contact(contact)))
    );
    assert_eq!(
        classify(Some(Media::Dice { value: 3, emoticon: String::from("d") }), None),
        Classified::Ready(Some(Attachment::Dice { value: 3, emoticon: String::from("d") }))
    );
}

#[test]
fn size_ceiling_in_bytes() {
    assert_eq!(max_attachment_bytes(Some(2)), Some(2 * 1024 * 1024));
    assert_eq!(max_attachment_bytes(Some(4096)), Some(4096_i64 * 1024 * 1024));
    assert_eq!(max_attachment_bytes(None), None);
}

/// Fails `failures` times, then succeeds; returns whether the budget ran out first.
fn gives_up_after(failures: u32) -> bool {
    let mut b = RetryBudget { file_issue: 0, file_issue_count: 0 };
    for _ in 0..failures {
        if b.register_failure(77) {
            return true;
        }
    }
    false
}

#[test]
fn retry_budget_counts_repeated_failures() {
    for n in 0..=6 {
        assert!(!gives_up_after(n), "gave up after {} failures", n);
    }
    for n in 7..=9 {
        assert!(gives_up_after(n), "kept retrying after {} failures", n);
    }
}

#[test]
fn retry_budget_resets_on_another_attachment() {
    let mut b = RetryBudget { file_issue: 0, file_issue_count: 0 };
    assert!(!b.register_failure(5));
    assert_eq!(b, RetryBudget { file_issue: 5, file_issue_count: 0 });
    assert!(!b.register_failure(5));
    assert_eq!(b.file_issue_count, 1);
    assert!(!b.register_failure(6));
    assert_eq!(b, RetryBudget { file_issue: 6, file_issue_count: 0 });
}
