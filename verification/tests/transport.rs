use musicbrainz_release_grabber::transport::{status_is_success, CatalogError, HttpReply};

#[test]
fn success_is_the_two_hundreds() {
    assert!(!status_is_success(199));
    assert!(status_is_success(200));
    assert!(status_is_success(204));
    assert!(status_is_success(299));
    assert!(!status_is_success(300));
    assert!(!status_is_success(404));
    assert!(!status_is_success(500));
}

#[test]
fn reply_is_judged_in_order() {
    assert_eq!(HttpReply::<u8>::Unreachable.into_result(), Err(CatalogError::Transport));
    assert_eq!(
        HttpReply::Answered { status: 302, body: Some(1u8) }.into_result(),
        Err(CatalogError::HttpStatus(302))
    );
    assert_eq!(
        HttpReply::<u8>::Answered { status: 200, body: None }.into_result(),
        Err(CatalogError::Decode)
    );
    assert_eq!(HttpReply::Answered { status: 200, body: Some(5u8) }.into_result(), Ok(5));
}
