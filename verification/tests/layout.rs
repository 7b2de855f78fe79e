use glade_desk::layout::{negotiate, ChannelLayout, LayoutError};

#[test]
fn one_in_one_out_is_mono() {
    assert_eq!(negotiate(1, 1), Ok(ChannelLayout::Mono));
}

#[test]
fn two_in_two_out_is_stereo() {
    assert_eq!(negotiate(2, 2), Ok(ChannelLayout::Stereo));
}

#[test]
fn unequal_counts_are_mismatched() {
    assert_eq!(negotiate(2, 1), Err(LayoutError::Mismatched));
    assert_eq!(negotiate(1, 2), Err(LayoutError::Mismatched));
    assert_eq!(negotiate(0, 2), Err(LayoutError::Mismatched));
}

#[test]
fn other_equal_counts_are_unsupported() {
    assert_eq!(negotiate(0, 0), Err(LayoutError::Unsupported));
    assert_eq!(negotiate(3, 3), Err(LayoutError::Unsupported));
    assert_eq!(negotiate(u32::MAX, u32::MAX), Err(LayoutError::Unsupported));
}

#[test]
fn layout_reports_its_channel_count() {
    assert_eq!(ChannelLayout::Mono.channels(), 1);
    assert_eq!(ChannelLayout::Stereo.channels(), 2);
}

#[test]
fn granted_layout_has_the_negotiated_count() {
    for n in 0..5u32 {
        if let Ok(layout) = negotiate(n, n) {
            assert_eq!(layout.channels(), n);
        }
    }
}
