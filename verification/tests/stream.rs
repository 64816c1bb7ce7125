use load_balancer::stream::{frame_for, StreamFrame};

#[test]
fn received_snapshot_becomes_a_data_frame() {
    match frame_for(Some("[{\"url\":\"http://a\"}]".to_string())) {
        StreamFrame::Data(text) => assert_eq!(text, "[{\"url\":\"http://a\"}]"),
        StreamFrame::Comment(_) => panic!("expected data"),
    }
}

#[test]
fn a_gap_becomes_a_comment() {
    match frame_for(None) {
        StreamFrame::Comment(text) => assert_eq!(text, "missed message"),
        StreamFrame::Data(_) => panic!("expected a comment"),
    }
}
