use ctrl_eqip::logic::distance::DistanceCategory;
use ctrl_eqip::logic::fusion::SceneAnalyzer;

#[test]
fn person_indices_select_people_in_order() {
    assert_eq!(SceneAnalyzer::person_indices(&[0, 1, 0, 2, 0], 0), vec![0, 2, 4]);
    assert_eq!(SceneAnalyzer::person_indices(&[1, 1], 0), Vec::<usize>::new());
    assert_eq!(SceneAnalyzer::person_indices(&[], 0), Vec::<usize>::new());
    assert_eq!(SceneAnalyzer::person_indices(&[3, 7, 3], 3), vec![0, 2]);
}

#[test]
fn analyzer_keeps_frame_height() {
    assert_eq!(SceneAnalyzer::new(720).frame_height_px, 720);
    assert_eq!(SceneAnalyzer::default().frame_height_px, 0);
}

#[test]
fn category_labels() {
    assert_eq!(DistanceCategory::Close.label(), "Close (<1m)");
    assert_eq!(DistanceCategory::Medium.label(), "Medium (1-3m)");
    assert_eq!(DistanceCategory::Far.label(), "Far (3-5m)");
    assert_eq!(DistanceCategory::TooFar.label(), "Too Far (>5m)");
}
