use pika::events::FileChangeEvent;


#[test]
fn test_file_change_event_variants() {
    let event = FileChangeEvent::Created("/test".to_string());
    assert!(matches!(event, FileChangeEvent::Created(_)));

    let event = FileChangeEvent::Renamed {
        from: "/a".to_string(),
        to: "/b".to_string(),
    };
    assert!(matches!(event, FileChangeEvent::Renamed { .. }));
}
