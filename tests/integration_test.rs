use torrust_hash2torrent::run_app_for_integration_tests;

#[test]
fn test_app() {
    assert_eq!(
        "No integration tests yet :-(",
        run_app_for_integration_tests()
    );
}
