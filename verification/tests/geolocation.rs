use dioxus_std::geolocation::{
    DioxusStdError, GeolocationError, Geolocator, ACCESS_ALLOWED, ACCESS_DENIED,
};

#[test]
fn test_geolocator() {
    let _geolocator = Geolocator::request_access(None);
}

#[test]
fn only_an_allowed_status_gives_access() {
    assert!(Geolocator::request_access(Some(ACCESS_ALLOWED)).is_ok());
    assert!(Geolocator::new(Some(1)).is_ok());
    assert!(matches!(
        Geolocator::request_access(Some(ACCESS_DENIED)),
        Err(DioxusStdError::Geolocation(GeolocationError::AccessDenied))
    ));
    assert!(matches!(
        Geolocator::new(Some(2)),
        Err(DioxusStdError::Geolocation(GeolocationError::AccessDenied))
    ));
    for code in [0, 3, -1, i32::MIN, i32::MAX] {
        assert!(matches!(
            Geolocator::request_access(Some(code)),
            Err(DioxusStdError::Geolocation(GeolocationError::AccessUnspecified))
        ));
    }
    assert!(matches!(
        Geolocator::request_access(None),
        Err(DioxusStdError::Geolocation(GeolocationError::Unknown))
    ));
}

#[test]
fn tracking_starts_when_both_calls_went_well() {
    let unknown = Err(DioxusStdError::Geolocation(GeolocationError::Unknown));
    for (interval_set, watching) in [(true, true), (true, false), (false, true), (false, false)] {
        let geolocator = Geolocator::request_access(Some(ACCESS_ALLOWED)).unwrap();
        let started = geolocator.start_tracking(interval_set, watching);
        if interval_set && watching {
            assert_eq!(started, Ok(()));
        } else {
            assert_eq!(started, unknown);
        }
    }
}
