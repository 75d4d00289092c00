use imessage_database::exporter::app_route::{
    ndjson_format_app_route, txt_format_app_route, AppBalloon, AppRoute, AppRouteError,
};

#[test]
fn txt_route_not_an_app_message() {
    let r = txt_format_app_route(&None, true, true, &Some("hi".to_string()));
    assert_eq!(r, Err(AppRouteError::WrongMessageType));
}

#[test]
fn ndjson_route_not_an_app_message() {
    let r = ndjson_format_app_route(&None, true, &None);
    assert_eq!(r, Err(AppRouteError::WrongMessageType));
}

#[test]
fn txt_route_handwriting_with_raw_payload() {
    let r = txt_format_app_route(&Some(AppBalloon::Handwriting), true, true, &None);
    assert_eq!(r, Ok(AppRoute::Handwriting));
}

#[test]
fn txt_route_handwriting_without_payloads() {
    let r = txt_format_app_route(&Some(AppBalloon::Handwriting), false, false, &None);
    assert_eq!(r, Err(AppRouteError::NoPayload));
}

#[test]
fn ndjson_route_handwriting_needs_no_payload() {
    let r = ndjson_format_app_route(&Some(AppBalloon::Handwriting), false, &None);
    assert_eq!(r, Ok(AppRoute::Handwriting));
}

#[test]
fn route_generic_app_keeps_bundle_id() {
    let balloon = Some(AppBalloon::Application("com.example.app".to_string()));
    let expected = Ok(AppRoute::Application("com.example.app".to_string()));
    assert_eq!(txt_format_app_route(&balloon, false, true, &None), expected);
    assert_eq!(ndjson_format_app_route(&balloon, true, &None), expected);
}

#[test]
fn route_apple_balloons() {
    let cases = vec![
        (AppBalloon::ApplePay, AppRoute::ApplePay),
        (AppBalloon::Fitness, AppRoute::Fitness),
        (AppBalloon::Slideshow, AppRoute::Slideshow),
        (AppBalloon::CheckIn, AppRoute::CheckIn),
        (AppBalloon::FindMy, AppRoute::FindMy),
        (AppBalloon::Url, AppRoute::Url),
    ];
    for (balloon, route) in cases {
        let b = Some(balloon);
        assert_eq!(txt_format_app_route(&b, false, true, &None), Ok(route.clone()));
        assert_eq!(ndjson_format_app_route(&b, true, &None), Ok(route));
    }
}

#[test]
fn route_url_without_payload_shows_text() {
    let b = Some(AppBalloon::Url);
    let text = Some("https://example.com".to_string());
    let expected = Ok(AppRoute::UrlText("https://example.com".to_string()));
    assert_eq!(txt_format_app_route(&b, false, false, &text), expected);
    assert_eq!(ndjson_format_app_route(&b, false, &text), expected);
}

#[test]
fn route_url_without_payload_or_text() {
    let b = Some(AppBalloon::Url);
    assert_eq!(txt_format_app_route(&b, false, false, &None), Err(AppRouteError::NoPayload));
    assert_eq!(ndjson_format_app_route(&b, false, &None), Err(AppRouteError::NoPayload));
}

#[test]
fn route_app_without_payload_ignores_text() {
    let b = Some(AppBalloon::FindMy);
    let text = Some("text".to_string());
    assert_eq!(txt_format_app_route(&b, false, false, &text), Err(AppRouteError::NoPayload));
    assert_eq!(ndjson_format_app_route(&b, false, &text), Err(AppRouteError::NoPayload));
}

#[test]
fn route_digital_touch_payload_has_no_formatter() {
    let b = Some(AppBalloon::DigitalTouch);
    assert_eq!(txt_format_app_route(&b, false, true, &None), Ok(AppRoute::NoFormatter));
    assert_eq!(ndjson_format_app_route(&b, true, &None), Ok(AppRoute::NoFormatter));
    assert_eq!(txt_format_app_route(&b, false, false, &None), Err(AppRouteError::NoPayload));
}

#[test]
fn txt_route_handwriting_payload_without_raw_payload_has_no_formatter() {
    let b = Some(AppBalloon::Handwriting);
    assert_eq!(txt_format_app_route(&b, false, true, &None), Ok(AppRoute::NoFormatter));
}
