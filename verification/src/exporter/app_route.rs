//! Which formatter an app message is handed to, for the TXT and the NDJSON exporters.
//!
//! The exporters read the payloads from the database; what they decide on the
//! values they read stands here.

use vstd::prelude::*;

verus! {

/// The kind of balloon an app message carries.
#[derive(Debug, Clone, PartialEq, Eq)]
pub enum AppBalloon {
    /// A third-party app, by its bundle id.
    Application(String),
    ApplePay,
    Fitness,
    Slideshow,
    CheckIn,
    FindMy,
    Handwriting,
    DigitalTouch,
    Url,
}

/// The formatter an app message goes to.
#[derive(Debug, Clone, PartialEq, Eq)]
pub enum AppRoute {
    /// Decode the raw payload as a handwritten message.
    Handwriting,
    /// Parse the payload as a URL preview.
    Url,
    /// Parse the payload as a generic app message of this bundle id.
    Application(String),
    ApplePay,
    Fitness,
    Slideshow,
    CheckIn,
    FindMy,
    /// A URL message without a payload: its own text is the bubble.
    UrlText(String),
    /// Parse the payload as an app message: a payload that does not parse gives the parser's
    /// error, and no formatter renders one that does.
    NoFormatter,
}

/// Why an app message cannot be formatted.
#[derive(Debug, Clone, Copy, PartialEq, Eq, Structural)]
pub enum AppRouteError {
    /// The message is not an app message.
    WrongMessageType,
    /// The message has no payload to render.
    NoPayload,
}

/// The formatter of a balloon whose payload is present, by its kind. A handwriting or Digital
/// Touch balloon that gets here has no formatter.
pub open spec fn payload_route(balloon: AppBalloon) -> AppRoute {
    match balloon {
        AppBalloon::Application(bundle_id) => AppRoute::Application(bundle_id),
        AppBalloon::ApplePay => AppRoute::ApplePay,
        AppBalloon::Fitness => AppRoute::Fitness,
        AppBalloon::Slideshow => AppRoute::Slideshow,
        AppBalloon::CheckIn => AppRoute::CheckIn,
        AppBalloon::FindMy => AppRoute::FindMy,
        AppBalloon::Url => AppRoute::Url,
        AppBalloon::Handwriting => AppRoute::NoFormatter,
        AppBalloon::DigitalTouch => AppRoute::NoFormatter,
    }
}

/// A message without a payload: a URL message with text shows its text, any
/// other has nothing to show.
pub open spec fn no_payload_route(balloon: AppBalloon, text: Option<String>) -> Result<AppRoute, AppRouteError> {
    if balloon is Url && text is Some {
        Ok(AppRoute::UrlText(text->0))
    } else {
        Err(AppRouteError::NoPayload)
    }
}

/// The TXT exporter's choice: a handwritten message with a raw payload is
/// decoded as handwriting, a message with a payload goes by its balloon, one
/// without falls back to `no_payload_route`.
pub open spec fn txt_app_route(
    balloon: Option<AppBalloon>,
    has_raw_payload: bool,
    has_payload: bool,
    text: Option<String>,
) -> Result<AppRoute, AppRouteError> {
    match balloon {
        None => Err(AppRouteError::WrongMessageType),
        Some(b) => if b is Handwriting && has_raw_payload {
            Ok(AppRoute::Handwriting)
        } else if has_payload {
            Ok(payload_route(b))
        } else {
            no_payload_route(b, text)
        },
    }
}

/// The NDJSON exporter's choice: a handwritten message is always rendered as
/// handwriting, the rest as in the TXT exporter.
pub open spec fn ndjson_app_route(
    balloon: Option<AppBalloon>,
    has_payload: bool,
    text: Option<String>,
) -> Result<AppRoute, AppRouteError> {
    match balloon {
        None => Err(AppRouteError::WrongMessageType),
        Some(b) => if b is Handwriting {
            Ok(AppRoute::Handwriting)
        } else if has_payload {
            Ok(payload_route(b))
        } else {
            no_payload_route(b, text)
        },
    }
}

fn route_with_payload(balloon: &AppBalloon) -> (route: AppRoute)
    ensures
        route == payload_route(*balloon),
{
    match balloon {
        AppBalloon::Application(bundle_id) => AppRoute::Application(bundle_id.clone()),
        AppBalloon::ApplePay => AppRoute::ApplePay,
        AppBalloon::Fitness => AppRoute::Fitness,
        AppBalloon::Slideshow => AppRoute::Slideshow,
        AppBalloon::CheckIn => AppRoute::CheckIn,
        AppBalloon::FindMy => AppRoute::FindMy,
        AppBalloon::Url => AppRoute::Url,
        AppBalloon::Handwriting => AppRoute::NoFormatter,
        AppBalloon::DigitalTouch => AppRoute::NoFormatter,
    }
}

fn route_without_payload(balloon: &AppBalloon, text: &Option<String>) -> (route: Result<AppRoute, AppRouteError>)
    ensures
        route == no_payload_route(*balloon, *text),
{
    if let AppBalloon::Url = balloon {
        if let Some(t) = text {
            return Ok(AppRoute::UrlText(t.clone()));
        }
    }
    Err(AppRouteError::NoPayload)
}

/// Picks the formatter of an app message for the TXT exporter.
///
/// `balloon` is `None` for a message that is not an app message;
/// `has_raw_payload` and `has_payload` say whether the message's raw payload and
/// its payload were found; `text` is the message's text. A handwritten message
/// with a payload but no raw payload, and a Digital Touch message with a
/// payload, go to [`AppRoute::NoFormatter`].
pub fn txt_format_app_route(
    balloon: &Option<AppBalloon>,
    has_raw_payload: bool,
    has_payload: bool,
    text: &Option<String>,
) -> (route: Result<AppRoute, AppRouteError>)
    ensures
        route == txt_app_route(*balloon, has_raw_payload, has_payload, *text),
{
    match balloon {
        None => Err(AppRouteError::WrongMessageType),
        Some(b) => {
            if let AppBalloon::Handwriting = b {
                if has_raw_payload {
                    return Ok(AppRoute::Handwriting);
                }
            }
            if has_payload {
                Ok(route_with_payload(b))
            } else {
                route_without_payload(b, text)
            }
        },
    }
}

/// Picks the formatter of an app message for the NDJSON exporter.
///
/// `balloon` is `None` for a message that is not an app message; `has_payload`
/// says whether the message's payload was found; `text` is the message's text.
/// The NDJSON exporter has no formatter for a Digital Touch payload: it goes to
/// [`AppRoute::NoFormatter`].
pub fn ndjson_format_app_route(
    balloon: &Option<AppBalloon>,
    has_payload: bool,
    text: &Option<String>,
) -> (route: Result<AppRoute, AppRouteError>)
    ensures
        route == ndjson_app_route(*balloon, has_payload, *text),
{
    match balloon {
        None => Err(AppRouteError::WrongMessageType),
        Some(b) => {
            if let AppBalloon::Handwriting = b {
                return Ok(AppRoute::Handwriting);
            }
            if has_payload {
                Ok(route_with_payload(b))
            } else {
                route_without_payload(b, text)
            }
        },
    }
}

/// Whatever the payloads, a message that is not an app message is refused as
/// the wrong type by both exporters, and an app message that is not handwriting
/// goes to the same formatter in both.
pub proof fn lemma_routes_agree(
    balloon: Option<AppBalloon>,
    has_raw_payload: bool,
    has_payload: bool,
    text: Option<String>,
)
    requires
        balloon matches Some(b) ==> !(b is Handwriting),
    ensures
        txt_app_route(balloon, has_raw_payload, has_payload, text) == ndjson_app_route(
            balloon,
            has_payload,
            text,
        ),
        balloon is None ==> txt_app_route(balloon, has_raw_payload, has_payload, text) == Err::<
            AppRoute,
            AppRouteError,
        >(AppRouteError::WrongMessageType),
{
}

} // verus!
