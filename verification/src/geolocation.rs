//! What to make of the platform's answers when the position service is
//! asked for access. The calls to the platform are the driver's; what they
//! returned comes here as plain values.

use vstd::prelude::*;

verus! {

/// Why the position service cannot be used.
#[derive(Clone, Copy, Debug, PartialEq, Eq, Structural)]
pub enum GeolocationError {
    /// The user or the system has refused access.
    AccessDenied,
    /// The platform has not said whether access is allowed.
    AccessUnspecified,
    /// A call to the platform has failed.
    Unknown,
}

/// An error of this library.
#[derive(Clone, Copy, Debug, PartialEq, Eq, Structural)]
pub enum DioxusStdError {
    Geolocation(GeolocationError),
}

/// The platform's status for "access is allowed".
pub const ACCESS_ALLOWED: i32 = 1;

/// The platform's status for "access is denied".
pub const ACCESS_DENIED: i32 = 2;

/// What the answer to a request for access means: `None` stands for a
/// request that failed or whose answer could not be had, `Some` holds the
/// status that the platform gave. Only "allowed" lets the caller go on; a
/// status that is neither "allowed" nor "denied" counts as unspecified.
pub open spec fn access_verdict(status: Option<i32>) -> Result<(), GeolocationError> {
    match status {
        None => Err(GeolocationError::Unknown),
        Some(code) => if code == ACCESS_ALLOWED {
            Ok(())
        } else if code == ACCESS_DENIED {
            Err(GeolocationError::AccessDenied)
        } else {
            Err(GeolocationError::AccessUnspecified)
        },
    }
}

/// Access to the position service, once it was granted.
pub struct Geolocator {
    permission_granted: bool,
}

impl Geolocator {
    /// Whether access was granted. It always was: there is no `Geolocator`
    /// without it.
    pub closed spec fn permission_granted(&self) -> bool {
        self.permission_granted
    }

    /// As `request_access`.
    pub fn new(status: Option<i32>) -> (made: Result<Geolocator, DioxusStdError>)
        ensures
            made is Ok <==> access_verdict(status) is Ok,
            made matches Ok(g) ==> g.permission_granted(),
            made matches Err(e) ==> access_verdict(status) == Err::<(), GeolocationError>(
                e->Geolocation_0,
            ),
    {
        Geolocator::request_access(status)
    }

    /// Decides on the platform's answer to a request for access: a
    /// `Geolocator` if access is allowed, and the error that
    /// `access_verdict` names if it is not.
    pub fn request_access(status: Option<i32>) -> (made: Result<Geolocator, DioxusStdError>)
        ensures
            made is Ok <==> access_verdict(status) is Ok,
            made matches Ok(g) ==> g.permission_granted(),
            made matches Err(e) ==> access_verdict(status) == Err::<(), GeolocationError>(
                e->Geolocation_0,
            ),
    {
        match status {
            None => Err(DioxusStdError::Geolocation(GeolocationError::Unknown)),
            Some(code) => {
                if code == ACCESS_ALLOWED {
                    Ok(Geolocator { permission_granted: true })
                } else if code == ACCESS_DENIED {
                    Err(DioxusStdError::Geolocation(GeolocationError::AccessDenied))
                } else {
                    Err(DioxusStdError::Geolocation(GeolocationError::AccessUnspecified))
                }
            },
        }
    }

    /// Decides on the two calls that start the tracking: setting the report
    /// interval and watching the position. Tracking has started if both went
    /// well; any failure is reported as `Unknown`.
    pub fn start_tracking(self, interval_set: bool, watching: bool) -> (started: Result<
        (),
        DioxusStdError,
    >)
        ensures
            started is Ok <==> interval_set && watching,
            started matches Err(e) ==> e == DioxusStdError::Geolocation(GeolocationError::Unknown),
    {
        platform_call(interval_set && watching)
    }
}

/// What to make of a call to the platform that gives nothing back: it went
/// well, or the position service is reported as failing for a reason that is
/// not known.
pub fn platform_call(succeeded: bool) -> (done: Result<(), DioxusStdError>)
    ensures
        done is Ok <==> succeeded,
        done matches Err(e) ==> e == DioxusStdError::Geolocation(GeolocationError::Unknown),
{
    if succeeded {
        Ok(())
    } else {
        Err(DioxusStdError::Geolocation(GeolocationError::Unknown))
    }
}

} // verus!
