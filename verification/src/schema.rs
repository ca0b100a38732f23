//! Records of the fitness API: activities, athletes, faults and tokens,
//! and the decision which activities reach the map.

use vstd::prelude::*;
use vstd::string::StringSliceAdditionalSpecFns;
use vstd::utf8::encode_utf8;
use crate::polyline::{decode_points, Polyline};

verus! {

/// The kind of sport an activity records.
#[derive(Clone, Copy, Debug, PartialEq, Eq, Hash, Structural)]
#[allow(missing_docs)]
pub enum ActivityType {
    AlpineSki,
    BackcountrySki,
    Canoeing,
    Crossfit,
    EBikeRide,
    Elliptical,
    Golf,
    Handcycle,
    Hike,
    IceSkate,
    InlineSkate,
    Kayaking,
    Kitesurf,
    NordicSki,
    Ride,
    RockClimbing,
    RollerSki,
    Rowing,
    Run,
    Sail,
    Skateboard,
    Snowboard,
    Snowshoe,
    Soccer,
    StairStepper,
    StandUpPaddling,
    Surfing,
    Swim,
    Velomobile,
    VirtualRide,
    VirtualRun,
    Walk,
    WeightTraining,
    Wheelchair,
    Windsurf,
    Workout,
    Yoga,
}

/// An error detail in a fault message of the API.
pub struct StravaError {
    /// Machine-readable error code.
    pub code: String,
    /// The field the error refers to.
    pub field: String,
    /// The resource the error refers to.
    pub resource: String,
}

/// A fault message of the API.
pub struct Fault {
    /// Human-readable message.
    pub message: String,
    /// The individual errors.
    pub errors: Vec<StravaError>,
}

/// The result of an OAuth token exchange.
pub struct Token {
    /// Kind of the token.
    pub token_type: String,
    /// Expiry instant, in seconds since the epoch.
    pub expires_at: u32,
    /// Seconds until expiry.
    pub expires_in: u32,
    /// Token to refresh the access token with.
    pub refresh_token: String,
    /// OAuth access token.
    pub access_token: String,
}

/// The authenticated athlete.
pub struct DetailedAthlete {
    /// Unique identifier.
    pub id: u64,
    /// Given name.
    pub firstname: String,
    /// Family name.
    pub lastname: String,
}

/// A summary activity, as the listing endpoint returns it.
pub struct SummaryActivity {
    /// The unique identifier of the activity.
    pub id: u64,
    /// The type of activity.
    pub activity_type: ActivityType,
}

/// The polylines of an activity on the map.
pub struct PolylineMap {
    /// Identifier of the map.
    pub id: String,
    /// The detailed polyline of the map, Google-encoded.
    pub polyline: Option<String>,
    /// A summary polyline of the map, Google-encoded.
    pub summary_polyline: Option<String>,
}

/// A detailed activity, as the per-activity endpoint returns it.
pub struct DetailedActivity {
    /// Unique identifier.
    pub id: u64,
    /// Name of the activity.
    pub name: String,
    /// Moving time, in seconds.
    pub moving_time: u32,
    /// Elapsed time, in seconds.
    pub elapsed_time: u32,
    /// The type of activity.
    pub activity_type: ActivityType,
    /// Kind of workout, where recorded.
    pub workout_type: Option<u32>,
    /// Free-form description.
    pub description: Option<String>,
    /// The polyline track of the activity on the map.
    pub map: PolylineMap,
}

impl DetailedActivity {
    /// The polyline an activity contributes to the map: its detailed
    /// polyline (never the summary), decoded, and only when that yields at
    /// least one point. Activities without one are silently skipped.
    pub fn track_points(&self) -> (r: Option<Polyline>)
        ensures
            match r {
                Some(p) => {
                    &&& self.map.polyline matches Some(s)
                    &&& decode_points(encode_utf8(s@), 0) == Some(p.points@)
                    &&& p.points@.len() > 0
                },
                None => match self.map.polyline {
                    None => true,
                    Some(s) => decode_points(encode_utf8(s@), 0) is None
                        || decode_points(encode_utf8(s@), 0)
                            == Some(Seq::<crate::geom::Point<i32>>::empty()),
                },
            },
    {
        match &self.map.polyline {
            None => None,
            Some(encoded) => {
                match Polyline::new(encoded.as_str()) {
                    None => None,
                    Some(p) => {
                        if p.len() > 0 {
                            Some(p)
                        } else {
                            proof {
                                assert(p.points@ =~= Seq::<crate::geom::Point<i32>>::empty());
                            }
                            None
                        }
                    },
                }
            },
        }
    }
}


/// The sport kind a name denotes, matching the names the API uses;
/// `None` for an unknown name.
pub open spec fn spec_from_name(s: Seq<char>) -> Option<ActivityType> {
    if s == "AlpineSki"@ {
        Some(ActivityType::AlpineSki)
    } else     if s == "BackcountrySki"@ {
        Some(ActivityType::BackcountrySki)
    } else     if s == "Canoeing"@ {
        Some(ActivityType::Canoeing)
    } else     if s == "Crossfit"@ {
        Some(ActivityType::Crossfit)
    } else     if s == "EBikeRide"@ {
        Some(ActivityType::EBikeRide)
    } else     if s == "Elliptical"@ {
        Some(ActivityType::Elliptical)
    } else     if s == "Golf"@ {
        Some(ActivityType::Golf)
    } else     if s == "Handcycle"@ {
        Some(ActivityType::Handcycle)
    } else     if s == "Hike"@ {
        Some(ActivityType::Hike)
    } else     if s == "IceSkate"@ {
        Some(ActivityType::IceSkate)
    } else     if s == "InlineSkate"@ {
        Some(ActivityType::InlineSkate)
    } else     if s == "Kayaking"@ {
        Some(ActivityType::Kayaking)
    } else     if s == "Kitesurf"@ {
        Some(ActivityType::Kitesurf)
    } else     if s == "NordicSki"@ {
        Some(ActivityType::NordicSki)
    } else     if s == "Ride"@ {
        Some(ActivityType::Ride)
    } else     if s == "RockClimbing"@ {
        Some(ActivityType::RockClimbing)
    } else     if s == "RollerSki"@ {
        Some(ActivityType::RollerSki)
    } else     if s == "Rowing"@ {
        Some(ActivityType::Rowing)
    } else     if s == "Run"@ {
        Some(ActivityType::Run)
    } else     if s == "Sail"@ {
        Some(ActivityType::Sail)
    } else     if s == "Skateboard"@ {
        Some(ActivityType::Skateboard)
    } else     if s == "Snowboard"@ {
        Some(ActivityType::Snowboard)
    } else     if s == "Snowshoe"@ {
        Some(ActivityType::Snowshoe)
    } else     if s == "Soccer"@ {
        Some(ActivityType::Soccer)
    } else     if s == "StairStepper"@ {
        Some(ActivityType::StairStepper)
    } else     if s == "StandUpPaddling"@ {
        Some(ActivityType::StandUpPaddling)
    } else     if s == "Surfing"@ {
        Some(ActivityType::Surfing)
    } else     if s == "Swim"@ {
        Some(ActivityType::Swim)
    } else     if s == "Velomobile"@ {
        Some(ActivityType::Velomobile)
    } else     if s == "VirtualRide"@ {
        Some(ActivityType::VirtualRide)
    } else     if s == "VirtualRun"@ {
        Some(ActivityType::VirtualRun)
    } else     if s == "Walk"@ {
        Some(ActivityType::Walk)
    } else     if s == "WeightTraining"@ {
        Some(ActivityType::WeightTraining)
    } else     if s == "Wheelchair"@ {
        Some(ActivityType::Wheelchair)
    } else     if s == "Windsurf"@ {
        Some(ActivityType::Windsurf)
    } else     if s == "Workout"@ {
        Some(ActivityType::Workout)
    } else     if s == "Yoga"@ {
        Some(ActivityType::Yoga)
    } else {
        None
    }
}

/// Compares a name to a known literal.
fn eq_name(name: &str, lit: &str) -> (r: bool)
    ensures
        r == (name@ == lit@),
{
    let a = <String as vstd::string::StringExecFns>::from_str(name);
    let b = <String as vstd::string::StringExecFns>::from_str(lit);
    a == b
}

impl ActivityType {
    /// Parses the name of a sport kind; `None` for an unknown name.
    pub fn from_name(name: &str) -> (r: Option<ActivityType>)
        ensures
            r == Self::spec_from_name_of(name@),
    {
        if eq_name(name, "AlpineSki") {
            return Some(ActivityType::AlpineSki);
        }
        if eq_name(name, "BackcountrySki") {
            return Some(ActivityType::BackcountrySki);
        }
        if eq_name(name, "Canoeing") {
            return Some(ActivityType::Canoeing);
        }
        if eq_name(name, "Crossfit") {
            return Some(ActivityType::Crossfit);
        }
        if eq_name(name, "EBikeRide") {
            return Some(ActivityType::EBikeRide);
        }
        if eq_name(name, "Elliptical") {
            return Some(ActivityType::Elliptical);
        }
        if eq_name(name, "Golf") {
            return Some(ActivityType::Golf);
        }
        if eq_name(name, "Handcycle") {
            return Some(ActivityType::Handcycle);
        }
        if eq_name(name, "Hike") {
            return Some(ActivityType::Hike);
        }
        if eq_name(name, "IceSkate") {
            return Some(ActivityType::IceSkate);
        }
        if eq_name(name, "InlineSkate") {
            return Some(ActivityType::InlineSkate);
        }
        if eq_name(name, "Kayaking") {
            return Some(ActivityType::Kayaking);
        }
        if eq_name(name, "Kitesurf") {
            return Some(ActivityType::Kitesurf);
        }
        if eq_name(name, "NordicSki") {
            return Some(ActivityType::NordicSki);
        }
        if eq_name(name, "Ride") {
            return Some(ActivityType::Ride);
        }
        if eq_name(name, "RockClimbing") {
            return Some(ActivityType::RockClimbing);
        }
        if eq_name(name, "RollerSki") {
            return Some(ActivityType::RollerSki);
        }
        if eq_name(name, "Rowing") {
            return Some(ActivityType::Rowing);
        }
        if eq_name(name, "Run") {
            return Some(ActivityType::Run);
        }
        if eq_name(name, "Sail") {
            return Some(ActivityType::Sail);
        }
        if eq_name(name, "Skateboard") {
            return Some(ActivityType::Skateboard);
        }
        if eq_name(name, "Snowboard") {
            return Some(ActivityType::Snowboard);
        }
        if eq_name(name, "Snowshoe") {
            return Some(ActivityType::Snowshoe);
        }
        if eq_name(name, "Soccer") {
            return Some(ActivityType::Soccer);
        }
        if eq_name(name, "StairStepper") {
            return Some(ActivityType::StairStepper);
        }
        if eq_name(name, "StandUpPaddling") {
            return Some(ActivityType::StandUpPaddling);
        }
        if eq_name(name, "Surfing") {
            return Some(ActivityType::Surfing);
        }
        if eq_name(name, "Swim") {
            return Some(ActivityType::Swim);
        }
        if eq_name(name, "Velomobile") {
            return Some(ActivityType::Velomobile);
        }
        if eq_name(name, "VirtualRide") {
            return Some(ActivityType::VirtualRide);
        }
        if eq_name(name, "VirtualRun") {
            return Some(ActivityType::VirtualRun);
        }
        if eq_name(name, "Walk") {
            return Some(ActivityType::Walk);
        }
        if eq_name(name, "WeightTraining") {
            return Some(ActivityType::WeightTraining);
        }
        if eq_name(name, "Wheelchair") {
            return Some(ActivityType::Wheelchair);
        }
        if eq_name(name, "Windsurf") {
            return Some(ActivityType::Windsurf);
        }
        if eq_name(name, "Workout") {
            return Some(ActivityType::Workout);
        }
        if eq_name(name, "Yoga") {
            return Some(ActivityType::Yoga);
        }
        None
    }

    /// The sport kind a name denotes.
    pub open spec fn spec_from_name_of(s: Seq<char>) -> Option<ActivityType> {
        spec_from_name(s)
    }
}

/// Whether a byte is an ASCII decimal digit.
pub open spec fn is_digit_byte(b: u8) -> bool {
    48 <= b <= 57
}

/// Whether a byte is a lowercase hexadecimal digit.
pub open spec fn is_lower_hex_byte(b: u8) -> bool {
    is_digit_byte(b) || (97 <= b <= 102)
}

/// Configuration identifying an application on the fitness API.
pub struct StravaConfig {
    /// Application ID; all decimal digits.
    pub client_id: String,
    /// Client secret for this application; all lowercase hexadecimal.
    pub client_secret: String,
}

impl StravaConfig {
    /// The configuration is acceptable when the client ID is all decimal
    /// digits and the client secret all lowercase hexadecimal (stated over
    /// the UTF-8 bytes; both alphabets are ASCII).
    pub open spec fn valid(self) -> bool {
        &&& forall|i: int| 0 <= i < encode_utf8(self.client_id@).len()
                ==> is_digit_byte(#[trigger] encode_utf8(self.client_id@)[i])
        &&& forall|i: int| 0 <= i < encode_utf8(self.client_secret@).len()
                ==> is_lower_hex_byte(#[trigger] encode_utf8(self.client_secret@)[i])
    }

    /// Checks the shape of the configuration.
    pub fn validate(&self) -> (r: bool)
        ensures
            r == self.valid(),
    {
        let id_str = self.client_id.as_str();
        let secret_str = self.client_secret.as_str();
        let id_ok = all_digit_bytes(id_str);
        let secret_ok = all_lower_hex_bytes(secret_str);
        proof {
            assert(id_str.spec_bytes() == encode_utf8(self.client_id@));
            assert(secret_str.spec_bytes() == encode_utf8(self.client_secret@));
        }
        id_ok && secret_ok
    }
}

/// Checks that every byte of the string is a decimal digit.
fn all_digit_bytes(s: &str) -> (r: bool)
    ensures
        r == (forall|i: int| 0 <= i < s.spec_bytes().len()
            ==> is_digit_byte(#[trigger] s.spec_bytes()[i])),
{
    let bytes = s.as_bytes();
    let mut i: usize = 0;
    let n = bytes.len();
    while i < n
        invariant
            n == bytes@.len(),
            bytes@ == s.spec_bytes(),
            i <= n,
            forall|j: int| 0 <= j < i ==> is_digit_byte(#[trigger] bytes@[j]),
        decreases n - i,
    {
        if !(48 <= bytes[i] && bytes[i] <= 57) {
            return false;
        }
        i = i + 1;
    }
    true
}

/// Checks that every byte of the string is a lowercase hexadecimal digit.
fn all_lower_hex_bytes(s: &str) -> (r: bool)
    ensures
        r == (forall|i: int| 0 <= i < s.spec_bytes().len()
            ==> is_lower_hex_byte(#[trigger] s.spec_bytes()[i])),
{
    let bytes = s.as_bytes();
    let mut i: usize = 0;
    let n = bytes.len();
    while i < n
        invariant
            n == bytes@.len(),
            bytes@ == s.spec_bytes(),
            i <= n,
            forall|j: int| 0 <= j < i ==> is_lower_hex_byte(#[trigger] bytes@[j]),
        decreases n - i,
    {
        let b = bytes[i];
        if !((48 <= b && b <= 57) || (97 <= b && b <= 102)) {
            return false;
        }
        i = i + 1;
    }
    true
}

} // verus!
