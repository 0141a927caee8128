//! Memory pressure levels reported by the local inference broker or the kernel.
use vstd::prelude::*;
use vstd::string::*;
use crate::error::RouterError;
use crate::text::{eq_ascii_ci, eq_ignore_ascii_case};

verus! {

/// The error a pressure reply from the inference broker carries: where its
/// `error` field holds text, the reply is refused with that text.
pub fn pressure_reply_error(error: Option<&str>) -> (r: Option<RouterError>)
    ensures
        match error {
            Some(t) => r matches Some(RouterError::Varlink(m)) && m@ == "Inferenced error reply: "@ + t@,
            None => r is None,
        },
{
    match error {
        Some(t) => {
            let mut m = String::from_str("Inferenced error reply: ");
            m.append(t);
            Some(RouterError::Varlink(m))
        },
        None => None,
    }
}

#[derive(Clone, Copy, PartialEq, Eq, Structural, Debug)]
pub enum PressureLevel {
    Normal,
    Elevated,
    Critical,
}

impl Default for PressureLevel {
    fn default() -> (r: Self)
        ensures
            r == PressureLevel::Normal,
    {
        PressureLevel::Normal
    }
}

impl PressureLevel {
    pub open spec fn name_spec(self) -> Seq<char> {
        match self {
            PressureLevel::Normal => "Normal"@,
            PressureLevel::Elevated => "Elevated"@,
            PressureLevel::Critical => "Critical"@,
        }
    }

    /// The level's name as status reports print it (its `Debug` form).
    pub fn name(&self) -> (s: String)
        ensures
            s@ == self.name_spec(),
    {
        match self {
            PressureLevel::Normal => String::from_str("Normal"),
            PressureLevel::Elevated => String::from_str("Elevated"),
            PressureLevel::Critical => String::from_str("Critical"),
        }
    }
}

/// The level named in a broker reply, compared without ASCII case;
/// anything else reads as `Normal`.
pub open spec fn level_from_name(s: Seq<char>) -> PressureLevel {
    if eq_ascii_ci(s, "critical"@) {
        PressureLevel::Critical
    } else if eq_ascii_ci(s, "elevated"@) {
        PressureLevel::Elevated
    } else {
        PressureLevel::Normal
    }
}

pub fn parse_pressure_level(s: &str) -> (l: PressureLevel)
    ensures
        l == level_from_name(s@),
{
    if eq_ignore_ascii_case(s, "critical") {
        PressureLevel::Critical
    } else if eq_ignore_ascii_case(s, "elevated") {
        PressureLevel::Elevated
    } else {
        PressureLevel::Normal
    }
}

/// The level that a simulation setting asks for: `critical` or `elevated`
/// (without ASCII case), else none.
pub open spec fn simulated_level_spec(s: Seq<char>) -> Option<PressureLevel> {
    if eq_ascii_ci(s, "critical"@) {
        Some(PressureLevel::Critical)
    } else if eq_ascii_ci(s, "elevated"@) {
        Some(PressureLevel::Elevated)
    } else {
        None
    }
}

pub fn simulated_level(s: &str) -> (l: Option<PressureLevel>)
    ensures
        l == simulated_level_spec(s@),
{
    if eq_ignore_ascii_case(s, "critical") {
        Some(PressureLevel::Critical)
    } else if eq_ignore_ascii_case(s, "elevated") {
        Some(PressureLevel::Elevated)
    } else {
        None
    }
}

} // verus!
