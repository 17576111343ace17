//! Durations and renewal thresholds as a configuration writes them, and the
//! instant from which a certificate is to be renewed.

use vstd::prelude::*;
use crate::text::all_digits;
use crate::text::chars_of;
use crate::text::decimal;
use crate::text::parse_decimal;

verus! {

/// How long before expiry a certificate is renewed.
#[derive(Clone, Copy, Debug, PartialEq, Eq)]
pub enum RenewThreshold {
    /// A fixed number of seconds before expiry.
    Before(u64),
    /// A share of the certificate's whole validity, in percent, taken to the
    /// nearest whole day.
    Percent(u8),
}

/// Seconds in the unit that a duration's last character names.
pub open spec fn unit_seconds(c: char) -> Option<nat> {
    if c == 's' {
        Some(1)
    } else if c == 'm' {
        Some(60)
    } else if c == 'h' {
        Some(3_600)
    } else if c == 'd' {
        Some(86_400)
    } else if c == 'w' {
        Some(604_800)
    } else {
        None
    }
}

/// The seconds that a duration such as `30d` stands for: decimal digits
/// followed by one of the units `s`, `m`, `h`, `d`, `w`.
pub open spec fn duration_of(s: Seq<char>) -> Option<nat> {
    if s.len() >= 2 && all_digits(s.drop_last()) {
        match unit_seconds(s.last()) {
            Some(unit) => Some(decimal(s.drop_last()) * unit),
            None => None,
        }
    } else {
        None
    }
}

/// The percentage that a text such as `33%` stands for: decimal digits worth
/// at most 100, followed by a percent sign.
pub open spec fn percent_of(s: Seq<char>) -> Option<nat> {
    if s.len() >= 2 && s.last() == '%' && all_digits(s.drop_last()) && decimal(s.drop_last())
        <= 100 {
        Some(decimal(s.drop_last()))
    } else {
        None
    }
}

/// The threshold that a text stands for: a percentage where it ends in a
/// percent sign, a duration that fits in 64 bits otherwise.
pub open spec fn threshold_of(s: Seq<char>) -> Option<RenewThreshold> {
    if s.len() > 0 && s.last() == '%' {
        match percent_of(s) {
            Some(p) => Some(RenewThreshold::Percent(p as u8)),
            None => None,
        }
    } else {
        match duration_of(s) {
            Some(d) => if d <= u64::MAX {
                Some(RenewThreshold::Before(d as u64))
            } else {
                None
            },
            None => None,
        }
    }
}

fn unit_of(c: char) -> (r: Option<u64>)
    ensures
        r is Some <==> unit_seconds(c) is Some,
        r matches Some(u) ==> unit_seconds(c) == Some(u as nat),
{
    if c == 's' {
        Some(1)
    } else if c == 'm' {
        Some(60)
    } else if c == 'h' {
        Some(3_600)
    } else if c == 'd' {
        Some(86_400)
    } else if c == 'w' {
        Some(604_800)
    } else {
        None
    }
}

/// Reads a duration in seconds. There is a result exactly when the text is a
/// duration and its seconds fit in 64 bits.
pub fn parse_duration(s: &str) -> (r: Option<u64>)
    ensures
        r is Some <==> duration_of(s@) is Some && duration_of(s@)->0 <= u64::MAX,
        r matches Some(n) ==> duration_of(s@) == Some(n as nat),
{
    let mut chars = chars_of(s);
    if chars.len() < 2 {
        return None;
    }
    let last = chars.pop().unwrap();
    let unit = match unit_of(last) {
        Some(u) => u,
        None => {
            return None;
        },
    };
    match parse_decimal(&chars) {
        Some(n) => {
            let r = n.checked_mul(unit);
            r
        },
        None => {
            proof {
                if all_digits(chars@) {
                    assert(decimal(chars@) * unit >= decimal(chars@)) by (nonlinear_arith)
                        requires
                            unit >= 1,
                    ;
                }
            }
            None
        },
    }
}

/// Reads a renewal threshold, in either form.
pub fn parse_threshold(s: &str) -> (r: Option<RenewThreshold>)
    ensures
        r == threshold_of(s@),
{
    let mut chars = chars_of(s);
    let n = chars.len();
    if n > 0 && chars[n - 1] == '%' {
        if n < 2 {
            return None;
        }
        chars.pop();
        match parse_decimal(&chars) {
            Some(p) => {
                if p <= 100 {
                    Some(RenewThreshold::Percent(p as u8))
                } else {
                    None
                }
            },
            None => None,
        }
    } else {
        match parse_duration(s) {
            Some(d) => Some(RenewThreshold::Before(d)),
            None => None,
        }
    }
}

/// The seconds between issuance and expiry; none where the two are reversed.
pub open spec fn validity(issued_at: u64, expires_at: u64) -> nat {
    if expires_at >= issued_at {
        (expires_at - issued_at) as nat
    } else {
        0
    }
}

/// The share `percent` of `validity` seconds, taken to the nearest whole day
/// (a half rounds up).
pub open spec fn percent_seconds(validity: nat, percent: nat) -> nat {
    (validity * percent + 4_320_000) / 8_640_000 * 86_400
}

impl RenewThreshold {
    /// The seconds before expiry that this threshold means for a certificate
    /// valid for `validity` seconds.
    pub open spec fn seconds(self, validity: nat) -> nat {
        match self {
            RenewThreshold::Before(d) => d as nat,
            RenewThreshold::Percent(p) => percent_seconds(validity, p as nat),
        }
    }

    /// The instant from which a certificate issued at `issued_at` and
    /// expiring at `expires_at` is to be renewed: the threshold's seconds
    /// before expiry, and the start of time where they reach further back.
    pub open spec fn renew_at_spec(self, issued_at: u64, expires_at: u64) -> nat {
        let before = self.seconds(validity(issued_at, expires_at));
        if before >= expires_at as nat {
            0
        } else {
            (expires_at as nat - before) as nat
        }
    }

    /// Computes [`Self::renew_at_spec`].
    pub fn renew_at(&self, issued_at: u64, expires_at: u64) -> (r: u64)
        ensures
            r as nat == self.renew_at_spec(issued_at, expires_at),
            r <= expires_at,
    {
        match self {
            RenewThreshold::Before(d) => {
                if *d >= expires_at {
                    0
                } else {
                    expires_at - *d
                }
            },
            RenewThreshold::Percent(p) => {
                let valid: u64 = if expires_at >= issued_at {
                    expires_at - issued_at
                } else {
                    0
                };
                let wide: u128 = valid as u128;
                let share: u128 = *p as u128;
                assert(wide * share <= 0xffff_ffff_ffff_ffff * 255) by (nonlinear_arith)
                    requires
                        wide <= 0xffff_ffff_ffff_ffff,
                        share <= 255,
                ;
                let days: u128 = (wide * share + 4_320_000) / 8_640_000;
                let before: u128 = days * 86_400;
                if before >= expires_at as u128 {
                    0
                } else {
                    expires_at - before as u64
                }
            },
        }
    }
}

/// A percentage and the days it comes to name the same instant: whatever
/// the certificate, the threshold `percent` and the threshold of `days`
/// days give one renewal instant whenever `days` is the share's nearest
/// whole day.
pub proof fn law_percent_matches_days(issued_at: u64, expires_at: u64, percent: u8, days: nat)
    requires
        days * 86_400 <= u64::MAX,
        8_640_000 * days <= validity(issued_at, expires_at) * percent + 4_320_000,
        validity(issued_at, expires_at) * percent + 4_320_000 < 8_640_000 * (days + 1),
    ensures
        RenewThreshold::Percent(percent).renew_at_spec(issued_at, expires_at)
            == RenewThreshold::Before((days * 86_400) as u64).renew_at_spec(issued_at, expires_at),
{
    let x = validity(issued_at, expires_at) * (percent as nat) + 4_320_000;
    assert(x / 8_640_000 == days) by (nonlinear_arith)
        requires
            8_640_000 * days <= x,
            x < 8_640_000 * (days + 1),
    ;
}

/// For a certificate valid for whole days this reads: `days` days and
/// `percent` percent give one renewal instant whenever `days` is the
/// nearest whole number to that share of the days of validity. Thirty days
/// and 33 percent of ninety days are such a pair.
pub proof fn law_percent_of_whole_days(
    issued_at: u64,
    expires_at: u64,
    validity_days: nat,
    percent: u8,
    days: nat,
)
    requires
        expires_at >= issued_at,
        expires_at - issued_at == validity_days * 86_400,
        days * 86_400 <= u64::MAX,
        100 * days <= validity_days * percent + 50,
        validity_days * percent + 50 < 100 * days + 100,
    ensures
        RenewThreshold::Percent(percent).renew_at_spec(issued_at, expires_at)
            == RenewThreshold::Before((days * 86_400) as u64).renew_at_spec(issued_at, expires_at),
{
    let v = validity(issued_at, expires_at);
    assert(v * (percent as nat) + 4_320_000 == (validity_days * percent + 50) * 86_400)
        by (nonlinear_arith)
        requires
            v == validity_days * 86_400,
    ;
    assert(8_640_000 * days <= (validity_days * percent + 50) * 86_400 && (validity_days * percent
        + 50) * 86_400 < 8_640_000 * (days + 1)) by (nonlinear_arith)
        requires
            100 * days <= validity_days * percent + 50,
            validity_days * percent + 50 < 100 * days + 100,
    ;
    law_percent_matches_days(issued_at, expires_at, percent, days);
}

} // verus!
