//! The inference gateway: who may ask, where a request goes, what it costs and
//! what is reported of it.
pub mod admission;
pub mod auth;
pub mod billing;
pub mod config;
pub mod context;
pub mod delivery;
pub mod filter;
pub mod proxy;
pub mod quota;
pub mod segments;
pub mod storage;
pub mod streaming;
pub mod traffic;
pub mod usage;
pub mod wal;

use vstd::prelude::*;

verus! {

/// The minute of a second since the Unix epoch, cut towards it.
pub open spec fn minute_value(timestamp: int) -> int {
    if timestamp >= 0 {
        timestamp / 60
    } else {
        -((-timestamp) / 60)
    }
}

pub(crate) fn minute_of(timestamp: i64) -> (r: i64)
    ensures
        r == minute_value(timestamp as int),
        -153_722_867_280_912_931 < r < 153_722_867_280_912_931,
{
    if timestamp >= 0 {
        timestamp / 60
    } else {
        let away: i128 = -(timestamp as i128);
        (-(away / 60)) as i64
    }
}

/// Why a request is refused: with a status of HTTP, or by a fault of the gateway
/// itself.
#[derive(Clone, Copy, Debug)]
pub struct Refusal {
    pub status: Option<u16>,
    pub message: &'static str,
}

/// A refusal with its text spelled out.
pub ghost struct Why {
    pub status: Option<u16>,
    pub message: Seq<char>,
}

impl View for Refusal {
    type V = Why;

    open spec fn view(&self) -> Why {
        Why { status: self.status, message: self.message@ }
    }
}

pub(crate) fn http_refusal(status: u16, message: &'static str) -> (r: Refusal)
    ensures
        r@ == (Why { status: Some(status), message: message@ }),
{
    Refusal { status: Some(status), message }
}

pub(crate) fn internal_refusal(message: &'static str) -> (r: Refusal)
    ensures
        r@ == (Why { status: None, message: message@ }),
{
    Refusal { status: None, message }
}

} // verus!
