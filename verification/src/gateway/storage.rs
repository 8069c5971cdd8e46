//! Conservative reservations of space, of this process alone; not a quota of the
//! filesystem.
use crate::text::{join, parse_u64, unsigned_value};
use vstd::prelude::*;

verus! {

/// The largest records of a request, with a margin for what is kept about them.
pub const REQUEST_SPACE: u64 = 2_129_920;

#[derive(Clone, Copy, Debug, PartialEq, Eq, Structural)]
pub struct StorageSettings {
    pub segment_bytes: u64,
    pub max_bytes: u64,
    pub min_free_bytes: u64,
}

/// A number of the environment, or what stands for it where it is not set.
pub open spec fn size_of(value: Option<String>, fallback: u64) -> Option<u64> {
    match value {
        None => Some(fallback),
        Some(text) => match unsigned_value(text@) {
            Some(n) if n <= u64::MAX => Some(n as u64),
            _ => None,
        },
    }
}

fn number(name: &str, value: &Option<String>, fallback: u64) -> (r: Result<u64, String>)
    ensures
        match r {
            Ok(n) => size_of(*value, fallback) == Some(n),
            Err(text) => size_of(*value, fallback) is None && text@ == "invalid "@ + name@,
        },
{
    match value {
        None => Ok(fallback),
        Some(text) => match parse_u64(text.as_str()) {
            Some(n) => Ok(n),
            None => Err(join("invalid ", name)),
        },
    }
}

/// Thresholds that leave room for a request.
pub open spec fn thresholds_sound(s: StorageSettings) -> bool {
    &&& s.segment_bytes > 0
    &&& s.segment_bytes <= s.max_bytes
    &&& s.max_bytes >= REQUEST_SPACE
    &&& s.min_free_bytes >= 4096
}

/// The settings that three values make, or what is wrong with them.
pub open spec fn settings_of(
    segment: Option<String>,
    max: Option<String>,
    min_free: Option<String>,
) -> Result<StorageSettings, Seq<char>> {
    let s = size_of(segment, 16_777_216);
    let m = size_of(max, 201_326_592);
    let f = size_of(min_free, 33_554_432);
    if s is None {
        Err("invalid XSCOPE_WAL_SEGMENT_BYTES"@)
    } else if m is None {
        Err("invalid XSCOPE_WAL_MAX_BYTES"@)
    } else if f is None {
        Err("invalid XSCOPE_WAL_MIN_FREE_BYTES"@)
    } else {
        let settings = StorageSettings {
            segment_bytes: s->0,
            max_bytes: m->0,
            min_free_bytes: f->0,
        };
        if thresholds_sound(settings) {
            Ok(settings)
        } else {
            Err("invalid WAL storage thresholds"@)
        }
    }
}

impl StorageSettings {
    /// Makes the settings out of what the environment holds under their names.
    pub fn from_env(
        segment: &Option<String>,
        max: &Option<String>,
        min_free: &Option<String>,
    ) -> (r: Result<Self, String>)
        ensures
            match (r, settings_of(*segment, *max, *min_free)) {
                (Ok(s), Ok(t)) => s == t,
                (Err(text), Err(expected)) => text@ == expected,
                _ => false,
            },
    {
        proof {
            reveal_strlit("invalid ");
            reveal_strlit("XSCOPE_WAL_SEGMENT_BYTES");
            reveal_strlit("XSCOPE_WAL_MAX_BYTES");
            reveal_strlit("XSCOPE_WAL_MIN_FREE_BYTES");
            reveal_strlit("invalid XSCOPE_WAL_SEGMENT_BYTES");
            reveal_strlit("invalid XSCOPE_WAL_MAX_BYTES");
            reveal_strlit("invalid XSCOPE_WAL_MIN_FREE_BYTES");
            assert("invalid "@ + "XSCOPE_WAL_SEGMENT_BYTES"@
                =~= "invalid XSCOPE_WAL_SEGMENT_BYTES"@);
            assert("invalid "@ + "XSCOPE_WAL_MAX_BYTES"@ =~= "invalid XSCOPE_WAL_MAX_BYTES"@);
            assert("invalid "@ + "XSCOPE_WAL_MIN_FREE_BYTES"@
                =~= "invalid XSCOPE_WAL_MIN_FREE_BYTES"@);
        }
        let segment_bytes = match number("XSCOPE_WAL_SEGMENT_BYTES", segment, 16_777_216) {
            Ok(n) => n,
            Err(text) => return Err(text),
        };
        let max_bytes = match number("XSCOPE_WAL_MAX_BYTES", max, 201_326_592) {
            Ok(n) => n,
            Err(text) => return Err(text),
        };
        let min_free_bytes = match number("XSCOPE_WAL_MIN_FREE_BYTES", min_free, 33_554_432) {
            Ok(n) => n,
            Err(text) => return Err(text),
        };
        if segment_bytes == 0 || segment_bytes > max_bytes || max_bytes < REQUEST_SPACE
            || min_free_bytes < 4096 {
            return Err("invalid WAL storage thresholds".to_owned());
        }
        Ok(StorageSettings { segment_bytes, max_bytes, min_free_bytes })
    }
}

/// The bytes that are kept for good, and those that requests have reserved.
pub struct StorageBudget {
    pub settings: StorageSettings,
    pub retained: u64,
    pub reserved: u64,
}

/// The space of one request. It may have several owners.
pub struct StoragePermit {
    pub owners: u64,
}

/// One more request fits, within the budget and within the space that is free.
pub open spec fn fits(b: StorageBudget, free: u64) -> bool {
    &&& b.retained + b.reserved + REQUEST_SPACE <= b.settings.max_bytes
    &&& b.reserved + REQUEST_SPACE + b.settings.min_free_bytes <= free
}

impl StorageBudget {
    pub fn new(settings: StorageSettings) -> (r: Self)
        ensures
            r == (StorageBudget { settings, retained: 0, reserved: 0 }),
    {
        StorageBudget { settings, retained: 0, reserved: 0 }
    }

    /// Whether one more request fits.
    pub fn is_ready(&self, free: u64) -> (r: bool)
        ensures
            r == fits(*self, free),
    {
        let within = match self.retained.checked_add(self.reserved) {
            Some(sum) => match sum.checked_add(REQUEST_SPACE) {
                Some(sum) => sum <= self.settings.max_bytes,
                None => false,
            },
            None => false,
        };
        let spared = match self.reserved.checked_add(REQUEST_SPACE) {
            Some(sum) => match sum.checked_add(self.settings.min_free_bytes) {
                Some(sum) => sum <= free,
                None => false,
            },
            None => false,
        };
        within && spared
    }

    /// Reserves the space of one request, while `free` bytes are free.
    pub fn reserve(&mut self, free: u64) -> (r: Result<StoragePermit, &'static str>)
        ensures
            match r {
                Ok(permit) => {
                    &&& fits(*old(self), free)
                    &&& permit.owners == 1
                    &&& *final(self) == (StorageBudget {
                        reserved: (old(self).reserved + REQUEST_SPACE) as u64,
                        ..*old(self)
                    })
                },
                Err(message) => {
                    &&& !fits(*old(self), free)
                    &&& message@ == "WAL capacity or free-space watermark reached"@
                    &&& *final(self) == *old(self)
                },
            },
    {
        if !self.is_ready(free) {
            return Err("WAL capacity or free-space watermark reached");
        }
        self.reserved = self.reserved + REQUEST_SPACE;
        Ok(StoragePermit { owners: 1 })
    }

    /// One owner of a permit is gone. With the last one its space is free again.
    pub fn release(&mut self, permit: &mut StoragePermit)
        requires
            old(permit).owners > 0,
            old(self).reserved >= REQUEST_SPACE,
        ensures
            final(permit).owners == old(permit).owners - 1,
            *final(self) == (StorageBudget {
                reserved: if old(permit).owners == 1 {
                    (old(self).reserved - REQUEST_SPACE) as u64
                } else {
                    old(self).reserved
                },
                ..*old(self)
            }),
    {
        permit.owners = permit.owners - 1;
        if permit.owners == 0 {
            self.reserved = self.reserved - REQUEST_SPACE;
        }
    }

    /// Counts bytes that are kept for good.
    pub fn add_retained(&mut self, bytes: u64) -> (r: Result<(), &'static str>)
        ensures
            match r {
                Ok(()) => {
                    &&& old(self).retained + bytes <= u64::MAX
                    &&& *final(self) == (StorageBudget {
                        retained: (old(self).retained + bytes) as u64,
                        ..*old(self)
                    })
                },
                Err(message) => {
                    &&& old(self).retained + bytes > u64::MAX
                    &&& message@ == "WAL size overflow"@
                    &&& *final(self) == *old(self)
                },
            },
    {
        match self.retained.checked_add(bytes) {
            Some(sum) => {
                self.retained = sum;
                Ok(())
            },
            None => Err("WAL size overflow"),
        }
    }
}

impl StoragePermit {
    /// One more owner.
    pub fn share(&mut self)
        requires
            old(self).owners < u64::MAX,
        ensures
            final(self).owners == old(self).owners + 1,
    {
        self.owners = self.owners + 1;
    }
}

/// What is retained and reserved after a reservation stays within the budget,
/// and leaves the free space that it must.
pub proof fn law_reservations_are_bounded(b: StorageBudget, free: u64)
    requires
        fits(b, free),
    ensures
        b.retained + (b.reserved + REQUEST_SPACE) <= b.settings.max_bytes,
        b.settings.min_free_bytes <= free - (b.reserved + REQUEST_SPACE),
{
}

/// A request is taken exactly if what is kept and what is promised leave room for it, both
/// within the limit and on the disk: a request that fits still fits with less kept, less
/// promised or more space.
pub proof fn law_less_kept_leaves_more_room(
    a: StorageBudget,
    b: StorageBudget,
    free: u64,
    more: u64,
)
    requires
        b.settings == a.settings,
        b.retained <= a.retained,
        b.reserved <= a.reserved,
        free <= more,
    ensures
        fits(a, free) ==> fits(b, more),
        fits(a, free) ==> free >= a.settings.min_free_bytes + a.reserved,
        fits(a, free) ==> a.retained + a.reserved < a.settings.max_bytes,
        a.retained + a.reserved + 2_129_920 <= a.settings.max_bytes && a.reserved + 2_129_920
            + a.settings.min_free_bytes <= free ==> fits(a, free),
{
}

/// A segment is no longer than the log, the log has room for a request at least, and some
/// space stays free.
pub proof fn law_storage_settings_leave_room(
    segment: Option<String>,
    max: Option<String>,
    min_free: Option<String>,
)
    ensures
        settings_of(segment, max, min_free) matches Ok(s) ==> 0 < s.segment_bytes <= s.max_bytes
            && s.max_bytes >= 2_129_920 && s.min_free_bytes > 4_095,
        settings_of(None, None, None) == Ok::<StorageSettings, Seq<char>>(
            StorageSettings {
                segment_bytes: 16_777_216,
                max_bytes: 201_326_592,
                min_free_bytes: 33_554_432,
            },
        ),
{
}

} // verus!
