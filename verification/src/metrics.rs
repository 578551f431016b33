//! Counters of what the store has done.

use vstd::prelude::*;

verus! {

/// How long the operations of the store took in all, in nanoseconds, and
/// how many there were. The counters wrap around when they are full.
#[derive(Debug, Clone, Copy, PartialEq, Eq, Structural)]
pub struct GlobalMetrics {
    pub get_messages_ns: u64,
    pub save_message_ns: u64,
    pub find_media_ns: u64,
    pub get_media_ns: u64,
    pub call_counts: u64,
}

/// The sum of two counters, wrapped around at 2^64.
pub open spec fn wrapped_sum(a: u64, b: u64) -> u64 {
    ((a + b) % 0x1_0000_0000_0000_0000) as u64
}

fn add_wrapped(a: u64, b: u64) -> (s: u64)
    ensures
        s == wrapped_sum(a, b),
{
    if b <= u64::MAX - a {
        a + b
    } else {
        b - (u64::MAX - a) - 1
    }
}

impl Default for GlobalMetrics {
    fn default() -> (m: GlobalMetrics)
        ensures
            m == (GlobalMetrics {
                get_messages_ns: 0,
                save_message_ns: 0,
                find_media_ns: 0,
                get_media_ns: 0,
                call_counts: 0,
            }),
    {
        GlobalMetrics {
            get_messages_ns: 0,
            save_message_ns: 0,
            find_media_ns: 0,
            get_media_ns: 0,
            call_counts: 0,
        }
    }
}

impl GlobalMetrics {
    /// Notes that a message was saved in `nanos` nanoseconds.
    pub fn record_save(&mut self, nanos: u64)
        ensures
            *final(self) == (GlobalMetrics {
                save_message_ns: wrapped_sum(old(self).save_message_ns, nanos),
                call_counts: wrapped_sum(old(self).call_counts, 1),
                ..*old(self)
            }),
    {
        self.save_message_ns = add_wrapped(self.save_message_ns, nanos);
        self.call_counts = add_wrapped(self.call_counts, 1);
    }

    /// Notes that messages were read in `nanos` nanoseconds.
    pub fn record_get_messages(&mut self, nanos: u64)
        ensures
            *final(self) == (GlobalMetrics {
                get_messages_ns: wrapped_sum(old(self).get_messages_ns, nanos),
                call_counts: wrapped_sum(old(self).call_counts, 1),
                ..*old(self)
            }),
    {
        self.get_messages_ns = add_wrapped(self.get_messages_ns, nanos);
        self.call_counts = add_wrapped(self.call_counts, 1);
    }

    /// Notes that media was looked up in `nanos` nanoseconds.
    pub fn record_find_media(&mut self, nanos: u64)
        ensures
            *final(self) == (GlobalMetrics {
                find_media_ns: wrapped_sum(old(self).find_media_ns, nanos),
                ..*old(self)
            }),
    {
        self.find_media_ns = add_wrapped(self.find_media_ns, nanos);
    }

    /// Notes that media was read in `nanos` nanoseconds.
    pub fn record_get_media(&mut self, nanos: u64)
        ensures
            *final(self) == (GlobalMetrics {
                get_media_ns: wrapped_sum(old(self).get_media_ns, nanos),
                ..*old(self)
            }),
    {
        self.get_media_ns = add_wrapped(self.get_media_ns, nanos);
    }
}

} // verus!
