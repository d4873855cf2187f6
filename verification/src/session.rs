//! One downstream client's protocol state: its own sequence counter, the
//! catch-up replay it is owed on join, and the sequence rewrite applied to
//! every live frame it is fanned.

use vstd::prelude::*;

use crate::cache::Guilds;
use crate::deserializer::SequenceInfo;
use crate::model::{seq_view, ReadyTemplate};
use crate::text::spec_digits;

verus! {

/// A connected client: its local sequence counter (starting at 0, so its
/// first frame carries `s == 1`) and whether it asked for zlib-stream
/// compression.
pub struct ClientSession {
    pub seq: usize,
    pub use_zlib: bool,
}

impl ClientSession {
    pub fn new(use_zlib: bool) -> (r: ClientSession)
        ensures
            r.seq == 0,
            r.use_zlib == use_zlib,
    {
        ClientSession { seq: 0, use_zlib }
    }

    /// The catch-up a client receives on join: the synthetic `READY`, then
    /// one payload per cached guild, numbered consecutively from its own
    /// counter.
    pub fn catch_up(&mut self, cache: &Guilds, template: ReadyTemplate) -> (r: Vec<
        crate::cache::Payload,
    >)
        requires
            old(self).seq + 1 + cache.guilds@.len() <= usize::MAX,
        ensures
            final(self).seq == old(self).seq + 1 + cache.guilds@.len(),
            final(self).use_zlib == old(self).use_zlib,
            seq_view(r@) == cache@.spec_replay(template@, old(self).seq as int),
    {
        let ghost s0 = self.seq as int;
        let ghost tm = template@;
        let mut payloads: Vec<crate::cache::Payload> = Vec::new();
        let ready = cache.get_ready_payload(template, &mut self.seq);
        let ghost readym = ready@;
        payloads.push(ready);
        let mut rest = cache.get_guild_payloads(&mut self.seq);
        let ghost restv = rest@;
        payloads.append(&mut rest);
        proof {
            assert(seq_view(payloads@) =~= seq![readym] + seq_view(restv));
            assert(seq_view(payloads@) =~= cache@.spec_replay(tm, s0));
        }
        payloads
    }

    /// One live frame: the client's counter advances by one and the frame's
    /// `s` digits (at the span the deserializer reported) are replaced by
    /// the new counter; a frame without a sequence passes unchanged.
    pub fn live_step(&mut self, payload: &str, info: Option<&SequenceInfo>) -> (r: String)
        requires
            old(self).seq < usize::MAX,
            match info {
                Some(si) => si.start <= si.end <= payload@.len(),
                None => true,
            },
        ensures
            final(self).seq == old(self).seq + 1,
            final(self).use_zlib == old(self).use_zlib,
            r@ == match info {
                Some(si) => payload@.subrange(0, si.start as int) + spec_digits(
                    (old(self).seq + 1) as nat,
                ) + payload@.subrange(si.end as int, payload@.len() as int),
                None => payload@,
            },
    {
        self.seq = self.seq + 1;
        match info {
            Some(si) => crate::deserializer::rewrite_sequence(payload, si, self.seq as u64),
            None => payload.to_owned(),
        }
    }
}

} // verus!
