//! Chain transforms.

use crate::event::{EventModel, LogEvent};
use crate::kubernetes_logs::parser::{spec_picker_step, Format, Picker};
use crate::kubernetes_logs::partial_events_merger::{spec_merge_step, Merger, MergerModel};
use vstd::prelude::*;

verus! {

/// One record put through the chain: first the picker, then — if a record
/// came out — the merger.
pub open spec fn spec_two_step(
    pm: Map<Seq<char>, Format>,
    mm: MergerModel,
    e: EventModel,
) -> ((Map<Seq<char>, Format>, MergerModel), Option<EventModel>) {
    let (pm2, out1) = spec_picker_step(pm, e);
    match out1 {
        None => ((pm2, mm), None),
        Some(e1) => {
            let (mm2, out2) = spec_merge_step(mm, e1);
            ((pm2, mm2), out2)
        },
    }
}

/// Chains two transforms, passing the record through the `first` one, and
/// then, if there is still a record to pass, through the `second` one: the
/// pipeline that parses each line and merges the fragments.
pub struct Two {
    pub first: Picker,
    pub second: Merger,
}

impl Two {
    /// Both stages keep one entry per stream.
    pub open spec fn wf(&self) -> bool {
        self.first.wf() && self.second.wf()
    }

    /// Puts one record through both stages, as [`spec_two_step`] says.
    pub fn transform(&mut self, event: LogEvent) -> (r: Option<LogEvent>)
        requires
            old(self).wf(),
        ensures
            final(self).wf(),
            ({
                let ((pm, mm), out) = spec_two_step(old(self).first@, old(self).second@, event@);
                &&& final(self).first@ == pm
                &&& final(self).second@ == mm
                &&& match r {
                    Some(ev) => out == Some(ev@),
                    None => out is None,
                }
            }),
    {
        let stage_one = self.first.transform(event);
        match stage_one {
            Some(ev) => self.second.transform(ev),
            None => None,
        }
    }
}

} // verus!
